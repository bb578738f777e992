//! The structured rendering of a drained metrics window.
//!
//! Unlike the console line, this rendering keeps the raw quantile values
//! (no millisecond conversion) and pairs them with the server's identity,
//! the query name and the target rate, forming the record that is handed to
//! external storage and metrics delivery.

use vstd::prelude::*;
use vstd::string::*;
use crate::requester::ServerInfo;
use crate::sink::Sink;

verus! {

/// The summary of one completed (query, rate) run: identity of the server
/// under test, the query, the target rate, the three percentiles in raw
/// units, the two outcome counters, and the moment the record was produced.
#[derive(Debug)]
pub struct ResponseTime {
    commit: String,
    connector: String,
    query_name: String,
    p50: u64,
    p95: u64,
    p99: u64,
    rps: u64,
    successes: u64,
    failures: u64,
    time: String,
    version: String,
}

impl ResponseTime {
    pub fn commit(&self) -> (r: &str)
        ensures
            r@ == self.spec_commit(),
    {
        self.commit.as_str()
    }

    pub fn version(&self) -> (r: &str)
        ensures
            r@ == self.spec_version(),
    {
        self.version.as_str()
    }

    pub fn connector(&self) -> (r: &str)
        ensures
            r@ == self.spec_connector(),
    {
        self.connector.as_str()
    }

    pub fn query_name(&self) -> (r: &str)
        ensures
            r@ == self.spec_query_name(),
    {
        self.query_name.as_str()
    }

    pub fn p50(&self) -> (r: u64)
        ensures
            r == self.spec_p50(),
    {
        self.p50
    }

    pub fn p95(&self) -> (r: u64)
        ensures
            r == self.spec_p95(),
    {
        self.p95
    }

    pub fn p99(&self) -> (r: u64)
        ensures
            r == self.spec_p99(),
    {
        self.p99
    }

    pub fn rps(&self) -> (r: u64)
        ensures
            r == self.spec_rps(),
    {
        self.rps
    }

    pub fn successes(&self) -> (r: u64)
        ensures
            r == self.spec_successes(),
    {
        self.successes
    }

    pub fn failures(&self) -> (r: u64)
        ensures
            r == self.spec_failures(),
    {
        self.failures
    }

    /// The RFC 3339 timestamp the record was produced at.
    pub fn time(&self) -> (r: &str)
        ensures
            r@ == self.spec_time(),
    {
        self.time.as_str()
    }

    /// The fields of the record, for contracts.
    pub closed spec fn spec_time(&self) -> Seq<char> {
        self.time@
    }

    pub closed spec fn spec_commit(&self) -> Seq<char> {
        self.commit@
    }

    pub closed spec fn spec_version(&self) -> Seq<char> {
        self.version@
    }

    pub closed spec fn spec_connector(&self) -> Seq<char> {
        self.connector@
    }

    pub closed spec fn spec_query_name(&self) -> Seq<char> {
        self.query_name@
    }

    pub closed spec fn spec_p50(&self) -> u64 {
        self.p50
    }

    pub closed spec fn spec_p95(&self) -> u64 {
        self.p95
    }

    pub closed spec fn spec_p99(&self) -> u64 {
        self.p99
    }

    pub closed spec fn spec_rps(&self) -> u64 {
        self.rps
    }

    pub closed spec fn spec_successes(&self) -> u64 {
        self.successes
    }

    pub closed spec fn spec_failures(&self) -> u64 {
        self.failures
    }
}

/// Produces the structured record for one run, from the server's identity,
/// the query's name and the run's target rate.
pub struct JsonObserver {
    server_info: ServerInfo,
    query_name: String,
    rps: u64,
}

impl JsonObserver {
    /// The server identity this observer stamps onto every record.
    pub closed spec fn spec_server_info(&self) -> ServerInfo {
        self.server_info
    }

    pub closed spec fn spec_query_name(&self) -> Seq<char> {
        self.query_name@
    }

    pub closed spec fn spec_rps(&self) -> u64 {
        self.rps
    }

    pub fn new(server_info: ServerInfo, query_name: &str, rps: u64) -> (o: JsonObserver)
        ensures
            o.spec_server_info() == server_info,
            o.spec_query_name() == query_name@,
            o.spec_rps() == rps,
    {
        JsonObserver { server_info, query_name: query_name.to_owned(), rps }
    }

    /// Drains the sink into a structured record: the raw percentile values
    /// and counters of the window, the server identity and the query name
    /// and rate of the run, stamped with the current time.  The drain is
    /// destructive: the sink is left reset.
    pub fn drain(&self, sink: &mut Sink) -> (rt: ResponseTime)
        requires
            old(sink).wf(),
        ensures
            final(sink).wf(),
            final(sink).is_reset(),
            rt.spec_commit() == self.spec_server_info().commit@,
            rt.spec_connector() == self.spec_server_info().primary_connector@,
            rt.spec_version() == self.spec_server_info().version@,
            rt.spec_query_name() == self.spec_query_name(),
            rt.spec_rps() == self.spec_rps(),
            rt.spec_p50() == old(sink).drain_spec().p50,
            rt.spec_p95() == old(sink).drain_spec().p95,
            rt.spec_p99() == old(sink).drain_spec().p99,
            rt.spec_successes() == old(sink).drain_spec().successes,
            rt.spec_failures() == old(sink).drain_spec().failures,
            rt.spec_p50() <= rt.spec_p95() <= rt.spec_p99(),
            rfc3339_utc_shaped(rt.spec_time()),
    {
        let snap = sink.drain();
        ResponseTime {
            commit: self.server_info.commit.clone(),
            connector: self.server_info.primary_connector.clone(),
            version: self.server_info.version.clone(),
            query_name: self.query_name.clone(),
            p50: snap.p50,
            p95: snap.p95,
            p99: snap.p99,
            rps: self.rps,
            successes: snap.successes,
            failures: snap.failures,
            time: now_rfc3339(),
        }
    }
}

/// The shape every timestamp of this library's clock has, whatever the
/// clock reads: a date, a `T`, a time, and the UTC offset written
/// `+00:00` — at least the twenty-five characters of
/// `YYYY-MM-DDTHH:MM:SS+00:00` (a fractional second may stand between the
/// seconds and the offset).
pub open spec fn rfc3339_utc_shaped(s: Seq<char>) -> bool {
    &&& s.len() >= 25
    &&& s.subrange(s.len() - 6, s.len() as int) == "+00:00"@
    &&& exists|i: int| 0 <= i < s.len() && s[i] == 'T'
}

/// Relies on chrono's `Utc::now` and `DateTime::to_rfc3339`: the current
/// wall-clock time rendered as an RFC 3339 timestamp.  The clock decides
/// the value, so only the timestamp's shape is promised: a UTC offset
/// spelled `+00:00` after date, `T` and time.
#[verifier::external_body]
fn now_rfc3339() -> (r: String)
    ensures
        rfc3339_utc_shaped(r@),
{
    chrono::Utc::now().to_rfc3339()
}

} // verus!

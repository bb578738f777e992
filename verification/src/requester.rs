//! The rate-controlled dispatcher and its request-level rules.
//!
//! This module holds the decision core of a load run: the tick plan that
//! fixes how many requests a run dispatches, the classification of each
//! request's outcome into the sink, the request payload shapes, and the
//! fail-fast judgment of the validation pass.  The surrounding process owns
//! the clock, the sockets and the task runtime, and drives these functions
//! tick by tick.

use vstd::prelude::*;
use vstd::string::*;
use vstd::arithmetic::div_mod::{
    lemma_basic_div, lemma_div_is_ordered, lemma_div_is_ordered_by_denominator,
    lemma_div_multiples_vanish_quotient, lemma_div_pos_is_pos, lemma_fundamental_div_mod,
    lemma_fundamental_div_mod_converse,
};
use crate::error::Error;
use crate::sink::Sink;
use crate::text::{dec_spec, str_eq, trim, trim_spec, u64_to_string};

verus! {

/// The kind of GraphQL endpoint under test.
#[derive(Debug, Clone, Copy, PartialEq, Eq, Structural)]
pub enum EndpointType {
    Prisma,
    Hasura,
    Photon,
}

impl Default for EndpointType {
    fn default() -> (r: Self)
        ensures
            r == EndpointType::Prisma,
    {
        EndpointType::Prisma
    }
}

impl EndpointType {
    /// Parses the endpoint type named in the options; exactly the names
    /// `"prisma"`, `"hasura"` and `"photon"` are known.
    pub fn from_str(s: &str) -> (r: Result<EndpointType, Error>)
        ensures
            s@ == "hasura"@ ==> r == Ok::<EndpointType, Error>(EndpointType::Hasura),
            s@ == "prisma"@ ==> r == Ok::<EndpointType, Error>(EndpointType::Prisma),
            s@ == "photon"@ ==> r == Ok::<EndpointType, Error>(EndpointType::Photon),
            s@ != "hasura"@ && s@ != "prisma"@ && s@ != "photon"@ ==> (r matches Err(
                Error::InvalidEndpointType(t),
            ) && t@ == s@),
    {
        proof {
            reveal_strlit("hasura");
            reveal_strlit("prisma");
            reveal_strlit("photon");
            assert("hasura"@[0] != "prisma"@[0]);
            assert("hasura"@[0] != "photon"@[0]);
            assert("prisma"@[1] != "photon"@[1]);
        }
        if str_eq(s, "hasura") {
            Ok(EndpointType::Hasura)
        } else if str_eq(s, "prisma") {
            Ok(EndpointType::Prisma)
        } else if str_eq(s, "photon") {
            Ok(EndpointType::Photon)
        } else {
            Err(Error::InvalidEndpointType(s.to_owned()))
        }
    }
}

/// Nanoseconds in one second.
pub const NANOS_PER_SEC: u64 = 1_000_000_000;

/// The number of requests a run dispatches.  A duration shorter than one
/// tick interval dispatches nothing at all: the run completes immediately
/// after the drain step, with empty metrics.  Otherwise one request goes
/// out at every multiple of the interval inside the duration (the ceiling
/// of `duration / interval`).
pub open spec fn tick_count(duration_ns: nat, interval_ns: nat) -> int
    recommends
        interval_ns > 0,
{
    if duration_ns < interval_ns {
        0
    } else {
        (duration_ns + interval_ns - 1) / (interval_ns as int)
    }
}

/// For a run of at least one interval, the tick at offset `k * interval`
/// lies inside the run exactly when `k < tick_count`: driving the
/// dispatcher at exact multiples of the interval dispatches exactly
/// `tick_count` requests.  A shorter run dispatches none.
pub proof fn lemma_tick_window(duration_ns: nat, interval_ns: nat, k: nat)
    requires
        interval_ns > 0,
    ensures
        duration_ns < interval_ns ==> tick_count(duration_ns, interval_ns) == 0,
        duration_ns >= interval_ns ==> ((k * interval_ns < duration_ns) <==> k < tick_count(
            duration_ns,
            interval_ns,
        )),
{
    let d = duration_ns as int;
    let i = interval_ns as int;
    if duration_ns < interval_ns {
        return ;
    }
    if k * interval_ns < duration_ns {
        assert((k as int + 1) * i == k * i + i) by (nonlinear_arith);
        lemma_fundamental_div_mod_converse(k * i + i, i, k as int + 1, 0);
        lemma_div_is_ordered(k * i + i, d + i - 1, i);
    } else {
        lemma_fundamental_div_mod_converse(k * i + i - 1, i, k as int, i - 1);
        lemma_div_is_ordered(d + i - 1, k * i + i - 1, i);
    }
}

/// The tick plan of one run: for target rate `rate` (requests per second)
/// the tick interval is `1s / rate`, and the number of requests dispatched
/// is the number of tick instants inside `duration_ns` — zero when the
/// duration is shorter than a single interval.
pub fn planned_requests(rate: u64, duration_ns: u64) -> (n: u64)
    requires
        1 <= rate <= 1_000_000_000,
    ensures
        n == tick_count(duration_ns as nat, (1_000_000_000int / rate as int) as nat),
{
    let interval: u64 = NANOS_PER_SEC / rate;
    if duration_ns < interval {
        return 0;
    }
    proof {
        lemma_div_is_ordered_by_denominator(1_000_000_000int, rate as int, 1_000_000_000int);
        let d = duration_ns as int;
        let i = interval as int;
        assert(d <= d * i) by (nonlinear_arith)
            requires
                i >= 1,
                d >= 0,
        ;
        lemma_fundamental_div_mod_converse(d * i + i - 1, i, d, i - 1);
        lemma_div_is_ordered(d + i - 1, d * i + i - 1, i);
    }
    let wide: u128 = ((duration_ns as u128) + (interval as u128) - 1) / (interval as u128);
    wide as u64
}

/// The dispatched count stays within one request of the target `D * R`
/// whenever the rate divides one second evenly (so the tick interval is
/// exact).  This is the tick-boundary rounding of an open-loop run.
pub proof fn lemma_dispatch_count_near_target(rate: nat, duration_ns: nat)
    requires
        1 <= rate <= 1_000_000_000,
        1_000_000_000int % (rate as int) == 0,
    ensures
        duration_ns * rate / 1_000_000_000 <= tick_count(
            duration_ns,
            (1_000_000_000int / rate as int) as nat,
        ) <= duration_ns * rate / 1_000_000_000 + 1,
{
    let d = duration_ns as int;
    let r = rate as int;
    let i = 1_000_000_000int / r;
    lemma_fundamental_div_mod(1_000_000_000int, r);
    assert(1_000_000_000int == r * i);
    lemma_div_pos_is_pos(1_000_000_000int, r);
    assert(i >= 1) by (nonlinear_arith)
        requires
            r * i == 1_000_000_000,
            1 <= r <= 1_000_000_000,
            i >= 0,
    ;
    if duration_ns < i {
        // Nothing is dispatched, and the target itself rounds down to zero.
        assert(d * r < 1_000_000_000) by (nonlinear_arith)
            requires
                0 <= d < i,
                r * i == 1_000_000_000,
                r >= 1,
        ;
        lemma_basic_div(d * r, 1_000_000_000);
        return ;
    }
    // d * rate / 1e9 == d / i, cancelling the common factor rate.
    lemma_div_multiples_vanish_quotient(r, d, i);
    assert(r * d == d * r) by (nonlinear_arith);
    assert(d * r / 1_000_000_000 == d / i);
    // The ceiling (d + i - 1) / i is d / i or d / i + 1.
    let q = d / i;
    lemma_fundamental_div_mod(d, i);
    let m = d % i;
    assert(i * q == q * i) by (nonlinear_arith);
    assert((q + 1) * i == q * i + i) by (nonlinear_arith);
    if m == 0 {
        lemma_fundamental_div_mod_converse(d + i - 1, i, q, i - 1);
    } else {
        lemma_fundamental_div_mod_converse(d + i - 1, i, q + 1, m - 1);
    }
}

/// The achieved rate shown live beside the target: requests sent so far,
/// scaled to one second of elapsed time (zero before the clock moves).
pub fn current_rate(sent_total: u64, elapsed_ns: u128) -> (r: u128)
    ensures
        elapsed_ns == 0 ==> r == 0,
        elapsed_ns > 0 ==> r == (sent_total as int) * 1_000_000_000 / (elapsed_ns as int),
{
    if elapsed_ns == 0 {
        0
    } else {
        proof {
            assert((sent_total as int) * 1_000_000_000 <= 0xffffffffffffffffi128 as int
                * 1_000_000_000) by (nonlinear_arith)
                requires
                    0 <= sent_total <= 0xffffffffffffffffi128 as int,
            ;
        }
        (sent_total as u128) * 1_000_000_000 / elapsed_ns
    }
}

/// No two strings of the sequence read the same.
pub open spec fn distinct_strings(s: Seq<String>) -> bool {
    forall|i: int, j: int| 0 <= i < j < s.len() ==> s[i]@ != s[j]@
}

/// The phases of one load run: waiting to start, dispatching on the tick
/// cadence, waiting for outstanding requests after the duration elapsed,
/// and finished.
#[derive(Debug, Clone, Copy, PartialEq, Eq, Structural)]
pub enum Phase {
    Idle,
    Dispatching,
    Draining,
    Done,
}

/// What the run loop must do after asking the dispatcher about a tick.
#[derive(Debug, Clone, Copy, PartialEq, Eq, Structural)]
pub enum TickAction {
    /// Materialize one request and launch it as an independent unit of work.
    Dispatch,
    /// The duration has elapsed: launch nothing more and await every
    /// outstanding unit of work.
    BeginDrain,
}

/// The decision core of the rate-controlled dispatcher.  The surrounding
/// loop owns the clock and the tasks; it reports each tick's elapsed time
/// here and obeys the returned action, so every scheduling decision of a
/// run is made — and checked — in this state machine.
pub struct Dispatcher {
    rate: u64,
    duration_ns: u64,
    interval_ns: u64,
    sent: u64,
    phase: Phase,
    errors: Vec<String>,
}

impl Dispatcher {
    /// The target rate of the run, in requests per second.
    pub closed spec fn spec_rate(&self) -> u64 {
        self.rate
    }

    /// The run's duration in nanoseconds.
    pub closed spec fn spec_duration_ns(&self) -> u64 {
        self.duration_ns
    }

    /// The tick interval in nanoseconds: one second divided by the rate.
    pub closed spec fn spec_interval_ns(&self) -> u64 {
        self.interval_ns
    }

    /// How many requests have been dispatched so far.
    pub closed spec fn spec_sent(&self) -> u64 {
        self.sent
    }

    pub closed spec fn spec_phase(&self) -> Phase {
        self.phase
    }

    /// The distinct error descriptions collected while joining the run's
    /// outstanding requests.
    pub closed spec fn spec_errors(&self) -> Seq<String> {
        self.errors@
    }

    /// The dispatcher's invariant: the rate is positive and at most one tick
    /// per nanosecond, the interval is derived from it exactly, and the
    /// collected error descriptions are distinct.
    pub open spec fn wf(&self) -> bool {
        &&& 1 <= self.spec_rate() <= 1_000_000_000
        &&& self.spec_interval_ns() == 1_000_000_000int / (self.spec_rate() as int)
        &&& distinct_strings(self.spec_errors())
    }

    /// Sets up a run: target rate and duration are fixed, nothing is sent,
    /// no errors are collected.  The rate must be positive — a zero rate
    /// has no tick interval and is a configuration error.
    pub fn new(rate: u64, duration_ns: u64) -> (d: Dispatcher)
        requires
            1 <= rate <= 1_000_000_000,
        ensures
            d.wf(),
            d.spec_rate() == rate,
            d.spec_duration_ns() == duration_ns,
            d.spec_phase() == Phase::Idle,
            d.spec_sent() == 0,
            d.spec_errors() == Seq::<String>::empty(),
    {
        Dispatcher {
            rate,
            duration_ns,
            interval_ns: NANOS_PER_SEC / rate,
            sent: 0,
            phase: Phase::Idle,
            errors: Vec::new(),
        }
    }

    /// Starts dispatching; the caller records the start instant and begins
    /// the tick cadence.
    pub fn start(&mut self)
        requires
            old(self).wf(),
            old(self).spec_phase() == Phase::Idle,
        ensures
            final(self).wf(),
            final(self).spec_phase() == Phase::Dispatching,
            final(self).spec_rate() == old(self).spec_rate(),
            final(self).spec_duration_ns() == old(self).spec_duration_ns(),
            final(self).spec_interval_ns() == old(self).spec_interval_ns(),
            final(self).spec_sent() == old(self).spec_sent(),
            final(self).spec_errors() == old(self).spec_errors(),
    {
        self.phase = Phase::Dispatching;
    }

    /// One tick of the run loop, with the wall-clock time elapsed since the
    /// start.  While the elapsed time is below the duration every tick
    /// dispatches one request; the first tick at or past the duration ends
    /// dispatch and begins the drain.  A run whose duration is shorter than
    /// a single tick interval dispatches nothing: its very first tick
    /// already begins the drain, and the run completes with empty metrics.
    /// The cadence itself is open-loop: the decision never looks at how
    /// many requests are still in flight.
    pub fn on_tick(&mut self, elapsed_ns: u64) -> (a: TickAction)
        requires
            old(self).wf(),
            old(self).spec_phase() == Phase::Dispatching,
            old(self).spec_sent() < u64::MAX,
        ensures
            final(self).wf(),
            final(self).spec_rate() == old(self).spec_rate(),
            final(self).spec_duration_ns() == old(self).spec_duration_ns(),
            final(self).spec_interval_ns() == old(self).spec_interval_ns(),
            final(self).spec_errors() == old(self).spec_errors(),
            elapsed_ns < old(self).spec_duration_ns() && old(self).spec_duration_ns() >= old(
                self,
            ).spec_interval_ns() ==> (a == TickAction::Dispatch && final(self).spec_phase()
                == Phase::Dispatching && final(self).spec_sent() == old(self).spec_sent() + 1),
            elapsed_ns >= old(self).spec_duration_ns() || old(self).spec_duration_ns() < old(
                self,
            ).spec_interval_ns() ==> (a == TickAction::BeginDrain && final(self).spec_phase()
                == Phase::Draining && final(self).spec_sent() == old(self).spec_sent()),
    {
        if self.duration_ns >= self.interval_ns && elapsed_ns < self.duration_ns {
            self.sent = self.sent + 1;
            TickAction::Dispatch
        } else {
            self.phase = Phase::Draining;
            TickAction::BeginDrain
        }
    }

    /// How many requests have been dispatched so far, for the live
    /// achieved-rate display; never used to gate dispatch.
    pub fn sent(&self) -> (r: u64)
        ensures
            r == self.spec_sent(),
    {
        self.sent
    }

    /// Collects the error description of one failed request while the run's
    /// outstanding work is joined; descriptions already seen are dropped, so
    /// the set surfaced at the end is deduplicated.
    pub fn record_error(&mut self, desc: String)
        requires
            old(self).wf(),
        ensures
            final(self).wf(),
            final(self).spec_rate() == old(self).spec_rate(),
            final(self).spec_duration_ns() == old(self).spec_duration_ns(),
            final(self).spec_interval_ns() == old(self).spec_interval_ns(),
            final(self).spec_phase() == old(self).spec_phase(),
            final(self).spec_sent() == old(self).spec_sent(),
            (exists|i: int|
                0 <= i < old(self).spec_errors().len() && old(self).spec_errors()[i]@ == desc@)
                ==> final(self).spec_errors() == old(self).spec_errors(),
            !(exists|i: int|
                0 <= i < old(self).spec_errors().len() && old(self).spec_errors()[i]@ == desc@)
                ==> final(self).spec_errors() == old(self).spec_errors().push(desc),
    {
        let n = self.errors.len();
        let mut i: usize = 0;
        while i < n
            invariant
                i <= n,
                n == self.errors@.len(),
                self == old(self),
                old(self).wf(),
                forall|j: int| 0 <= j < i ==> self.errors@[j]@ != desc@,
            decreases n - i,
        {
            if str_eq(self.errors[i].as_str(), desc.as_str()) {
                proof {
                    assert(old(self).spec_errors()[i as int]@ == desc@);
                }
                return ;
            }
            i += 1;
        }
        let ghost pre = self.errors@;
        self.errors.push(desc);
        proof {
            assert forall|p: int, q: int| 0 <= p < q < self.errors@.len() implies self.errors@[p]@
                != self.errors@[q]@ by {
                if q < pre.len() {
                    assert(self.errors@[p] == pre[p] && self.errors@[q] == pre[q]);
                } else {
                    assert(self.errors@[q] == desc && self.errors@[p] == pre[p]);
                }
            }
        }
    }

    /// Ends the run once every outstanding request has been joined, handing
    /// out the distinct error descriptions collected along the way.
    pub fn finish(&mut self) -> (errs: Vec<String>)
        requires
            old(self).wf(),
            old(self).spec_phase() == Phase::Draining,
        ensures
            final(self).wf(),
            final(self).spec_phase() == Phase::Done,
            final(self).spec_sent() == old(self).spec_sent(),
            errs@ == old(self).spec_errors(),
    {
        self.phase = Phase::Done;
        let mut out: Vec<String> = Vec::new();
        core::mem::swap(&mut out, &mut self.errors);
        out
    }
}

/// The identity of the server under test, fetched once per bench session
/// (or synthesized for endpoint kinds without the introspection call).
#[derive(Debug, Clone)]
pub struct ServerInfo {
    pub commit: String,
    pub version: String,
    pub primary_connector: String,
}

/// The fixed identity reported for a Hasura endpoint, which has no
/// introspection call to ask.
pub fn hasura_server_info() -> (si: ServerInfo)
    ensures
        si.commit@ == "hasura-1.0.0"@,
        si.version@ == "1.0.0"@,
        si.primary_connector@ == "postgres"@,
{
    ServerInfo {
        commit: String::from_str("hasura-1.0.0"),
        version: String::from_str("1.0.0"),
        primary_connector: String::from_str("postgres"),
    }
}

/// How one dispatched request ended, as the run loop observed it.
#[derive(Debug)]
pub enum RequestOutcome {
    /// An HTTP response arrived, with this status code.
    Status(u16),
    /// The transport failed or the per-request timeout elapsed; carries the
    /// failure's textual description.
    Failed(String),
}

/// HTTP statuses counted as success: the 2xx class.
pub open spec fn is_success_status(status: u16) -> bool {
    200 <= status < 300
}

/// Whether an outcome counts as a success.
pub open spec fn outcome_is_success(o: RequestOutcome) -> bool {
    match o {
        RequestOutcome::Status(s) => is_success_status(s),
        RequestOutcome::Failed(_) => false,
    }
}

/// The short description under which a failed outcome is surfaced: the
/// status code in decimal, or the transport failure's own text.
pub open spec fn outcome_description(o: RequestOutcome) -> Seq<char> {
    match o {
        RequestOutcome::Status(s) => dec_spec(s as nat),
        RequestOutcome::Failed(m) => m@,
    }
}

/// Feeds one completed request into the sink: the measured latency is
/// recorded whatever the outcome was, then the outcome bumps exactly one of
/// the two counters.  A failed outcome hands back its description for the
/// run's deduplicated error list.
pub fn apply_outcome(sink: &mut Sink, latency: u64, outcome: &RequestOutcome) -> (err: Option<
    String,
>)
    requires
        old(sink).wf(),
    ensures
        final(sink).wf(),
        final(sink).latencies().to_multiset() == old(sink).latencies().to_multiset().insert(
            latency,
        ),
        final(sink).latencies().len() == old(sink).latencies().len() + 1,
        outcome_is_success(*outcome) ==> (err is None && final(sink).errors() == old(sink).errors()
            && (old(sink).successes() < u64::MAX ==> final(sink).successes() == old(
            sink,
        ).successes() + 1) && (old(sink).successes() == u64::MAX ==> final(sink).successes()
            == u64::MAX)),
        !outcome_is_success(*outcome) ==> ((err matches Some(d) && d@ == outcome_description(
            *outcome,
        )) && final(sink).successes() == old(sink).successes() && (old(sink).errors() < u64::MAX
            ==> final(sink).errors() == old(sink).errors() + 1) && (old(sink).errors() == u64::MAX
            ==> final(sink).errors() == u64::MAX)),
{
    sink.record("response_time", latency);
    match outcome {
        RequestOutcome::Status(code) => {
            if 200 <= *code && *code < 300 {
                sink.increment("success");
                None
            } else {
                sink.increment("error");
                Some(u64_to_string(*code as u64))
            }
        },
        RequestOutcome::Failed(msg) => {
            sink.increment("error");
            Some(msg.clone())
        },
    }
}

/// The JSON string literal (opening and closing quote included, every
/// character escaped as JSON requires) denoting exactly the characters `s`.
/// The result is a function of the characters alone.
pub uninterp spec fn json_quoted(s: Seq<char>) -> Seq<char>;

/// Relies on serde_json::to_string for `&str`: serializing a string yields
/// its JSON string literal.  Serializing a string cannot fail.
#[verifier::external_body]
fn encode_json_string(s: &str) -> (r: String)
    ensures
        r@ == json_quoted(s@),
{
    serde_json::to_string(s).expect("serializing a string cannot fail")
}

/// The request body of a single query: the trimmed, JSON-escaped query text
/// under the `query` key, with an empty `variables` object.
pub open spec fn single_payload_spec(q: Seq<char>) -> Seq<char> {
    "{\"query\":"@ + json_quoted(trim_spec(q)) + ",\"variables\":{}}"@
}

/// Builds the request body for one materialized query text.
pub fn single_payload(query_text: &str) -> (r: String)
    ensures
        r@ == single_payload_spec(query_text@),
{
    let t = trim(query_text);
    let quoted = encode_json_string(t);
    let mut s = String::from_str("{\"query\":");
    s.append(quoted.as_str());
    s.append(",\"variables\":{}}");
    s
}

/// The single-query bodies of a batch, joined with commas.
pub open spec fn joined_payloads(qs: Seq<String>) -> Seq<char>
    decreases qs.len(),
{
    if qs.len() == 0 {
        Seq::<char>::empty()
    } else if qs.len() == 1 {
        single_payload_spec(qs[0]@)
    } else {
        joined_payloads(qs.drop_last()) + ","@ + single_payload_spec(qs.last()@)
    }
}

/// The request body of a batch: every materialized query's single-query
/// body, in order, inside an array under the `batch` key.
pub open spec fn batch_payload_spec(qs: Seq<String>) -> Seq<char> {
    "{\"batch\":["@ + joined_payloads(qs) + "]}"@
}

/// Builds the request body for a batch of materialized query texts.
pub fn batch_payload(queries: &Vec<String>) -> (r: String)
    ensures
        r@ == batch_payload_spec(queries@),
{
    let mut s = String::from_str("{\"batch\":[");
    let ghost prefix = "{\"batch\":["@;
    let n = queries.len();
    let mut i: usize = 0;
    while i < n
        invariant
            i <= n,
            n == queries@.len(),
            s@ == prefix + joined_payloads(queries@.take(i as int)),
        decreases n - i,
    {
        if i > 0 {
            s.append(",");
        }
        let body = single_payload(queries[i].as_str());
        s.append(body.as_str());
        proof {
            let taken = queries@.take(i as int + 1);
            assert(taken.drop_last() =~= queries@.take(i as int));
            assert(taken.last() == queries@[i as int]);
        }
        i += 1;
    }
    s.append("]}");
    proof {
        assert(queries@.take(n as int) =~= queries@);
    }
    s
}

/// serde_json's decoded document type, declared so decoded bodies can flow
/// through verified code (the value itself stays opaque).
#[verifier::external_type_specification]
#[verifier::external_body]
pub struct ExValue(serde_json::Value);

/// Whether the bytes decode as a JSON document.  Decoding is a function of
/// the bytes alone.
pub uninterp spec fn json_decodes(b: Seq<u8>) -> bool;

/// Whether the bytes decode as a JSON document that carries a top-level
/// `errors` key with any value but JSON null — the shape a GraphQL server
/// reports failures in.  A function of the bytes alone; false where the
/// bytes do not decode at all.
pub uninterp spec fn json_errors_nonnull(b: Seq<u8>) -> bool;

/// Relies on serde_json::from_slice for Value: decodes a response body as a
/// JSON document, succeeding exactly when the bytes are JSON; a decode
/// failure is handed back as its message.
#[verifier::external_body]
fn parse_json(bytes: &Vec<u8>) -> (r: Result<serde_json::Value, String>)
    ensures
        r is Ok <==> json_decodes(bytes@),
{
    match serde_json::from_slice::<serde_json::Value>(bytes.as_slice()) {
        Ok(v) => Ok(v),
        Err(e) => Err(format!("{}", e)),
    }
}

/// Relies on serde_json's from_slice, Value::get and Value::is_null: the
/// one decision the validation pass reads off a body, as a function of the
/// bytes alone.
#[verifier::external_body]
fn body_errors_nonnull(bytes: &Vec<u8>) -> (r: bool)
    ensures
        r == json_errors_nonnull(bytes@),
{
    match serde_json::from_slice::<serde_json::Value>(bytes.as_slice()) {
        Ok(v) => match v.get("errors") {
            Some(x) => !x.is_null(),
            None => false,
        },
        Err(_) => false,
    }
}

/// Relies on serde_json::to_string for Value: the document rendered as JSON
/// text, carried into the validation error.  Serializing a decoded document
/// cannot fail.
#[verifier::external_body]
fn json_value_to_text(v: &serde_json::Value) -> String {
    serde_json::to_string(v).expect("serializing a decoded document cannot fail")
}

/// The validation judgment for one query's response, over plain values: the
/// response passes exactly when its status is a success and its body has no
/// top-level non-null `errors` field.  A failure names the query, and
/// carries the status in decimal (for a bad status) or the body's text (for
/// a reported error).
pub fn judge_validation(name: &str, status: u16, has_errors_field: bool, body_text: &str) -> (r:
    Result<(), Error>)
    ensures
        r is Ok <==> (is_success_status(status) && !has_errors_field),
        !is_success_status(status) ==> (r matches Err(Error::InvalidQuery { query, error })
            && query@ == name@ && error@ == dec_spec(status as nat)),
        is_success_status(status) && has_errors_field ==> (r matches Err(
            Error::InvalidQuery { query, error },
        ) && query@ == name@ && error@ == body_text@),
{
    if !(200 <= status && status < 300) {
        Err(Error::InvalidQuery { query: name.to_owned(), error: u64_to_string(status as u64) })
    } else if has_errors_field {
        Err(Error::InvalidQuery { query: name.to_owned(), error: body_text.to_owned() })
    } else {
        Ok(())
    }
}

/// Checks one validation response as it came off the wire: a non-success
/// status fails at once; otherwise the body is decoded and a top-level
/// non-null `errors` field fails the query.  A body that is not JSON at all
/// is a serialization error, equally fatal for validation.  Success is owed
/// exactly when the status is a success, the body decodes, and the decoded
/// document reports no errors.
pub fn validate_response(name: &str, status: u16, body: &Vec<u8>) -> (r: Result<(), Error>)
    ensures
        r is Ok <==> (is_success_status(status) && json_decodes(body@) && !json_errors_nonnull(
            body@,
        )),
        !is_success_status(status) ==> (r matches Err(Error::InvalidQuery { query, error })
            && query@ == name@ && error@ == dec_spec(status as nat)),
        is_success_status(status) ==> ((r matches Err(Error::Serialization(_)))
            <==> !json_decodes(body@)),
        is_success_status(status) && json_decodes(body@) && json_errors_nonnull(body@) ==> (r
            matches Err(e) && e.is_invalid_query_named(name@)),
        r matches Err(e) ==> (e.is_invalid_query_named(name@) || e matches Error::Serialization(
            _,
        )),
{
    if !(200 <= status && status < 300) {
        return Err(
            Error::InvalidQuery { query: name.to_owned(), error: u64_to_string(status as u64) },
        );
    }
    match parse_json(body) {
        Err(m) => Err(Error::Serialization(m)),
        Ok(v) => {
            if body_errors_nonnull(body) {
                Err(Error::InvalidQuery { query: name.to_owned(), error: json_value_to_text(&v) })
            } else {
                Ok(())
            }
        },
    }
}

/// One query's observed validation response, reduced to plain values.
#[derive(Debug)]
pub struct ValidationCheck {
    pub name: String,
    pub status: u16,
    pub has_errors_field: bool,
    pub body: String,
}

/// Whether one observed response passes validation.
pub open spec fn check_passes(c: ValidationCheck) -> bool {
    is_success_status(c.status) && !c.has_errors_field
}

/// The fail-fast validation pass: judges every query's response in order
/// and aborts on the first failure, naming that query; later queries are
/// not looked at.  Succeeds exactly when every response passes.
pub fn validate_all(checks: &Vec<ValidationCheck>) -> (r: Result<(), Error>)
    ensures
        r is Ok <==> (forall|i: int|
            0 <= i < checks@.len() ==> check_passes(#[trigger] checks@[i])),
        r matches Err(e) ==> exists|i: int|
            0 <= i < checks@.len() && !check_passes(#[trigger] checks@[i])
                && e.is_invalid_query_named(checks@[i].name@) && (forall|j: int|
                0 <= j < i ==> check_passes(checks@[j])),
{
    let n = checks.len();
    let mut i: usize = 0;
    while i < n
        invariant
            i <= n,
            n == checks@.len(),
            forall|j: int| 0 <= j < i ==> check_passes(#[trigger] checks@[j]),
        decreases n - i,
    {
        let c = &checks[i];
        match judge_validation(c.name.as_str(), c.status, c.has_errors_field, c.body.as_str()) {
            Err(e) => {
                proof {
                    assert(!check_passes(checks@[i as int]));
                }
                return Err(e);
            },
            Ok(_) => {},
        }
        i += 1;
    }
    Ok(())
}

} // verus!

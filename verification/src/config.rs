//! The query model: templates, variables, rate plans and the run plan.
//!
//! A query is loaded from a file whose stem names it and whose name's speed
//! keyword selects its rate plan.  Before each request the template is
//! materialized: every `$name` token is replaced by a fresh uniformly random
//! value from that variable's half-open range, so repeated materializations
//! of one query are expected to diverge.

use vstd::prelude::*;
use vstd::string::*;
use vstd::arithmetic::div_mod::{
    lemma_div_denominator, lemma_div_is_ordered, lemma_fundamental_div_mod,
};
use crate::text::{
    chars_disjoint, contains_str, contains_token, dec_spec, file_stem_spec, is_digit_char,
    lemma_dec_spec_digits, lemma_replace_all_token_free, parse_name, replace_all,
    replace_all_spec, u64_to_string,
};

verus! {

/// One template variable: a half-open range `[minimum, maximum)` of the
/// integers it may take.  A range with `minimum >= maximum` is empty and
/// cannot be drawn from.
#[derive(Debug, Clone, Copy)]
pub struct QueryVariable {
    pub minimum: u64,
    pub maximum: u64,
}

/// Relies on rand's `thread_rng` and `Rng::gen_range`: one value drawn
/// uniformly from the half-open range, freshly on every call.  Only the
/// bounds are promised; two calls on the same range may differ.
/// `gen_range` panics on an empty range, which the precondition excludes.
#[verifier::external_body]
fn draw_in_range(minimum: u64, maximum: u64) -> (r: u64)
    requires
        minimum < maximum,
    ensures
        minimum <= r < maximum,
{
    rand::Rng::gen_range(&mut rand::thread_rng(), minimum..maximum)
}

/// The template with every variable substituted in order: for each
/// `(name, _)` pair, every occurrence of `$name` is replaced by the decimal
/// rendering of the drawn value.
pub open spec fn materialize_spec(
    template: Seq<char>,
    vars: Seq<(String, QueryVariable)>,
    draws: Seq<u64>,
) -> Seq<char>
    decreases vars.len(),
{
    if vars.len() == 0 {
        template
    } else {
        materialize_spec(
            replace_all_spec(template, seq!['$'] + vars[0].0@, dec_spec(draws[0] as nat)),
            vars.skip(1),
            draws.skip(1),
        )
    }
}

/// Substituting one more variable at the end continues the fold.
proof fn lemma_materialize_snoc(
    template: Seq<char>,
    vars: Seq<(String, QueryVariable)>,
    draws: Seq<u64>,
    v: (String, QueryVariable),
    d: u64,
)
    requires
        vars.len() == draws.len(),
    ensures
        materialize_spec(template, vars.push(v), draws.push(d)) == replace_all_spec(
            materialize_spec(template, vars, draws),
            seq!['$'] + v.0@,
            dec_spec(d as nat),
        ),
    decreases vars.len(),
{
    if vars.len() == 0 {
        let replaced = replace_all_spec(template, seq!['$'] + v.0@, dec_spec(d as nat));
        assert(vars.push(v)[0] == v);
        assert(draws.push(d)[0] == d);
        assert(vars.push(v).skip(1) =~= Seq::<(String, QueryVariable)>::empty());
        assert(draws.push(d).skip(1) =~= Seq::<u64>::empty());
        assert(materialize_spec(template, vars.push(v), draws.push(d)) == materialize_spec(
            replaced,
            vars.push(v).skip(1),
            draws.push(d).skip(1),
        ));
        assert(materialize_spec(replaced, vars.push(v).skip(1), draws.push(d).skip(1))
            == replaced);
        assert(materialize_spec(template, vars, draws) == template);
    } else {
        let replaced = replace_all_spec(template, seq!['$'] + vars[0].0@, dec_spec(draws[0] as nat));
        assert(vars.push(v)[0] == vars[0]);
        assert(draws.push(d)[0] == draws[0]);
        assert(vars.push(v).skip(1) =~= vars.skip(1).push(v));
        assert(draws.push(d).skip(1) =~= draws.skip(1).push(d));
        assert(materialize_spec(template, vars.push(v), draws.push(d)) == materialize_spec(
            replaced,
            vars.skip(1).push(v),
            draws.skip(1).push(d),
        ));
        assert(materialize_spec(template, vars, draws) == materialize_spec(
            replaced,
            vars.skip(1),
            draws.skip(1),
        ));
        lemma_materialize_snoc(replaced, vars.skip(1), draws.skip(1), v, d);
    }
}

/// `out` is one possible materialization of the query: some sequence of
/// in-range draws, one per variable, produces it.
pub open spec fn is_materialization_of(out: Seq<char>, q: SingleQuery) -> bool {
    exists|draws: Seq<u64>|
        #![trigger materialize_spec(q.spec_query(), q.spec_variables(), draws)]
        {
            &&& draws.len() == q.spec_variables().len()
            &&& forall|i: int|
                0 <= i < draws.len() ==> q.spec_variables()[i].1.minimum <= #[trigger] draws[i]
                    < q.spec_variables()[i].1.maximum
            &&& out == materialize_spec(q.spec_query(), q.spec_variables(), draws)
        }
}

/// Substituting a decimal value for `$name` leaves no occurrence of the
/// `$name` token behind, provided the variable's name holds no decimal
/// digit (so the substituted digits can never rebuild the token).
pub proof fn lemma_substitution_token_absent(template: Seq<char>, name: Seq<char>, value: u64)
    requires
        forall|i: int| 0 <= i < name.len() ==> !is_digit_char(#[trigger] name[i]),
    ensures
        !contains_token(
            replace_all_spec(template, seq!['$'] + name, dec_spec(value as nat)),
            seq!['$'] + name,
        ),
{
    let pat = seq!['$'] + name;
    let to = dec_spec(value as nat);
    lemma_dec_spec_digits(value as nat);
    assert(chars_disjoint(to, pat)) by {
        assert forall|i: int, j: int| 0 <= i < to.len() && 0 <= j < pat.len() implies to[i]
            != pat[j] by {
            assert(is_digit_char(to[i]));
            if j == 0 {
                assert(pat[j] == '$');
            } else {
                assert(pat[j] == name[j - 1]);
            }
        }
    }
    lemma_replace_all_token_free(template, pat, to);
}

/// A materialization of a query with one variable, named without decimal
/// digits, contains no occurrence of the variable's `$name` token.
pub proof fn lemma_materialization_token_absent(q: SingleQuery, out: Seq<char>)
    requires
        q.spec_variables().len() == 1,
        forall|i: int|
            0 <= i < q.spec_variables()[0].0@.len() ==> !is_digit_char(
                #[trigger] q.spec_variables()[0].0@[i],
            ),
        is_materialization_of(out, q),
    ensures
        !contains_token(out, seq!['$'] + q.spec_variables()[0].0@),
{
    let vars = q.spec_variables();
    let name = vars[0].0@;
    let draws = choose|draws: Seq<u64>|
        #![trigger materialize_spec(q.spec_query(), q.spec_variables(), draws)]
        {
            &&& draws.len() == q.spec_variables().len()
            &&& forall|i: int|
                0 <= i < draws.len() ==> q.spec_variables()[i].1.minimum <= #[trigger] draws[i]
                    < q.spec_variables()[i].1.maximum
            &&& out == materialize_spec(q.spec_query(), q.spec_variables(), draws)
        };
    let replaced = replace_all_spec(q.spec_query(), seq!['$'] + name, dec_spec(draws[0] as nat));
    assert(materialize_spec(q.spec_query(), vars, draws) == materialize_spec(
        replaced,
        vars.skip(1),
        draws.skip(1),
    ));
    assert(vars.skip(1).len() == 0);
    assert(materialize_spec(replaced, vars.skip(1), draws.skip(1)) == replaced);
    lemma_substitution_token_absent(q.spec_query(), name, draws[0]);
}

/// One named query: its template text, the rates it is run at, and the
/// variables sampled into the template.  Immutable once loaded.
#[derive(Debug)]
pub struct SingleQuery {
    name: String,
    query: String,
    rps: Vec<u64>,
    variables: Vec<(String, QueryVariable)>,
}

impl SingleQuery {
    pub closed spec fn spec_name(&self) -> Seq<char> {
        self.name@
    }

    /// The template text, as loaded.
    pub closed spec fn spec_query(&self) -> Seq<char> {
        self.query@
    }

    pub closed spec fn spec_rps(&self) -> Seq<u64> {
        self.rps@
    }

    pub closed spec fn spec_variables(&self) -> Seq<(String, QueryVariable)> {
        self.variables@
    }

    /// Every variable's range is non-empty, so it can be drawn from.
    pub open spec fn vars_ok(&self) -> bool {
        forall|i: int|
            0 <= i < self.spec_variables().len() ==> (#[trigger] self.spec_variables()[i]).1.minimum
                < self.spec_variables()[i].1.maximum
    }

    pub fn new(
        name: String,
        query: String,
        rps: Vec<u64>,
        variables: Vec<(String, QueryVariable)>,
    ) -> (q: SingleQuery)
        ensures
            q.spec_name() == name@,
            q.spec_query() == query@,
            q.spec_rps() == rps@,
            q.spec_variables() == variables@,
    {
        SingleQuery { name, query, rps, variables }
    }

    pub fn name(&self) -> (r: &str)
        ensures
            r@ == self.spec_name(),
    {
        self.name.as_str()
    }

    pub fn rps(&self) -> (r: &Vec<u64>)
        ensures
            r@ == self.spec_rps(),
    {
        &self.rps
    }

    /// The variables sampled into the template.
    pub fn variables(&self) -> (r: &Vec<(String, QueryVariable)>)
        ensures
            r@ == self.spec_variables(),
    {
        &self.variables
    }

    /// Materializes the template once: draws a fresh random value for every
    /// variable and substitutes its `$name` token.  The query definition
    /// itself is never changed.
    pub fn query(&self) -> (r: String)
        requires
            self.vars_ok(),
        ensures
            is_materialization_of(r@, *self),
    {
        let mut acc: String = self.query.clone();
        let ghost mut draws: Seq<u64> = Seq::<u64>::empty();
        let n = self.variables.len();
        let mut i: usize = 0;
        proof {
            assert(self.spec_variables().take(0) =~= Seq::<(String, QueryVariable)>::empty());
        }
        while i < n
            invariant
                i <= n,
                n == self.spec_variables().len(),
                self.vars_ok(),
                draws.len() == i,
                forall|k: int|
                    0 <= k < i ==> self.spec_variables()[k].1.minimum <= #[trigger] draws[k]
                        < self.spec_variables()[k].1.maximum,
                acc@ == materialize_spec(
                    self.spec_query(),
                    self.spec_variables().take(i as int),
                    draws,
                ),
            decreases n - i,
        {
            let pair = &self.variables[i];
            let x = draw_in_range(pair.1.minimum, pair.1.maximum);
            let mut pat = String::from_str("$");
            pat.append(pair.0.as_str());
            let to = u64_to_string(x);
            proof {
                reveal_strlit("$");
                assert(pat@ =~= seq!['$'] + pair.0@);
            }
            let next = replace_all(acc.as_str(), pat.as_str(), to.as_str());
            proof {
                lemma_materialize_snoc(
                    self.spec_query(),
                    self.spec_variables().take(i as int),
                    draws,
                    self.spec_variables()[i as int],
                    x,
                );
                assert(self.spec_variables().take(i as int).push(self.spec_variables()[i as int])
                    =~= self.spec_variables().take(i as int + 1));
                draws = draws.push(x);
            }
            acc = next;
            i += 1;
        }
        proof {
            assert(self.spec_variables().take(n as int) =~= self.spec_variables());
        }
        acc
    }

    /// Materializes the template `batch` times independently, each with its
    /// own fresh draws; exactly `batch` query strings come back.
    pub fn materialize_batch(&self, batch: u64) -> (r: Vec<String>)
        requires
            self.vars_ok(),
            batch <= usize::MAX,
        ensures
            r@.len() == batch,
            forall|i: int| 0 <= i < r@.len() ==> is_materialization_of(#[trigger] r@[i]@, *self),
    {
        let mut out: Vec<String> = Vec::new();
        let count = batch as usize;
        let mut i: usize = 0;
        while i < count
            invariant
                i <= count,
                self.vars_ok(),
                out@.len() == i,
                forall|k: int| 0 <= k < i ==> is_materialization_of(#[trigger] out@[k]@, *self),
            decreases count - i,
        {
            let q = self.query();
            out.push(q);
            i += 1;
        }
        out
    }
}

/// A configured query: either a single query or a batch that sends the
/// same query materialized `batch` times in one request.
#[derive(Debug)]
pub enum Query {
    Single(SingleQuery),
    Batch { query: SingleQuery, batch: u64 },
}

impl Query {
    /// The inner single query.
    pub open spec fn spec_single(&self) -> SingleQuery {
        match self {
            Query::Single(q) => *q,
            Query::Batch { query, batch: _ } => *query,
        }
    }

    pub open spec fn spec_name(&self) -> Seq<char> {
        self.spec_single().spec_name()
    }

    pub open spec fn spec_rps(&self) -> Seq<u64> {
        self.spec_single().spec_rps()
    }

    pub fn name(&self) -> (r: &str)
        ensures
            r@ == self.spec_name(),
    {
        match self {
            Query::Single(q) => q.name(),
            Query::Batch { query, batch: _ } => query.name(),
        }
    }

    pub fn rps(&self) -> (r: &Vec<u64>)
        ensures
            r@ == self.spec_rps(),
    {
        match self {
            Query::Single(q) => q.rps(),
            Query::Batch { query, batch: _ } => query.rps(),
        }
    }
}

/// The built-in rate plan for the `very-slow` speed keyword.
pub open spec fn very_slow_plan() -> Seq<u64> {
    seq![25u64, 50, 75, 100, 125, 150, 175, 200, 225, 250]
}

/// Builds the `very-slow` rate plan.
pub fn very_slow_rates() -> (r: Vec<u64>)
    ensures
        r@ == very_slow_plan(),
{
    let mut v: Vec<u64> = Vec::new();
    v.push(25);
    v.push(50);
    v.push(75);
    v.push(100);
    v.push(125);
    v.push(150);
    v.push(175);
    v.push(200);
    v.push(225);
    v.push(250);
    proof {
        assert(v@ =~= very_slow_plan());
    }
    v
}

/// The built-in rate plan for the `slow` speed keyword.
pub open spec fn slow_plan() -> Seq<u64> {
    seq![50u64, 100, 150, 200, 250, 300, 350, 400, 450, 500]
}

/// Builds the `slow` rate plan.
pub fn slow_rates() -> (r: Vec<u64>)
    ensures
        r@ == slow_plan(),
{
    let mut v: Vec<u64> = Vec::new();
    v.push(50);
    v.push(100);
    v.push(150);
    v.push(200);
    v.push(250);
    v.push(300);
    v.push(350);
    v.push(400);
    v.push(450);
    v.push(500);
    proof {
        assert(v@ =~= slow_plan());
    }
    v
}

/// The built-in rate plan for the `medium` speed keyword.
pub open spec fn medium_plan() -> Seq<u64> {
    seq![100u64, 200, 300, 400, 500, 600, 700, 800, 900, 1000, 2000]
}

/// Builds the `medium` rate plan.
pub fn medium_rates() -> (r: Vec<u64>)
    ensures
        r@ == medium_plan(),
{
    let mut v: Vec<u64> = Vec::new();
    v.push(100);
    v.push(200);
    v.push(300);
    v.push(400);
    v.push(500);
    v.push(600);
    v.push(700);
    v.push(800);
    v.push(900);
    v.push(1000);
    v.push(2000);
    proof {
        assert(v@ =~= medium_plan());
    }
    v
}

/// The built-in rate plan for the `fast` speed keyword.
pub open spec fn fast_plan() -> Seq<u64> {
    seq![200u64, 400, 600, 800, 1000, 1200, 1400, 1600, 1800, 2000, 4000]
}

/// Builds the `fast` rate plan.
pub fn fast_rates() -> (r: Vec<u64>)
    ensures
        r@ == fast_plan(),
{
    let mut v: Vec<u64> = Vec::new();
    v.push(200);
    v.push(400);
    v.push(600);
    v.push(800);
    v.push(1000);
    v.push(1200);
    v.push(1400);
    v.push(1600);
    v.push(1800);
    v.push(2000);
    v.push(4000);
    proof {
        assert(v@ =~= fast_plan());
    }
    v
}

/// The built-in rate plan for the `very-fast` speed keyword.
pub open spec fn very_fast_plan() -> Seq<u64> {
    seq![200u64, 400, 600, 800, 1000, 1200, 1400, 1600, 1800, 2000, 4000]
}

/// Builds the `very-fast` rate plan.
pub fn very_fast_rates() -> (r: Vec<u64>)
    ensures
        r@ == very_fast_plan(),
{
    let mut v: Vec<u64> = Vec::new();
    v.push(200);
    v.push(400);
    v.push(600);
    v.push(800);
    v.push(1000);
    v.push(1200);
    v.push(1400);
    v.push(1600);
    v.push(1800);
    v.push(2000);
    v.push(4000);
    proof {
        assert(v@ =~= very_fast_plan());
    }
    v
}

/// A configured override for each speed keyword's rate plan.
#[derive(Debug)]
pub struct RatesConfig {
    pub very_slow: Option<Vec<u64>>,
    pub slow: Option<Vec<u64>>,
    pub medium: Option<Vec<u64>>,
    pub fast: Option<Vec<u64>>,
    pub very_fast: Option<Vec<u64>>,
}

/// A configured plan where there is one, the built-in plan otherwise.
pub open spec fn plan_or(o: Option<Vec<u64>>, built_in: Seq<u64>) -> Seq<u64> {
    match o {
        Some(v) => v@,
        None => built_in,
    }
}

/// Whether a query's name names its speed, with one of the five keywords.
pub open spec fn speed_category_known(name: Seq<char>) -> bool {
    ||| contains_token(name, "very-slow"@)
    ||| contains_token(name, "slow"@)
    ||| contains_token(name, "medium"@)
    ||| contains_token(name, "very-fast"@)
    ||| contains_token(name, "fast"@)
}

/// The rate plan a query name selects: the first keyword of
/// `very-slow`, `slow`, `medium`, `very-fast`, `fast` that occurs in the
/// name decides (so a `very-` name is not mistaken for its plain form).
pub open spec fn rates_spec(name: Seq<char>, rates: RatesConfig) -> Seq<u64>
    recommends
        speed_category_known(name),
{
    if contains_token(name, "very-slow"@) {
        plan_or(rates.very_slow, very_slow_plan())
    } else if contains_token(name, "slow"@) {
        plan_or(rates.slow, slow_plan())
    } else if contains_token(name, "medium"@) {
        plan_or(rates.medium, medium_plan())
    } else if contains_token(name, "very-fast"@) {
        plan_or(rates.very_fast, very_fast_plan())
    } else {
        plan_or(rates.fast, fast_plan())
    }
}

/// Copies a rate list.
fn copy_u64_vec(v: &Vec<u64>) -> (r: Vec<u64>)
    ensures
        r@ == v@,
{
    let mut out: Vec<u64> = Vec::new();
    let n = v.len();
    let mut i: usize = 0;
    while i < n
        invariant
            i <= n,
            n == v@.len(),
            out@ == v@.take(i as int),
        decreases n - i,
    {
        out.push(v[i]);
        proof {
            assert(v@.take(i as int + 1) =~= v@.take(i as int).push(v@[i as int]));
        }
        i += 1;
    }
    proof {
        assert(v@.take(n as int) =~= v@);
    }
    out
}

/// Selects the rate plan for a query name.  The name must name its speed;
/// the loader rejects files that name none.
pub fn rates_for_name(name: &str, rates: &RatesConfig) -> (r: Vec<u64>)
    requires
        speed_category_known(name@),
    ensures
        r@ == rates_spec(name@, *rates),
{
    proof {
        reveal_strlit("very-slow");
        reveal_strlit("slow");
        reveal_strlit("medium");
        reveal_strlit("very-fast");
        reveal_strlit("fast");
    }
    if contains_str(name, "very-slow") {
        match &rates.very_slow {
            Some(v) => copy_u64_vec(v),
            None => very_slow_rates(),
        }
    } else if contains_str(name, "slow") {
        match &rates.slow {
            Some(v) => copy_u64_vec(v),
            None => slow_rates(),
        }
    } else if contains_str(name, "medium") {
        match &rates.medium {
            Some(v) => copy_u64_vec(v),
            None => medium_rates(),
        }
    } else if contains_str(name, "very-fast") {
        match &rates.very_fast {
            Some(v) => copy_u64_vec(v),
            None => very_fast_rates(),
        }
    } else {
        match &rates.fast {
            Some(v) => copy_u64_vec(v),
            None => fast_rates(),
        }
    }
}

/// Builds one configured query from a loaded file: the file's stem names
/// the query and selects its rate plan, and a configured batch width wraps
/// the query into a batch.
pub fn build_query(
    path: &str,
    body: String,
    variables: Vec<(String, QueryVariable)>,
    batch: Option<u64>,
    rates: &RatesConfig,
) -> (q: Query)
    requires
        speed_category_known(file_stem_spec(path@)),
    ensures
        q.spec_name() == file_stem_spec(path@),
        q.spec_single().spec_query() == body@,
        q.spec_rps() == rates_spec(file_stem_spec(path@), *rates),
        q.spec_single().spec_variables() == variables@,
        batch matches Some(b) ==> (q matches Query::Batch { query: _, batch: w } && w == b),
        batch is None ==> q is Single,
{
    let name = parse_name(path);
    let rps = rates_for_name(name.as_str(), rates);
    let single = SingleQuery::new(name, body, rps, variables);
    match batch {
        Some(b) => Query::Batch { query: single, batch: b },
        None => Query::Single(single),
    }
}

/// The total number of (query, rate) runs a configuration describes.
pub open spec fn total_tests(qs: Seq<Query>) -> nat
    decreases qs.len(),
{
    if qs.len() == 0 {
        0
    } else {
        total_tests(qs.drop_last()) + qs.last().spec_rps().len()
    }
}

/// Extending a prefix by one query adds that query's rate count.
proof fn lemma_total_tests_step(qs: Seq<Query>, i: int)
    requires
        0 <= i < qs.len(),
    ensures
        total_tests(qs.take(i + 1)) == total_tests(qs.take(i)) + qs[i].spec_rps().len(),
{
    assert(qs.take(i + 1).drop_last() =~= qs.take(i));
    assert(qs.take(i + 1).last() == qs[i]);
}

/// A prefix never counts more runs than the whole.
proof fn lemma_total_tests_prefix(qs: Seq<Query>, i: int)
    requires
        0 <= i <= qs.len(),
    ensures
        total_tests(qs.take(i)) <= total_tests(qs),
    decreases qs.len() - i,
{
    if i == qs.len() {
        assert(qs.take(i) =~= qs);
    } else {
        lemma_total_tests_step(qs, i);
        lemma_total_tests_prefix(qs, i + 1);
    }
}

/// The flat run plan: every query paired with each of its rates, queries in
/// order, each query's rates in order.  The first element of a pair is the
/// query's index.
pub open spec fn runs_spec(qs: Seq<Query>) -> Seq<(usize, u64)>
    decreases qs.len(),
{
    if qs.len() == 0 {
        Seq::<(usize, u64)>::empty()
    } else {
        runs_spec(qs.drop_last()) + Seq::new(
            qs.last().spec_rps().len(),
            |j: int| ((qs.len() - 1) as usize, qs.last().spec_rps()[j]),
        )
    }
}

/// A whole test session as loaded from configuration: the queries, the
/// duration of each (query, rate) run in seconds, the session identifier
/// and the metrics endpoint the results are delivered to.
#[derive(Debug)]
pub struct QueryConfig {
    queries: Vec<Query>,
    duration_secs: u64,
    identifier: String,
    elastic_endpoint: String,
}

impl QueryConfig {
    pub closed spec fn spec_queries(&self) -> Seq<Query> {
        self.queries@
    }

    pub closed spec fn spec_duration_secs(&self) -> u64 {
        self.duration_secs
    }

    pub closed spec fn spec_identifier(&self) -> Seq<char> {
        self.identifier@
    }

    pub closed spec fn spec_elastic_endpoint(&self) -> Seq<char> {
        self.elastic_endpoint@
    }

    pub fn new(
        queries: Vec<Query>,
        duration_secs: u64,
        identifier: String,
        elastic_endpoint: String,
    ) -> (c: QueryConfig)
        ensures
            c.spec_queries() == queries@,
            c.spec_duration_secs() == duration_secs,
            c.spec_identifier() == identifier@,
            c.spec_elastic_endpoint() == elastic_endpoint@,
    {
        QueryConfig { queries, duration_secs, identifier, elastic_endpoint }
    }

    /// The duration of each run, in seconds.
    pub fn duration(&self) -> (r: u64)
        ensures
            r == self.spec_duration_secs(),
    {
        self.duration_secs
    }

    pub fn elastic_endpoint(&self) -> (r: &str)
        ensures
            r@ == self.spec_elastic_endpoint(),
    {
        self.elastic_endpoint.as_str()
    }

    pub fn query_count(&self) -> (r: usize)
        ensures
            r == self.spec_queries().len(),
    {
        self.queries.len()
    }

    /// The number of (query, rate) runs of the session: the sum over all
    /// queries of how many rates each is run at.
    pub fn test_count(&self) -> (r: usize)
        requires
            total_tests(self.spec_queries()) <= usize::MAX,
        ensures
            r == total_tests(self.spec_queries()),
    {
        let n = self.queries.len();
        let mut acc: usize = 0;
        let mut i: usize = 0;
        proof {
            assert(self.spec_queries().take(0) =~= Seq::<Query>::empty());
        }
        while i < n
            invariant
                i <= n,
                n == self.spec_queries().len(),
                total_tests(self.spec_queries()) <= usize::MAX,
                acc == total_tests(self.spec_queries().take(i as int)),
            decreases n - i,
        {
            proof {
                lemma_total_tests_step(self.spec_queries(), i as int);
                lemma_total_tests_prefix(self.spec_queries(), i as int + 1);
            }
            acc = acc + self.queries[i].rps().len();
            i += 1;
        }
        proof {
            assert(self.spec_queries().take(n as int) =~= self.spec_queries());
        }
        acc
    }

    pub fn queries(&self) -> (r: &Vec<Query>)
        ensures
            r@ == self.spec_queries(),
    {
        &self.queries
    }

    /// The flat run plan: each query's index paired with each of its rates,
    /// in configuration order.  The session executes these one after the
    /// other.
    pub fn runs(&self) -> (r: Vec<(usize, u64)>)
        ensures
            r@ == runs_spec(self.spec_queries()),
    {
        let mut out: Vec<(usize, u64)> = Vec::new();
        let n = self.queries.len();
        let mut i: usize = 0;
        proof {
            assert(self.spec_queries().take(0) =~= Seq::<Query>::empty());
            assert(runs_spec(self.spec_queries().take(0)) =~= Seq::<(usize, u64)>::empty());
        }
        while i < n
            invariant
                i <= n,
                n == self.spec_queries().len(),
                out@ == runs_spec(self.spec_queries().take(i as int)),
            decreases n - i,
        {
            let rates = self.queries[i].rps();
            let m = rates.len();
            let mut j: usize = 0;
            while j < m
                invariant
                    j <= m,
                    i < n,
                    n == self.spec_queries().len(),
                    m == self.spec_queries()[i as int].spec_rps().len(),
                    rates@ == self.spec_queries()[i as int].spec_rps(),
                    out@ == runs_spec(self.spec_queries().take(i as int)) + Seq::new(
                        j as nat,
                        |t: int| (i, self.spec_queries()[i as int].spec_rps()[t]),
                    ),
                decreases m - j,
            {
                out.push((i, rates[j]));
                proof {
                    assert(Seq::new(
                        j as nat + 1,
                        |t: int| (i, self.spec_queries()[i as int].spec_rps()[t]),
                    ) =~= Seq::new(
                        j as nat,
                        |t: int| (i, self.spec_queries()[i as int].spec_rps()[t]),
                    ).push((i, self.spec_queries()[i as int].spec_rps()[j as int])));
                }
                j += 1;
            }
            proof {
                let qs = self.spec_queries();
                assert(qs.take(i as int + 1).drop_last() =~= qs.take(i as int));
                assert(qs.take(i as int + 1).last() == qs[i as int]);
                assert(Seq::new(
                    m as nat,
                    |t: int| (i, self.spec_queries()[i as int].spec_rps()[t]),
                ) =~= Seq::new(
                    qs.take(i as int + 1).last().spec_rps().len(),
                    |t: int|
                        (
                            (qs.take(i as int + 1).len() - 1) as usize,
                            qs.take(i as int + 1).last().spec_rps()[t],
                        ),
                ));
            }
            i += 1;
        }
        proof {
            assert(self.spec_queries().take(n as int) =~= self.spec_queries());
        }
        out
    }
}

/// The session estimate printed before the runs start: the total seconds of
/// all runs, split into whole hours and leftover minutes.
pub fn session_estimate(duration_secs: u64, tests: u64) -> (r: (u64, u64))
    requires
        duration_secs * tests <= u64::MAX,
    ensures
        r.0 == duration_secs * tests / 3600,
        r.1 == duration_secs * tests / 60 - (duration_secs * tests / 3600) * 60,
{
    let total = duration_secs * tests;
    let hours = total / 3600;
    let minutes_total = total / 60;
    proof {
        lemma_div_denominator(total as int, 60, 60);
        lemma_fundamental_div_mod(minutes_total as int, 60);
        lemma_div_is_ordered(total as int, 0xffffffffffffffffu64 as int, 3600);
    }
    let minutes = minutes_total - hours * 60;
    (hours, minutes)
}

} // verus!

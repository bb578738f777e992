use chihiro::config::{
    build_query, fast_rates, medium_rates, rates_for_name, session_estimate, slow_rates,
    very_fast_rates, very_slow_rates, Query, QueryConfig, QueryVariable, RatesConfig, SingleQuery,
};
use chihiro::requester::{batch_payload, single_payload};
use chihiro::text::{parse_name, u64_to_string};

fn no_overrides() -> RatesConfig {
    RatesConfig { very_slow: None, slow: None, medium: None, fast: None, very_fast: None }
}

fn sample_query(template: &str) -> SingleQuery {
    SingleQuery::new(
        String::from("sample"),
        String::from(template),
        vec![10, 20],
        vec![(String::from("x"), QueryVariable { minimum: 1, maximum: 5 })],
    )
}

#[test]
fn materialized_values_stay_in_range() {
    let q = sample_query("query { thing(id: $x) }");
    for _ in 0..50 {
        let out = q.query();
        assert!(!out.contains("$x"));
        let allowed = (1..5).map(|v| format!("query {{ thing(id: {}) }}", v));
        assert!(allowed.into_iter().any(|expected| expected == out));
    }
}

#[test]
fn materialization_replaces_every_occurrence() {
    let q = SingleQuery::new(
        String::from("sample"),
        String::from("$x and $x and $x"),
        vec![10],
        vec![(String::from("x"), QueryVariable { minimum: 3, maximum: 4 })],
    );
    assert_eq!(q.query(), "3 and 3 and 3");
}

#[test]
fn batch_materializes_exactly_batch_strings() {
    let q = sample_query("query { thing(id: $x) }");
    let batch = q.materialize_batch(3);
    assert_eq!(batch.len(), 3);
    for out in &batch {
        assert!(!out.contains("$x"));
    }
}

#[test]
fn single_payload_escapes_and_trims() {
    assert_eq!(
        single_payload("query { a }"),
        "{\"query\":\"query { a }\",\"variables\":{}}"
    );
    assert_eq!(
        single_payload("  query { a }\n"),
        "{\"query\":\"query { a }\",\"variables\":{}}"
    );
    assert_eq!(
        single_payload("say \"hi\""),
        "{\"query\":\"say \\\"hi\\\"\",\"variables\":{}}"
    );
}

#[test]
fn batch_payload_carries_each_query_in_order() {
    let queries = vec![String::from("query { a }"), String::from("query { b }")];
    assert_eq!(
        batch_payload(&queries),
        "{\"batch\":[{\"query\":\"query { a }\",\"variables\":{}},{\"query\":\"query { b }\",\"variables\":{}}]}"
    );
    assert_eq!(batch_payload(&Vec::new()), "{\"batch\":[]}");
}

#[test]
fn parse_name_takes_the_file_stem() {
    assert_eq!(parse_name("queries/prisma/very-slow-1.graphql"), "very-slow-1");
    assert_eq!(parse_name("medium_2.json"), "medium_2");
    assert_eq!(parse_name("dir/noext"), "noext");
    assert_eq!(parse_name("dir/.hidden"), ".hidden");
    assert_eq!(parse_name("a/b/c.tar.gz"), "c.tar");
}

#[test]
fn rate_plans_follow_the_speed_keyword() {
    let rates = no_overrides();
    assert_eq!(rates_for_name("very-slow-1", &rates), very_slow_rates());
    assert_eq!(rates_for_name("slow-join", &rates), slow_rates());
    assert_eq!(rates_for_name("some-medium-query", &rates), medium_rates());
    assert_eq!(rates_for_name("very-fast-scan", &rates), very_fast_rates());
    assert_eq!(rates_for_name("fast-scan", &rates), fast_rates());
    assert_eq!(very_slow_rates(), vec![25, 50, 75, 100, 125, 150, 175, 200, 225, 250]);
}

#[test]
fn configured_rates_override_the_plan() {
    let rates = RatesConfig { slow: Some(vec![1, 2, 3]), ..no_overrides() };
    assert_eq!(rates_for_name("slow-join", &rates), vec![1, 2, 3]);
    assert_eq!(rates_for_name("fast-scan", &rates), fast_rates());
}

#[test]
fn build_query_wraps_batches() {
    let rates = no_overrides();
    let q = build_query(
        "queries/slow-1.graphql",
        String::from("query { a }"),
        Vec::new(),
        Some(3),
        &rates,
    );
    assert_eq!(q.name(), "slow-1");
    assert!(matches!(q, Query::Batch { batch: 3, .. }));
    let q = build_query(
        "queries/slow-1.graphql",
        String::from("query { a }"),
        Vec::new(),
        None,
        &rates,
    );
    assert!(matches!(q, Query::Single(_)));
    assert_eq!(q.rps(), &slow_rates());
}

#[test]
fn query_config_counts_queries_and_tests() {
    let rates = no_overrides();
    let q1 = build_query("a/slow-a.graphql", String::from("query { a }"), Vec::new(), None, &rates);
    let q2 = build_query("a/fast-b.graphql", String::from("query { b }"), Vec::new(), None, &rates);
    let config = QueryConfig::new(
        vec![q1, q2],
        60,
        String::from("bench"),
        String::from("http://elastic.example"),
    );
    assert_eq!(config.query_count(), 2);
    assert_eq!(config.test_count(), slow_rates().len() + fast_rates().len());
    assert_eq!(config.duration(), 60);
    assert_eq!(config.elastic_endpoint(), "http://elastic.example");
    let runs = config.runs();
    assert_eq!(runs.len(), config.test_count());
    assert_eq!(runs[0], (0, 50));
    assert_eq!(runs[slow_rates().len()], (1, 200));
}

#[test]
fn session_estimate_splits_hours_and_minutes() {
    assert_eq!(session_estimate(60, 120), (2, 0));
    assert_eq!(session_estimate(10, 7), (0, 1));
    assert_eq!(session_estimate(300, 13), (1, 5));
}

#[test]
fn kibana_panel_expands_both_tokens() {
    let template = "{\"title\": \"@@query_name\", \"id\": \"@@uuid\", \"q\": \"@@query_name\"}";
    assert_eq!(
        chihiro::kibana::kibana_panel(template, "slow-1", "0000-1111"),
        "{\"title\": \"slow-1\", \"id\": \"0000-1111\", \"q\": \"slow-1\"}"
    );
}

#[test]
fn longest_query_gives_the_column_width() {
    let names = vec![
        String::from("slow-1"),
        String::from("very-slow-join"),
        String::from("fast"),
    ];
    assert_eq!(chihiro::connector::longest_query(&names), 14);
    assert_eq!(chihiro::connector::longest_query(&vec![String::from("a")]), 1);
}

#[test]
fn u64_to_string_renders_decimal() {
    assert_eq!(u64_to_string(0), "0");
    assert_eq!(u64_to_string(7), "7");
    assert_eq!(u64_to_string(105), "105");
    assert_eq!(u64_to_string(u64::MAX), "18446744073709551615");
}

use chihiro::connector::ConnectorType;
use chihiro::error::Error;
use chihiro::requester::{
    apply_outcome, current_rate, planned_requests, validate_all, validate_response, Dispatcher,
    EndpointType, RequestOutcome, TickAction, ValidationCheck,
};
use chihiro::sink::Sink;

#[test]
fn planned_requests_matches_rate_times_duration() {
    assert_eq!(planned_requests(10, 1_000_000_000), 10);
    assert_eq!(planned_requests(5, 2_000_000_000), 10);
    assert_eq!(planned_requests(1000, 1_000_000_000), 1000);
    // A rate that does not divide one second rounds at the tick boundary.
    assert_eq!(planned_requests(3, 1_000_000_000), 4);
    // A duration shorter than one tick interval dispatches nothing at all.
    assert_eq!(planned_requests(1, 1_000), 0);
    assert_eq!(planned_requests(1, 999_999_999), 0);
    assert_eq!(planned_requests(10, 0), 0);
}

#[test]
fn current_rate_scales_to_one_second() {
    assert_eq!(current_rate(5, 0), 0);
    assert_eq!(current_rate(5, 1_000_000_000), 5);
    assert_eq!(current_rate(100, 500_000_000), 200);
}

fn drive_run(rate: u64, duration_ns: u64, status: u16) -> (u64, Vec<String>, Sink) {
    let mut dispatcher = Dispatcher::new(rate, duration_ns);
    let mut sink = Sink::new();
    dispatcher.start();
    let interval = 1_000_000_000 / rate;
    let mut elapsed: u64 = 0;
    let mut sent: u64 = 0;
    loop {
        match dispatcher.on_tick(elapsed) {
            TickAction::Dispatch => {
                sent += 1;
                if let Some(desc) = apply_outcome(&mut sink, 1000, &RequestOutcome::Status(status))
                {
                    dispatcher.record_error(desc);
                }
                elapsed += interval;
            }
            TickAction::BeginDrain => break,
        }
    }
    let errors = dispatcher.finish();
    (sent, errors, sink)
}

#[test]
fn scenario_all_successes() {
    // rate=10, duration 1s, server always returns 200.
    let (sent, errors, mut sink) = drive_run(10, 1_000_000_000, 200);
    assert_eq!(sent, 10);
    assert!(errors.is_empty());
    let snap = sink.drain();
    assert_eq!(snap.successes, 10);
    assert_eq!(snap.failures, 0);
}

#[test]
fn scenario_all_server_errors() {
    // rate=5, duration 2s, server always returns 500.
    let (sent, errors, mut sink) = drive_run(5, 2_000_000_000, 500);
    assert_eq!(sent, 10);
    let snap = sink.drain();
    assert_eq!(snap.successes, 0);
    assert_eq!(snap.failures, 10);
    assert_eq!(errors, vec![String::from("500")]);
}

#[test]
fn sub_interval_run_dispatches_nothing() {
    // rate=5 means a 200ms tick interval; a 100ms run completes
    // immediately with empty metrics.
    let (sent, errors, mut sink) = drive_run(5, 100_000_000, 200);
    assert_eq!(sent, 0);
    assert!(errors.is_empty());
    let snap = sink.drain();
    assert_eq!(snap.successes, 0);
    assert_eq!(snap.failures, 0);
    assert_eq!(snap.p50, 0);
}

#[test]
fn dispatched_count_tracks_the_plan() {
    for (rate, duration) in [(10u64, 1_000_000_000u64), (7, 3_000_000_000), (250, 400_000_000)] {
        let (sent, _, _) = drive_run(rate, duration, 200);
        assert_eq!(sent, planned_requests(rate, duration));
    }
}

#[test]
fn error_descriptions_are_deduplicated() {
    let mut dispatcher = Dispatcher::new(1, 0);
    dispatcher.record_error(String::from("500"));
    dispatcher.record_error(String::from("connection refused"));
    dispatcher.record_error(String::from("500"));
    dispatcher.start();
    match dispatcher.on_tick(0) {
        TickAction::BeginDrain => {}
        TickAction::Dispatch => panic!("a zero duration run dispatches nothing"),
    }
    let errors = dispatcher.finish();
    assert_eq!(
        errors,
        vec![String::from("500"), String::from("connection refused")]
    );
}

fn check(name: &str, status: u16, has_errors_field: bool) -> ValidationCheck {
    ValidationCheck {
        name: String::from(name),
        status,
        has_errors_field,
        body: String::from("{}"),
    }
}

#[test]
fn validation_passes_clean_responses() {
    let checks = vec![check("a", 200, false), check("b", 204, false)];
    assert!(validate_all(&checks).is_ok());
}

#[test]
fn validation_aborts_on_the_first_offender() {
    // The second query reports errors; the third is bad too, but the pass
    // stops at the second.
    let checks = vec![check("a", 200, false), check("b", 200, true), check("c", 500, false)];
    match validate_all(&checks) {
        Err(Error::InvalidQuery { query, .. }) => assert_eq!(query, "b"),
        _ => panic!("expected the validation error for query b"),
    }
}

#[test]
fn validation_reports_bad_statuses() {
    let checks = vec![check("a", 503, false)];
    match validate_all(&checks) {
        Err(Error::InvalidQuery { query, error }) => {
            assert_eq!(query, "a");
            assert_eq!(error, "503");
        }
        _ => panic!("expected the validation error for query a"),
    }
}

#[test]
fn validate_response_inspects_the_body() {
    let ok_body = b"{\"data\":{\"x\":1}}".to_vec();
    assert!(validate_response("a", 200, &ok_body).is_ok());

    let err_body = b"{\"errors\":[{\"message\":\"boom\"}]}".to_vec();
    match validate_response("a", 200, &err_body) {
        Err(Error::InvalidQuery { query, error }) => {
            assert_eq!(query, "a");
            assert!(error.contains("boom"));
        }
        _ => panic!("expected the errors field to fail validation"),
    }

    let null_errors = b"{\"errors\":null}".to_vec();
    assert!(validate_response("a", 200, &null_errors).is_ok());

    match validate_response("a", 500, &ok_body) {
        Err(Error::InvalidQuery { query, error }) => {
            assert_eq!(query, "a");
            assert_eq!(error, "500");
        }
        _ => panic!("expected the status to fail validation"),
    }

    let not_json = b"<html>".to_vec();
    assert!(matches!(
        validate_response("a", 200, &not_json),
        Err(Error::Serialization(_))
    ));
}

#[test]
fn errors_report_their_text() {
    let e = Error::InvalidQuery { query: String::from("slow-1"), error: String::from("500") };
    assert_eq!(e.message(), "Query slow-1 returned an error: 500");
    let e = Error::InvalidEndpointType(String::from("graphcool"));
    assert_eq!(e.message(), "Endpoint type 'graphcool' is not supported");
    let e = Error::InvalidDatabaseType(String::from("mssql"));
    assert_eq!(e.message(), "Database type 'mssql' is not supported");
    let e = Error::Serialization(String::from("bad json"));
    assert_eq!(e.message(), "Serialization error: bad json");
}

#[test]
fn endpoint_types_parse_by_name() {
    assert!(matches!(EndpointType::from_str("prisma"), Ok(EndpointType::Prisma)));
    assert!(matches!(EndpointType::from_str("hasura"), Ok(EndpointType::Hasura)));
    assert!(matches!(EndpointType::from_str("photon"), Ok(EndpointType::Photon)));
    match EndpointType::from_str("graphcool") {
        Err(Error::InvalidEndpointType(t)) => assert_eq!(t, "graphcool"),
        _ => panic!("expected an unknown endpoint type to be refused"),
    }
    assert_eq!(EndpointType::default(), EndpointType::Prisma);
}

#[test]
fn connector_types_parse_by_name() {
    assert!(matches!(ConnectorType::from_str("postgres"), Ok(ConnectorType::Postgres)));
    assert!(matches!(ConnectorType::from_str("postgresql"), Ok(ConnectorType::Postgres)));
    assert!(matches!(ConnectorType::from_str("mysql"), Ok(ConnectorType::Mysql)));
    match ConnectorType::from_str("mssql") {
        Err(Error::InvalidDatabaseType(t)) => assert_eq!(t, "mssql"),
        _ => panic!("expected an unknown connector to be refused"),
    }
    assert_eq!(ConnectorType::Postgres.as_str(), "postgres");
    assert_eq!(ConnectorType::Mysql.as_str(), "mysql");
}

#[test]
fn hasura_identity_is_synthesized() {
    let info = chihiro::requester::hasura_server_info();
    assert_eq!(info.commit, "hasura-1.0.0");
    assert_eq!(info.version, "1.0.0");
    assert_eq!(info.primary_connector, "postgres");
}

#[test]
fn structured_record_carries_the_window() {
    let info = chihiro::requester::ServerInfo {
        commit: String::from("abc123"),
        version: String::from("2.0"),
        primary_connector: String::from("postgres"),
    };
    let observer = chihiro::json_observer::JsonObserver::new(info, "slow-1", 100);
    let mut sink = Sink::new();
    apply_outcome(&mut sink, 777, &RequestOutcome::Status(200));
    let record = observer.drain(&mut sink);
    assert_eq!(record.commit(), "abc123");
    assert_eq!(record.version(), "2.0");
    assert_eq!(record.connector(), "postgres");
    assert_eq!(record.query_name(), "slow-1");
    assert_eq!(record.rps(), 100);
    assert_eq!(record.successes(), 1);
    assert_eq!(record.failures(), 0);
    assert_eq!(record.p50(), 777);
    assert_eq!(record.p95(), 777);
    assert_eq!(record.p99(), 777);
    assert!(record.time().len() >= 25);
    assert!(record.time().ends_with("+00:00"));
    assert!(record.time().contains('T'));
    // The drain was destructive: a second record sees an empty window.
    let second = observer.drain(&mut sink);
    assert_eq!(second.successes(), 0);
    assert_eq!(second.p50(), 0);
}

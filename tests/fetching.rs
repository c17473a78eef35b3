use release_watch::fetch::{attempt_from, digit_runs_fit, read_response, Attempt, NameField, MAX_DIGIT_RUN, FetchError, FetchStep, Response, VersionFetcher, MAX_ATTEMPTS};

fn body(text: &str) -> Response {
    Response::Body(text.to_string())
}

#[test]
fn reads_and_trims_the_name_member() {
    assert_eq!(
        read_response(body("{\"name\": \"  1.39.1 \\n\", \"id\": 7}")),
        Attempt::Found("1.39.1".to_string())
    );
    assert_eq!(read_response(body("{\"name\": \"1.39.0\"}")), Attempt::Found("1.39.0".to_string()));
}

#[test]
fn missing_or_non_string_name_is_soft() {
    assert_eq!(read_response(body("{}")), Attempt::Soft);
    assert_eq!(read_response(body("{\"tag\": \"1.2.3\"}")), Attempt::Soft);
    assert_eq!(read_response(body("{\"name\": 5}")), Attempt::Soft);
    assert_eq!(read_response(body("[1, 2]")), Attempt::Soft);
}

#[test]
fn transport_and_parse_failures_are_hard() {
    assert_eq!(read_response(body("not json")), Attempt::Hard(FetchError::NotJson));
    assert_eq!(read_response(body("")), Attempt::Hard(FetchError::NotJson));
    assert_eq!(read_response(Response::SendFailed), Attempt::Hard(FetchError::SendFailed));
    assert_eq!(read_response(Response::BodyNotText), Attempt::Hard(FetchError::BodyNotText));
}

#[test]
fn three_soft_failures_then_success() {
    let mut f = VersionFetcher::new();
    let mut retries = 0;
    for _ in 0..3 {
        assert_eq!(f.record(Attempt::Soft), FetchStep::Retry);
        retries += 1;
    }
    assert_eq!(
        f.record(Attempt::Found("1.39.1".to_string())),
        FetchStep::Finished(Ok("1.39.1".to_string()))
    );
    assert_eq!(retries, 3);
    assert_eq!(f.soft_failures, 3);
}

#[test]
fn ten_soft_failures_give_no_version_found() {
    assert_eq!(MAX_ATTEMPTS, 10);
    let mut f = VersionFetcher::new();
    for _ in 0..9 {
        assert_eq!(f.record(Attempt::Soft), FetchStep::Retry);
    }
    assert_eq!(f.record(Attempt::Soft), FetchStep::Finished(Err(FetchError::NoVersionFound)));
    assert_eq!(f.record(Attempt::Soft), FetchStep::Finished(Err(FetchError::NoVersionFound)));
    assert_eq!(
        f.record(Attempt::Found("1.0.0".to_string())),
        FetchStep::Finished(Err(FetchError::NoVersionFound))
    );
}

#[test]
fn hard_failure_aborts_at_once() {
    let mut f = VersionFetcher::new();
    assert_eq!(
        f.record(read_response(body("{oops"))),
        FetchStep::Finished(Err(FetchError::NotJson))
    );
    assert_eq!(f.soft_failures, 0);
    let mut g = VersionFetcher::new();
    assert_eq!(g.record(Attempt::Soft), FetchStep::Retry);
    assert_eq!(g.record(Attempt::Hard(FetchError::SendFailed)), FetchStep::Finished(Err(FetchError::SendFailed)));
    assert_eq!(g.soft_failures, 1);
}

#[test]
fn name_field_classified() {
    assert_eq!(attempt_from(NameField::NotJson), Attempt::Hard(FetchError::NotJson));
    assert_eq!(attempt_from(NameField::Missing), Attempt::Soft);
    assert_eq!(
        attempt_from(NameField::Name("\t1.2.3 ".to_string())),
        Attempt::Found("1.2.3".to_string())
    );
    assert_eq!(attempt_from(NameField::Name("   ".to_string())), Attempt::Found(String::new()));
}

#[test]
fn digit_runs_counted() {
    assert_eq!(MAX_DIGIT_RUN, 32768);
    assert!(digit_runs_fit(""));
    assert!(digit_runs_fit("{\"name\": \"1.39.1\"}"));
    assert!(digit_runs_fit(&"7".repeat(MAX_DIGIT_RUN)));
    assert!(!digit_runs_fit(&"7".repeat(MAX_DIGIT_RUN + 1)));
    let split = format!("{}.{}", "1".repeat(MAX_DIGIT_RUN), "2".repeat(MAX_DIGIT_RUN));
    assert!(digit_runs_fit(&split));
    assert!(!digit_runs_fit(&format!("a{}b", "\u{661}".repeat(3) + &"0".repeat(MAX_DIGIT_RUN + 1))));
}

#[test]
fn longest_fraction_still_parsed() {
    let text = format!("{{\"n\": 0.{}, \"name\": \"1.39.1\"}}", "0".repeat(MAX_DIGIT_RUN));
    assert_eq!(read_response(body(&text)), Attempt::Found("1.39.1".to_string()));
}

#[test]
fn overlong_fraction_refused_before_parsing() {
    let text = format!("{{\"n\": 0.{}, \"name\": \"1.39.1\"}}", "0".repeat(MAX_DIGIT_RUN + 1));
    assert_eq!(read_response(body(&text)), Attempt::Hard(FetchError::DigitRunTooLong));
    let mut f = VersionFetcher::new();
    assert_eq!(
        f.record(read_response(body(&text))),
        FetchStep::Finished(Err(FetchError::DigitRunTooLong))
    );
}

use deucalion::poller::{PollerError, ProviderError};

fn unknown(message: &str) -> ProviderError {
    ProviderError::Unknown(message.to_string())
}

#[test]
fn dry_run_marker_classifies_as_no_error() {
    let e = unknown("Request would have succeeded, but DryRunOperation flag is set.");
    assert_eq!(PollerError::classify(e, "DescribeInstances"), PollerError::NoError);
}

#[test]
fn authorization_denial_classifies_as_insufficient_permissions() {
    let e = unknown("<Code>UnauthorizedOperation</Code> You are not authorized");
    assert_eq!(
        PollerError::classify(e, "DescribeInstances"),
        PollerError::InsufficientPermissions("DescribeInstances".to_string())
    );
}

#[test]
fn insufficient_permissions_carries_the_operation_it_was_given() {
    let e = unknown("UnauthorizedOperation");
    assert_eq!(
        PollerError::classify(e, "DescribeSpotPriceHistory"),
        PollerError::InsufficientPermissions("DescribeSpotPriceHistory".to_string())
    );
}

#[test]
fn authentication_failure_classifies_as_invalid_credentials() {
    let message = "AuthFailure: AWS was not able to validate the provided access credentials";
    assert_eq!(
        PollerError::classify(unknown(message), "DescribeInstances"),
        PollerError::InvalidCredentials(message.to_string())
    );
}

#[test]
fn any_other_message_classifies_as_unknown_error() {
    let message = "RequestLimitExceeded";
    assert_eq!(
        PollerError::classify(unknown(message), "DescribeInstances"),
        PollerError::UnknownError(message.to_string())
    );
    assert_eq!(
        PollerError::classify(unknown(""), "DescribeInstances"),
        PollerError::UnknownError(String::new())
    );
}

#[test]
fn markers_are_looked_for_in_priority_order() {
    let all = unknown("AuthFailure UnauthorizedOperation DryRunOperation");
    assert_eq!(PollerError::classify(all, "DescribeInstances"), PollerError::NoError);
    let two = unknown("AuthFailure UnauthorizedOperation");
    assert_eq!(
        PollerError::classify(two, "DescribeInstances"),
        PollerError::InsufficientPermissions("DescribeInstances".to_string())
    );
}

#[test]
fn markers_are_case_sensitive() {
    let e = unknown("dryrunoperation");
    assert_eq!(
        PollerError::classify(e, "DescribeInstances"),
        PollerError::UnknownError("dryrunoperation".to_string())
    );
}

#[test]
fn dispatch_failure_classifies_as_network_error() {
    let e = ProviderError::HttpDispatch("connection refused".to_string());
    assert_eq!(
        PollerError::classify(e, "DescribeInstances"),
        PollerError::NetworkError("connection refused".to_string())
    );
}

#[test]
fn dispatch_failure_is_not_searched_for_markers() {
    let e = ProviderError::HttpDispatch("DryRunOperation".to_string());
    assert_eq!(
        PollerError::classify(e, "DescribeInstances"),
        PollerError::NetworkError("DryRunOperation".to_string())
    );
}

#[test]
fn credentials_failure_classifies_as_invalid_credentials() {
    let e = ProviderError::Credentials("no credentials in environment".to_string());
    assert_eq!(
        PollerError::classify(e, "DescribeInstances"),
        PollerError::InvalidCredentials("no credentials in environment".to_string())
    );
}

#[test]
fn validation_failure_classifies_as_invalid_credentials() {
    let e = ProviderError::Validation("bad signature".to_string());
    assert_eq!(
        PollerError::classify(e, "DescribeInstances"),
        PollerError::InvalidCredentials("bad signature".to_string())
    );
}

#[test]
fn no_error_is_never_surfaced() {
    assert_eq!(PollerError::NoError.surfaced(), None);
    assert_eq!(
        PollerError::BadRegion("mars-1".to_string()).surfaced(),
        Some(PollerError::BadRegion("mars-1".to_string()))
    );
    assert_eq!(
        PollerError::UnknownError("x".to_string()).surfaced(),
        Some(PollerError::UnknownError("x".to_string()))
    );
}

#[test]
fn probe_passes_a_call_that_went_through() {
    assert_eq!(PollerError::probe(Ok(()), "DescribeInstances"), None);
}

#[test]
fn probe_passes_the_dry_run_confirmation() {
    let outcome = Err(unknown("DryRunOperation: Request would have succeeded"));
    assert_eq!(PollerError::probe(outcome, "DescribeInstances"), None);
}

#[test]
fn probe_reports_every_other_failure() {
    assert_eq!(
        PollerError::probe(Err(unknown("UnauthorizedOperation")), "DescribeInstances"),
        Some(PollerError::InsufficientPermissions("DescribeInstances".to_string()))
    );
    assert_eq!(
        PollerError::probe(Err(ProviderError::HttpDispatch("down".to_string())), "DescribeInstances"),
        Some(PollerError::NetworkError("down".to_string()))
    );
    assert_eq!(
        PollerError::probe(Err(unknown("whatever")), "DescribeInstances"),
        Some(PollerError::UnknownError("whatever".to_string()))
    );
}

#[test]
fn description_is_the_text_of_the_error() {
    assert_eq!(PollerError::InvalidCredentials("a".to_string()).description(), "a");
    assert_eq!(PollerError::InsufficientPermissions("b".to_string()).description(), "b");
    assert_eq!(PollerError::BadRegion("c".to_string()).description(), "c");
    assert_eq!(PollerError::NetworkError("d".to_string()).description(), "d");
    assert_eq!(PollerError::UnknownError("e".to_string()).description(), "e");
    assert_eq!(PollerError::NoError.description(), "No error");
}

fn is_dry_run(message: &str) -> bool {
    PollerError::classify(unknown(message), "DescribeInstances") == PollerError::NoError
}

#[test]
fn a_marker_is_found_anywhere_in_the_message() {
    assert!(is_dry_run("DryRunOperation"));
    assert!(is_dry_run("DryRunOperation and more"));
    assert!(is_dry_run("more and DryRunOperation"));
    assert!(is_dry_run("xDryRunOperationx"));
    assert!(is_dry_run("pr\u{e9}fix DryRunOperation"));
    assert!(is_dry_run("DryRunDryRunOperation"));
    assert!(!is_dry_run("DryRunOperatio"));
    assert!(!is_dry_run("DryRun Operation"));
    assert!(!is_dry_run("ryRunOperation"));
    assert!(!is_dry_run(""));
}

fn ok() -> Result<(), String> {
    Ok(())
}

fn failed(description: &str) -> Result<(), String> {
    Err(description.to_string())
}

fn went_through() -> Result<(), ProviderError> {
    Ok(())
}

#[test]
fn a_poller_starts_when_every_check_passed() {
    let started = PollerError::start_up(ok(), ok(), Ok(7), ok(), went_through(), "DescribeInstances");
    assert_eq!(started, Ok(7));
}

#[test]
fn a_poller_starts_on_the_dry_run_confirmation() {
    let dry_run = Err(unknown("DryRunOperation: Request would have succeeded"));
    let started = PollerError::start_up(ok(), ok(), Ok(7), ok(), dry_run, "DescribeInstances");
    assert_eq!(started, Ok(7));
}

#[test]
fn a_strategy_failure_is_invalid_credentials() {
    let started =
        PollerError::start_up(failed("bad profile"), ok(), Ok(7), ok(), went_through(), "Op");
    assert_eq!(started, Err(PollerError::InvalidCredentials("bad profile".to_string())));
}

#[test]
fn a_region_failure_is_a_bad_region() {
    let started = PollerError::start_up(ok(), failed("mars-1"), Ok(7), ok(), went_through(), "Op");
    assert_eq!(started, Err(PollerError::BadRegion("mars-1".to_string())));
}

#[test]
fn a_family_failure_is_the_error_it_came_with() {
    let family: Result<u8, PollerError> = Err(PollerError::UnknownError("bad label".to_string()));
    let started = PollerError::start_up(ok(), ok(), family, ok(), went_through(), "Op");
    assert_eq!(started, Err(PollerError::UnknownError("bad label".to_string())));
}

#[test]
fn a_credentials_failure_is_invalid_credentials() {
    let started =
        PollerError::start_up(ok(), ok(), Ok(7), failed("expired"), went_through(), "Op");
    assert_eq!(started, Err(PollerError::InvalidCredentials("expired".to_string())));
}

#[test]
fn a_probe_failure_has_the_class_of_its_error() {
    let dry_run = Err(unknown("UnauthorizedOperation"));
    let started = PollerError::start_up(ok(), ok(), Ok(7), ok(), dry_run, "DescribeInstances");
    assert_eq!(
        started,
        Err(PollerError::InsufficientPermissions("DescribeInstances".to_string()))
    );
    let dry_run = Err(ProviderError::HttpDispatch("down".to_string()));
    let started = PollerError::start_up(ok(), ok(), Ok(7), ok(), dry_run, "DescribeInstances");
    assert_eq!(started, Err(PollerError::NetworkError("down".to_string())));
}

#[test]
fn the_first_failed_check_decides() {
    let family: Result<u8, PollerError> = Err(PollerError::UnknownError("bad label".to_string()));
    let dry_run = Err(unknown("UnauthorizedOperation"));
    let all = PollerError::start_up(
        failed("bad profile"),
        failed("mars-1"),
        family.clone(),
        failed("expired"),
        dry_run.clone(),
        "Op",
    );
    assert_eq!(all, Err(PollerError::InvalidCredentials("bad profile".to_string())));
    let from_region = PollerError::start_up(
        ok(),
        failed("mars-1"),
        family.clone(),
        failed("expired"),
        dry_run.clone(),
        "Op",
    );
    assert_eq!(from_region, Err(PollerError::BadRegion("mars-1".to_string())));
    let from_family =
        PollerError::start_up(ok(), ok(), family, failed("expired"), dry_run.clone(), "Op");
    assert_eq!(from_family, Err(PollerError::UnknownError("bad label".to_string())));
    let from_credentials =
        PollerError::start_up(ok(), ok(), Ok(7), failed("expired"), dry_run, "Op");
    assert_eq!(from_credentials, Err(PollerError::InvalidCredentials("expired".to_string())));
}

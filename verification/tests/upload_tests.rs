use zunnogame::proof_management::{
    IpfsError, IpfsService, IpfsUploadConfig, job_finished, submission_accepted,
};

fn service() -> IpfsService {
    IpfsService::new(IpfsUploadConfig::default())
}

#[test]
fn default_config_is_three_retries_two_seconds() {
    let config = IpfsUploadConfig::default();
    assert_eq!(config.max_retries, 3);
    assert_eq!(config.retry_delay_secs, 2);
}

#[test]
fn two_transient_failures_then_success() {
    let svc = service();
    let outcomes = vec![
        Err(IpfsError::NetworkError(String::from("reset"))),
        Err(IpfsError::UploadFailed(String::from("5xx"))),
        Ok(String::from("bafy-cid")),
        Ok(String::from("unreached")),
    ];
    let (result, attempts) = svc.upload_with_retry(&outcomes);
    // success after exactly 2 retries: 3 attempts in all
    assert_eq!(result, Ok(String::from("bafy-cid")));
    assert_eq!(attempts, 3);
}

#[test]
fn configuration_errors_are_attempted_exactly_once() {
    let svc = service();
    let outcomes = vec![
        Err(IpfsError::ConfigError(String::from("missing credentials"))),
        Ok(String::from("unreached")),
        Ok(String::from("unreached")),
        Ok(String::from("unreached")),
    ];
    let (result, attempts) = svc.upload_with_retry(&outcomes);
    assert_eq!(result, Err(IpfsError::ConfigError(String::from("missing credentials"))));
    assert_eq!(attempts, 1);
}

#[test]
fn exhausted_retries_surface_the_last_error() {
    let svc = service();
    let outcomes = vec![
        Err(IpfsError::RequestFailed(String::from("one"))),
        Err(IpfsError::NetworkError(String::from("two"))),
        Err(IpfsError::UploadFailed(String::from("three"))),
        Err(IpfsError::UploadFailed(String::from("four"))),
        Ok(String::from("unreached")),
    ];
    let (result, attempts) = svc.upload_with_retry(&outcomes);
    assert_eq!(result, Err(IpfsError::UploadFailed(String::from("four"))));
    assert_eq!(attempts, 4);
}

#[test]
fn immediate_success_takes_one_attempt() {
    let svc = service();
    let outcomes = vec![
        Ok(String::from("bafy-first")),
        Ok(String::from("unreached")),
        Ok(String::from("unreached")),
        Ok(String::from("unreached")),
    ];
    let (result, attempts) = svc.upload_with_retry(&outcomes);
    assert_eq!(result, Ok(String::from("bafy-first")));
    assert_eq!(attempts, 1);
}

#[test]
fn should_retry_follows_the_policy() {
    let svc = service();
    let transient = IpfsError::NetworkError(String::from("x"));
    let fatal = IpfsError::ConfigError(String::from("x"));
    assert!(svc.should_retry(&transient, 1));
    assert!(svc.should_retry(&transient, 3));
    assert!(!svc.should_retry(&transient, 4));
    assert!(!svc.should_retry(&fatal, 1));
}

#[test]
fn submission_acceptance_is_the_exact_marker() {
    assert!(submission_accepted(&String::from("success")));
    assert!(!submission_accepted(&String::from("failure")));
    assert!(!submission_accepted(&String::from("Success")));
    assert!(!submission_accepted(&String::from("")));
}

#[test]
fn job_polling_stops_on_final_statuses_only() {
    assert!(job_finished(&String::from("Finalized")));
    assert!(job_finished(&String::from("Aggregated")));
    assert!(job_finished(&String::from("AggregationPending")));
    assert!(!job_finished(&String::from("Pending")));
    assert!(!job_finished(&String::from("Unknown")));
    assert!(!job_finished(&String::from("finalized")));
}

use speedtest_cli::error::SpeedTestError;
use speedtest_cli::speedtest::{select_outcome, Failover, Measurement};

#[test]
fn test_failover_first_success_wins() {
    // The first two endpoints fail with connection errors; the third
    // succeeds.  The result is exactly the third endpoint's own
    // measurement, untouched by the failed attempts.
    let m = Measurement { bytes: 1_048_576, elapsed_ms: 2_000 };
    let outcomes = vec![
        Err(SpeedTestError::NetworkError("connection refused".to_string())),
        Err(SpeedTestError::NetworkError("dns failure".to_string())),
        Ok(m),
    ];
    assert_eq!(select_outcome(outcomes), Ok(m));
}

#[test]
fn test_failover_stops_at_first_success() {
    let first = Measurement { bytes: 10, elapsed_ms: 1 };
    let second = Measurement { bytes: 20, elapsed_ms: 1 };
    let outcomes = vec![Ok(first), Ok(second)];
    assert_eq!(select_outcome(outcomes), Ok(first));
}

#[test]
fn test_failover_all_fail_surfaces_last_error() {
    let outcomes: Vec<Result<Measurement, SpeedTestError>> = vec![
        Err(SpeedTestError::NetworkError("connection refused".to_string())),
        Err(SpeedTestError::TestFailed("Download request failed with status: 503".to_string())),
        Err(SpeedTestError::IoError("stream cut short".to_string())),
    ];
    assert_eq!(
        select_outcome(outcomes),
        Err(SpeedTestError::IoError("stream cut short".to_string()))
    );
}

#[test]
fn test_failover_no_endpoints_is_exhaustion_error() {
    let outcomes: Vec<Result<Measurement, SpeedTestError>> = Vec::new();
    assert_eq!(
        select_outcome(outcomes),
        Err(SpeedTestError::TestFailed("All download servers failed".to_string()))
    );
}

#[test]
fn test_failover_state_keeps_last_error() {
    let mut f = Failover::new();
    assert!(f.last_error.is_none());
    f.record_failure(SpeedTestError::Timeout);
    f.record_failure(SpeedTestError::NetworkError("unreachable".to_string()));
    let e = f.into_error();
    assert_eq!(e, SpeedTestError::NetworkError("unreachable".to_string()));
}

#[test]
fn test_failover_state_without_failures() {
    let f = Failover::new();
    assert_eq!(
        f.into_error(),
        SpeedTestError::TestFailed("All download servers failed".to_string())
    );
}

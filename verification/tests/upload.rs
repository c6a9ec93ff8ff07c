use speedtest_cli::speedtest::{UploadSession, UPLOAD_SIZE_MB};

const PAYLOAD: u64 = UPLOAD_SIZE_MB * 1024 * 1024;

#[test]
fn test_upload_session_starts_fresh() {
    let s = UploadSession::new(1_000, PAYLOAD);
    assert_eq!(s.duration_ms, 1_000);
    assert_eq!(s.payload_bytes, PAYLOAD);
    assert_eq!(s.total_bytes, 0);
    assert_eq!(s.chunks_ok, 0);
}

#[test]
fn test_upload_all_failures_is_zero_not_error() {
    // Every chunk attempt comes back with a non-success status: the
    // measurement still concludes, with zero bytes and so throughput
    // zero; chunk failure is not test failure.
    let mut s = UploadSession::new(1_000, PAYLOAD);
    let mut now: u64 = 0;
    while s.should_continue(now) {
        let reported = s.record_chunk(false, now + 250);
        assert!(!reported);
        now += 250;
    }
    assert_eq!(s.total_bytes, 0);
    assert_eq!(s.chunks_ok, 0);
    let throughput = s.total_bytes as f64 / (now as f64 / 1000.0);
    assert_eq!(throughput, 0.0);
}

#[test]
fn test_upload_reports_once_per_successful_chunk() {
    // No throttling on upload: every successful chunk reports,
    // every failed one does not.
    let mut s = UploadSession::new(10_000, PAYLOAD);
    let pattern = [true, true, false, true, false, true, true];
    let mut reports: u32 = 0;
    let mut successes: u32 = 0;
    let mut now: u64 = 0;
    for &success in pattern.iter() {
        now += 5; // well under the download throttling interval
        if s.record_chunk(success, now) {
            reports += 1;
        }
        if success {
            successes += 1;
        }
    }
    assert_eq!(successes, 5);
    assert_eq!(reports, successes);
    assert_eq!(s.chunks_ok as u32, successes);
}

#[test]
fn test_upload_total_is_multiple_of_payload() {
    // Duration 1 s, payload 5 MiB, endpoint always succeeds: the
    // total uploaded is an integer multiple of the payload size.
    let mut s = UploadSession::new(1_000, PAYLOAD);
    let mut now: u64 = 0;
    while s.should_continue(now) {
        now += 300; // each chunk takes 300 ms
        s.record_chunk(true, now);
    }
    assert_eq!(s.chunks_ok, 4);
    assert_eq!(s.total_bytes, 4 * PAYLOAD);
    assert_eq!(s.total_bytes % PAYLOAD, 0);
    let throughput = s.total_bytes as f64 / (now as f64 / 1000.0);
    assert!(throughput > 0.0);
}

#[test]
fn test_upload_failed_chunk_changes_nothing() {
    let mut s = UploadSession::new(1_000, PAYLOAD);
    s.record_chunk(true, 100);
    let before = s;
    s.record_chunk(false, 200);
    assert_eq!(s, before);
}

use speedtest_cli::speedtest::{DownloadSession, PROGRESS_UPDATE_INTERVAL_MS};

#[test]
fn test_download_session_starts_fresh() {
    let s = DownloadSession::new(2_000);
    assert_eq!(s.duration_ms, 2_000);
    assert_eq!(s.total_bytes, 0);
    assert_eq!(s.last_report_ms, 0);
    assert_eq!(s.requests, 0);
}

#[test]
fn test_download_counts_bytes_across_requests() {
    // Bytes and elapsed time carry over across repeated requests to
    // the same endpoint within one session.
    let mut s = DownloadSession::new(10_000);
    s.begin_request();
    s.record_chunk(1_000, 10);
    s.record_chunk(500, 20);
    // The first stream ends early; a new request accumulates into the
    // same counters.
    assert!(s.should_continue(25));
    s.begin_request();
    s.record_chunk(250, 30);
    assert_eq!(s.total_bytes, 1_750);
    assert_eq!(s.requests, 2);
}

#[test]
fn test_download_report_cadence_throttled() {
    // Chunks arrive every 10 ms; reports may fire at most once per
    // 100 ms of session time.
    let mut s = DownloadSession::new(1_000);
    let mut report_times: Vec<u64> = Vec::new();
    let mut now: u64 = 0;
    while now < 1_000 {
        if s.record_chunk(1_000, now) {
            report_times.push(now);
        }
        now += 10;
    }
    // First report at 100 ms, then one each 100 ms: 100, 200, ..., 900.
    assert_eq!(report_times.len(), 9);
    assert_eq!(report_times[0], PROGRESS_UPDATE_INTERVAL_MS);
    for pair in report_times.windows(2) {
        assert!(pair[1] - pair[0] >= PROGRESS_UPDATE_INTERVAL_MS);
    }
}

#[test]
fn test_download_never_reports_at_time_zero() {
    let mut s = DownloadSession::new(1_000);
    assert!(!s.record_chunk(4_096, 0));
}

#[test]
fn test_download_stops_within_one_chunk_of_duration() {
    // An endpoint that always succeeds instantly: the session keeps
    // consuming until the duration is reached and stops at the first
    // check after it, never earlier.
    let duration: u64 = 2_000;
    let chunk_len: u64 = 1024 * 1024;
    let mut s = DownloadSession::new(duration);
    s.begin_request();
    let mut now: u64 = 0;
    let mut stopped_at: u64 = 0;
    loop {
        if !s.should_continue(now) {
            stopped_at = now;
            break;
        }
        s.record_chunk(chunk_len, now);
        now += 50; // one chunk read takes 50 ms of session time
    }
    // Never stops before the duration, and stops at the very first
    // observation at or past it.
    assert_eq!(stopped_at, 2_000);
    // Chunks recorded at 0, 50, ..., 1950: the transfer measured data
    // the whole window, so the average throughput is positive.
    assert_eq!(s.total_bytes, 40 * chunk_len);
    let throughput = s.total_bytes as f64 / (stopped_at as f64 / 1000.0);
    assert!(throughput > 0.0);
}

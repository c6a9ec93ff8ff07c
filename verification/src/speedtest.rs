//! The throughput-measurement engine.
//!
//! A measurement is a bounded-duration session: a byte counter and a
//! clock, both monotonic, read at well-defined decision points.  The
//! HTTP transfers themselves happen outside this crate; the caller
//! reports each observation (a streamed chunk, a completed or failed
//! upload, a failed endpoint) together with the milliseconds elapsed
//! since the session started, and the machines here decide whether to
//! go on, whether to report progress, and what the final outcome is.

use vstd::prelude::*;
use crate::error::SpeedTestError;

verus! {

/// Minimum session time between two download progress reports.
pub const PROGRESS_UPDATE_INTERVAL_MS: u64 = 100;

/// Size of one synthetic upload payload, in mebibytes.
pub const UPLOAD_SIZE_MB: u64 = 5;

/// Default length of one measurement, in seconds.
pub const DEFAULT_DURATION_SECS: u64 = 30;

/// The accounting state of one bounded-duration download measurement.
///
/// All times are milliseconds elapsed since the session started; the
/// caller reads them from one monotonic clock, so they never decrease
/// from one observation to the next.
#[derive(Debug, Clone, Copy, PartialEq, Eq, Structural)]
pub struct DownloadSession {
    /// Target duration of the measurement.
    pub duration_ms: u64,
    /// Bytes received so far, over all requests of this session.
    pub total_bytes: u64,
    /// Session time of the most recent progress report.
    pub last_report_ms: u64,
    /// How many GET requests this session has started.
    pub requests: u64,
}

/// One streamed chunk, as the session sees it: its length and the
/// session time at which it arrived.
#[derive(Debug, Clone, Copy, PartialEq, Eq, Structural)]
pub struct ChunkEvent {
    pub len: u64,
    pub now_ms: u64,
}

/// What `DownloadSession::record_chunk` does: count the chunk, and
/// report progress when at least `PROGRESS_UPDATE_INTERVAL_MS` of
/// session time has passed since the last report and the elapsed time
/// is positive.  Returns the new state and whether to report.
pub open spec fn spec_record_chunk(s: DownloadSession, len: u64, now_ms: u64) -> (DownloadSession, bool) {
    let report = now_ms >= s.last_report_ms + PROGRESS_UPDATE_INTERVAL_MS && now_ms > 0;
    (
        DownloadSession {
            duration_ms: s.duration_ms,
            total_bytes: (s.total_bytes + len) as u64,
            last_report_ms: if report { now_ms } else { s.last_report_ms },
            requests: s.requests,
        },
        report,
    )
}

impl DownloadSession {
    /// A fresh session: nothing received, no report made yet.
    pub fn new(duration_ms: u64) -> (s: Self)
        ensures
            s == (DownloadSession {
                duration_ms,
                total_bytes: 0,
                last_report_ms: 0,
                requests: 0,
            }),
    {
        DownloadSession { duration_ms, total_bytes: 0, last_report_ms: 0, requests: 0 }
    }

    /// Whether the session still has time left.  The caller checks
    /// this before issuing a request, after each streamed chunk
    /// arrives, and after a stream ends; the only stopping condition
    /// of a measurement is this check turning false.
    pub fn should_continue(&self, now_ms: u64) -> (b: bool)
        ensures
            b == (now_ms < self.duration_ms),
    {
        now_ms < self.duration_ms
    }

    /// Count a request about to be issued.
    pub fn begin_request(&mut self)
        requires
            old(self).requests < u64::MAX,
        ensures
            *final(self) == (DownloadSession { requests: (old(self).requests + 1) as u64, ..*old(self) }),
    {
        self.requests = self.requests + 1;
    }

    /// Count one streamed chunk and decide whether to report
    /// progress.  Returns true when the caller should invoke its
    /// progress callback with the current average throughput.
    pub fn record_chunk(&mut self, len: u64, now_ms: u64) -> (report: bool)
        requires
            old(self).total_bytes + len <= u64::MAX,
        ensures
            (*final(self), report) == spec_record_chunk(*old(self), len, now_ms),
            final(self).total_bytes == old(self).total_bytes + len,
            final(self).last_report_ms >= old(self).last_report_ms,
            report ==> final(self).last_report_ms == now_ms,
            report == (now_ms >= old(self).last_report_ms + PROGRESS_UPDATE_INTERVAL_MS && now_ms > 0),
    {
        self.total_bytes = self.total_bytes + len;
        if now_ms > 0 && now_ms >= self.last_report_ms && now_ms - self.last_report_ms >= PROGRESS_UPDATE_INTERVAL_MS {
            self.last_report_ms = now_ms;
            true
        } else {
            false
        }
    }
}

/// The session state after a sequence of recorded chunks.
pub open spec fn spec_run_chunks(s: DownloadSession, events: Seq<ChunkEvent>) -> DownloadSession
    decreases events.len(),
{
    if events.len() == 0 {
        s
    } else {
        let prev = spec_run_chunks(s, events.drop_last());
        spec_record_chunk(prev, events.last().len, events.last().now_ms).0
    }
}

/// The session times at which a sequence of recorded chunks fires a
/// progress report, in order.
pub open spec fn spec_report_times(s: DownloadSession, events: Seq<ChunkEvent>) -> Seq<u64>
    decreases events.len(),
{
    if events.len() == 0 {
        Seq::empty()
    } else {
        let prev = spec_run_chunks(s, events.drop_last());
        let times = spec_report_times(s, events.drop_last());
        if spec_record_chunk(prev, events.last().len, events.last().now_ms).1 {
            times.push(events.last().now_ms)
        } else {
            times
        }
    }
}

/// The total length of a sequence of chunks.
pub open spec fn spec_total_len(events: Seq<ChunkEvent>) -> int
    decreases events.len(),
{
    if events.len() == 0 {
        0
    } else {
        spec_total_len(events.drop_last()) + events.last().len
    }
}

/// Download progress is reported at most once per
/// `PROGRESS_UPDATE_INTERVAL_MS` of session time: however fast chunks
/// arrive, two consecutive reports are at least one interval apart,
/// and the first report comes no earlier than one interval after the
/// session's last report time (zero for a fresh session).
pub proof fn lemma_download_report_cadence(s: DownloadSession, events: Seq<ChunkEvent>)
    ensures
        forall|i: int|
            0 <= i && i + 1 < spec_report_times(s, events).len() ==> #[trigger] spec_report_times(
                s,
                events,
            )[i] + PROGRESS_UPDATE_INTERVAL_MS <= spec_report_times(s, events)[i + 1],
        spec_report_times(s, events).len() > 0 ==> spec_report_times(s, events)[0]
            >= s.last_report_ms + PROGRESS_UPDATE_INTERVAL_MS,
        spec_report_times(s, events).len() > 0 ==> spec_run_chunks(s, events).last_report_ms
            == spec_report_times(s, events).last(),
        spec_report_times(s, events).len() == 0 ==> spec_run_chunks(s, events).last_report_ms
            == s.last_report_ms,
    decreases events.len(),
{
    if events.len() > 0 {
        let prefix = events.drop_last();
        lemma_download_report_cadence(s, prefix);
        let prev = spec_run_chunks(s, prefix);
        let times = spec_report_times(s, prefix);
        let rt = spec_report_times(s, events);
        let e = events.last();
        if spec_record_chunk(prev, e.len, e.now_ms).1 {
            assert(rt == times.push(e.now_ms));
            assert(e.now_ms >= prev.last_report_ms + PROGRESS_UPDATE_INTERVAL_MS);
            assert forall|i: int| 0 <= i && i + 1 < rt.len() implies #[trigger] rt[i]
                + PROGRESS_UPDATE_INTERVAL_MS <= rt[i + 1] by {
                if i + 1 < times.len() {
                    assert(rt[i] == times[i]);
                    assert(rt[i + 1] == times[i + 1]);
                } else {
                    assert(i + 1 == times.len());
                    assert(rt[i + 1] == e.now_ms);
                    if times.len() > 0 {
                        assert(rt[i] == times[i]);
                        assert(times[times.len() - 1] == times.last());
                        assert(prev.last_report_ms == times.last());
                    }
                }
            }
        } else {
            assert(rt == times);
        }
    }
}

/// A session's byte counter accumulates exactly the lengths of the
/// chunks recorded into it, and its duration and request count are
/// untouched by chunk accounting.
pub proof fn lemma_download_bytes_accumulate(s: DownloadSession, events: Seq<ChunkEvent>)
    requires
        s.total_bytes + spec_total_len(events) <= u64::MAX,
    ensures
        spec_run_chunks(s, events).total_bytes == s.total_bytes + spec_total_len(events),
        spec_run_chunks(s, events).duration_ms == s.duration_ms,
        spec_run_chunks(s, events).requests == s.requests,
    decreases events.len(),
{
    if events.len() > 0 {
        lemma_download_bytes_accumulate(s, events.drop_last());
    }
}

/// The accounting state of one bounded-duration upload measurement.
///
/// Each chunk is one POST of `payload_bytes` synthetic bytes; only a
/// chunk answered with a successful status counts toward the byte
/// total.  A failed chunk is disposable: it neither counts nor aborts
/// the measurement.
#[derive(Debug, Clone, Copy, PartialEq, Eq, Structural)]
pub struct UploadSession {
    /// Target duration of the measurement.
    pub duration_ms: u64,
    /// Size of each synthetic payload.
    pub payload_bytes: u64,
    /// Bytes of successfully completed chunks so far.
    pub total_bytes: u64,
    /// How many chunks completed successfully so far.
    pub chunks_ok: u64,
}

/// One attempted upload chunk, as the session sees it: whether the
/// endpoint answered with a successful status, and the session time
/// when the attempt finished.
#[derive(Debug, Clone, Copy, PartialEq, Eq, Structural)]
pub struct UploadEvent {
    pub success: bool,
    pub now_ms: u64,
}

/// What `UploadSession::record_chunk` does: count a successful chunk
/// and report progress for it (whenever elapsed time is positive);
/// leave the state untouched for a failed one.  Returns the new state
/// and whether to report.
pub open spec fn spec_record_upload(s: UploadSession, success: bool, now_ms: u64) -> (UploadSession, bool) {
    if success {
        (
            UploadSession {
                duration_ms: s.duration_ms,
                payload_bytes: s.payload_bytes,
                total_bytes: (s.total_bytes + s.payload_bytes) as u64,
                chunks_ok: (s.chunks_ok + 1) as u64,
            },
            now_ms > 0,
        )
    } else {
        (s, false)
    }
}

impl UploadSession {
    /// A fresh session: nothing uploaded yet.
    pub fn new(duration_ms: u64, payload_bytes: u64) -> (s: Self)
        ensures
            s == (UploadSession { duration_ms, payload_bytes, total_bytes: 0, chunks_ok: 0 }),
    {
        UploadSession { duration_ms, payload_bytes, total_bytes: 0, chunks_ok: 0 }
    }

    /// Whether the session still has time left.  The caller checks
    /// this before building a new payload and again after each chunk
    /// completes; this check turning false is the only way the
    /// measurement ends.
    pub fn should_continue(&self, now_ms: u64) -> (b: bool)
        ensures
            b == (now_ms < self.duration_ms),
    {
        now_ms < self.duration_ms
    }

    /// Account one attempted chunk and decide whether to report
    /// progress.  A successful chunk adds the whole payload to the
    /// byte total and reports immediately — upload reports are not
    /// throttled.  A failed chunk changes nothing and never reports.
    pub fn record_chunk(&mut self, success: bool, now_ms: u64) -> (report: bool)
        requires
            success ==> old(self).total_bytes + old(self).payload_bytes <= u64::MAX,
            success ==> old(self).chunks_ok < u64::MAX,
        ensures
            (*final(self), report) == spec_record_upload(*old(self), success, now_ms),
            success ==> final(self).total_bytes == old(self).total_bytes + old(self).payload_bytes
                && final(self).chunks_ok == old(self).chunks_ok + 1,
            !success ==> *final(self) == *old(self),
            report == (success && now_ms > 0),
            old(self).total_bytes == old(self).chunks_ok * old(self).payload_bytes
                ==> final(self).total_bytes == final(self).chunks_ok * final(self).payload_bytes,
    {
        if success {
            self.total_bytes = self.total_bytes + self.payload_bytes;
            self.chunks_ok = self.chunks_ok + 1;
            proof {
                let t0 = old(self).total_bytes as int;
                let k0 = old(self).chunks_ok as int;
                let p = old(self).payload_bytes as int;
                let t1 = self.total_bytes as int;
                let k1 = self.chunks_ok as int;
                assert(t0 == k0 * p ==> t1 == k1 * p) by (nonlinear_arith)
                    requires
                        t1 == t0 + p,
                        k1 == k0 + 1,
                ;
            }
            now_ms > 0
        } else {
            false
        }
    }
}

/// The session state after a sequence of attempted chunks.
pub open spec fn spec_run_uploads(s: UploadSession, events: Seq<UploadEvent>) -> UploadSession
    decreases events.len(),
{
    if events.len() == 0 {
        s
    } else {
        let prev = spec_run_uploads(s, events.drop_last());
        spec_record_upload(prev, events.last().success, events.last().now_ms).0
    }
}

/// How many of a sequence of attempted chunks succeeded.
pub open spec fn spec_count_successes(events: Seq<UploadEvent>) -> int
    decreases events.len(),
{
    if events.len() == 0 {
        0
    } else {
        spec_count_successes(events.drop_last()) + if events.last().success {
            1int
        } else {
            0int
        }
    }
}

/// How many progress reports a sequence of attempted chunks fires.
pub open spec fn spec_count_upload_reports(s: UploadSession, events: Seq<UploadEvent>) -> int
    decreases events.len(),
{
    if events.len() == 0 {
        0
    } else {
        let prev = spec_run_uploads(s, events.drop_last());
        spec_count_upload_reports(s, events.drop_last()) + if spec_record_upload(
            prev,
            events.last().success,
            events.last().now_ms,
        ).1 {
            1int
        } else {
            0int
        }
    }
}

/// Upload progress is reported exactly once per successfully
/// completed chunk — there is no throttling interval — provided each
/// attempt finishes at a positive session time.
pub proof fn lemma_upload_report_per_success(s: UploadSession, events: Seq<UploadEvent>)
    requires
        forall|i: int| 0 <= i < events.len() ==> #[trigger] events[i].now_ms > 0,
    ensures
        spec_count_upload_reports(s, events) == spec_count_successes(events),
    decreases events.len(),
{
    if events.len() > 0 {
        lemma_upload_report_per_success(s, events.drop_last());
        assert(events.last() == events[events.len() - 1]);
        assert(forall|i: int|
            0 <= i < events.drop_last().len() ==> #[trigger] events.drop_last()[i].now_ms > 0);
    }
}

/// If every chunk of an upload measurement fails, the session is left
/// exactly as it started: the byte total stays zero for a fresh
/// session, and the measurement still concludes with a throughput of
/// zero rather than an error.
pub proof fn lemma_upload_all_failures_change_nothing(s: UploadSession, events: Seq<UploadEvent>)
    requires
        forall|i: int| 0 <= i < events.len() ==> !(#[trigger] events[i].success),
    ensures
        spec_run_uploads(s, events) == s,
    decreases events.len(),
{
    if events.len() > 0 {
        lemma_upload_all_failures_change_nothing(s, events.drop_last());
        assert(events.last() == events[events.len() - 1]);
        assert(forall|i: int|
            0 <= i < events.drop_last().len() ==> !(#[trigger] events.drop_last()[i].success));
    }
}

/// The byte total of an upload session is always a whole number of
/// payloads: after any sequence of attempted chunks, a session that
/// started fresh holds `chunks_ok * payload_bytes` bytes, where
/// `chunks_ok` is the number of successful attempts.
pub proof fn lemma_upload_total_is_multiple(s: UploadSession, events: Seq<UploadEvent>)
    requires
        s.total_bytes == s.chunks_ok * s.payload_bytes,
        (s.chunks_ok + spec_count_successes(events)) * s.payload_bytes <= u64::MAX,
        s.chunks_ok + spec_count_successes(events) <= u64::MAX,
    ensures
        spec_run_uploads(s, events).payload_bytes == s.payload_bytes,
        spec_run_uploads(s, events).duration_ms == s.duration_ms,
        spec_run_uploads(s, events).chunks_ok == s.chunks_ok + spec_count_successes(events),
        spec_run_uploads(s, events).total_bytes == spec_run_uploads(s, events).chunks_ok
            * s.payload_bytes,
    decreases events.len(),
{
    lemma_count_successes_bounds(events);
    if events.len() > 0 {
        let prefix = events.drop_last();
        lemma_count_successes_bounds(prefix);
        assert(spec_count_successes(prefix) <= spec_count_successes(events));
        assert((s.chunks_ok + spec_count_successes(prefix)) * s.payload_bytes <= (s.chunks_ok
            + spec_count_successes(events)) * s.payload_bytes) by (nonlinear_arith)
            requires
                spec_count_successes(prefix) <= spec_count_successes(events),
                0 <= s.chunks_ok + spec_count_successes(prefix),
                0 <= s.payload_bytes,
        ;
        lemma_upload_total_is_multiple(s, prefix);
        let prev = spec_run_uploads(s, prefix);
        if events.last().success {
            assert((prev.chunks_ok + 1) * s.payload_bytes == prev.chunks_ok * s.payload_bytes
                + s.payload_bytes) by (nonlinear_arith);
        }
    }
}

/// A success count lies between zero and the number of attempts.
pub proof fn lemma_count_successes_bounds(events: Seq<UploadEvent>)
    ensures
        0 <= spec_count_successes(events) <= events.len(),
    decreases events.len(),
{
    if events.len() > 0 {
        lemma_count_successes_bounds(events.drop_last());
    }
}

/// What one finished measurement attempt yielded: the bytes counted
/// and the wall-clock session time they took.  The average rate is
/// `bytes / elapsed_ms`, scaled to seconds by the presentation layer.
#[derive(Debug, Clone, Copy, PartialEq, Eq, Structural)]
pub struct Measurement {
    pub bytes: u64,
    pub elapsed_ms: u64,
}

/// The outcome of trying an ordered list of download endpoints.
#[derive(Debug, PartialEq, Eq)]
pub enum FailoverOutcome {
    /// The first endpoint whose attempt succeeded; no later endpoint
    /// was tried.
    Success(Measurement),
    /// Every endpoint was tried and failed; carries the last failure.
    Failed(SpeedTestError),
    /// There was no endpoint to try.
    NoAttempts,
}

/// The endpoint-fallback rule: endpoints are tried in order, the
/// first successful attempt wins and ends the test, and if every
/// attempt fails the last failure is the one reported.
pub open spec fn spec_failover(outcomes: Seq<Result<Measurement, SpeedTestError>>) -> FailoverOutcome
    decreases outcomes.len(),
{
    if outcomes.len() == 0 {
        FailoverOutcome::NoAttempts
    } else {
        match outcomes[0] {
            Ok(m) => FailoverOutcome::Success(m),
            Err(e) => match spec_failover(outcomes.subrange(1, outcomes.len() as int)) {
                FailoverOutcome::NoAttempts => FailoverOutcome::Failed(e),
                r => r,
            },
        }
    }
}

/// If the first `n` endpoints fail and endpoint `n` succeeds, the
/// measurement reported is exactly the one from endpoint `n`'s own
/// attempt — nothing of the failed attempts flows into it, since each
/// attempt runs its own fresh session.
pub proof fn lemma_failover_first_success(
    outcomes: Seq<Result<Measurement, SpeedTestError>>,
    n: int,
)
    requires
        0 <= n < outcomes.len(),
        forall|i: int| 0 <= i < n ==> (#[trigger] outcomes[i]) is Err,
        outcomes[n] is Ok,
    ensures
        spec_failover(outcomes) == FailoverOutcome::Success(outcomes[n]->Ok_0),
    decreases n,
{
    if n > 0 {
        let rest = outcomes.subrange(1, outcomes.len() as int);
        assert(forall|i: int| 0 <= i < n - 1 ==> (#[trigger] rest[i]) is Err);
        lemma_failover_first_success(rest, n - 1);
    }
}

/// If every endpoint fails, the test surfaces an exhaustion failure
/// that carries the failure of the last endpoint attempted.
pub proof fn lemma_failover_exhaustion(outcomes: Seq<Result<Measurement, SpeedTestError>>)
    requires
        outcomes.len() > 0,
        forall|i: int| 0 <= i < outcomes.len() ==> (#[trigger] outcomes[i]) is Err,
    ensures
        spec_failover(outcomes) == FailoverOutcome::Failed(outcomes.last()->Err_0),
    decreases outcomes.len(),
{
    let rest = outcomes.subrange(1, outcomes.len() as int);
    assert(outcomes[0] is Err);
    if outcomes.len() > 1 {
        assert(forall|i: int| 0 <= i < rest.len() ==> (#[trigger] rest[i]) is Err);
        lemma_failover_exhaustion(rest);
        assert(rest.last() == outcomes.last());
    } else {
        assert(rest.len() == 0);
        assert(outcomes.last() == outcomes[0]);
    }
}

/// The error side of the endpoint-fallback loop: remembers the most
/// recent failure so that, if no endpoint ever succeeds, the test can
/// surface it.
pub struct Failover {
    /// The most recent attempt failure, if any attempt failed yet.
    pub last_error: Option<SpeedTestError>,
}

impl Failover {
    /// A fallback that has not seen any failure.
    pub fn new() -> (f: Self)
        ensures
            f.last_error is None,
    {
        Failover { last_error: None }
    }

    /// Remember one endpoint's failure before moving to the next.
    pub fn record_failure(&mut self, e: SpeedTestError)
        ensures
            final(self).last_error == Some(e),
    {
        self.last_error = Some(e);
    }

    /// The failure to surface once every endpoint has been tried:
    /// the last recorded one, or a generic exhaustion failure if none
    /// was recorded (only possible with an empty endpoint list).
    pub fn into_error(self) -> (e: SpeedTestError)
        ensures
            self.last_error matches Some(prev) ==> e == prev,
            self.last_error is None ==> (e matches SpeedTestError::TestFailed(msg) && msg@
                == "All download servers failed"@),
    {
        match self {
            Failover { last_error: Some(prev) } => prev,
            Failover { last_error: None } => SpeedTestError::TestFailed(
                "All download servers failed".to_owned(),
            ),
        }
    }
}

/// Apply the endpoint-fallback rule to a list of attempt outcomes,
/// in order: the first success wins, otherwise the last failure is
/// surfaced, and an empty list yields the generic exhaustion failure.
#[verifier::loop_isolation(false)]
pub fn select_outcome(outcomes: Vec<Result<Measurement, SpeedTestError>>) -> (r: Result<
    Measurement,
    SpeedTestError,
>)
    ensures
        spec_failover(outcomes@) matches FailoverOutcome::Success(m) ==> r == Ok::<
            Measurement,
            SpeedTestError,
        >(m),
        spec_failover(outcomes@) matches FailoverOutcome::Failed(e) ==> r == Err::<
            Measurement,
            SpeedTestError,
        >(e),
        spec_failover(outcomes@) is NoAttempts ==> (r matches Err(e) && e matches
            SpeedTestError::TestFailed(msg) && msg@ == "All download servers failed"@),
{
    let ghost all = outcomes@;
    let mut remaining = outcomes;
    let mut fallback = Failover::new();
    while remaining.len() > 0
        invariant
            fallback.last_error matches Some(e) ==> spec_failover(all) == (
            match spec_failover(remaining@) {
                FailoverOutcome::NoAttempts => FailoverOutcome::Failed(e),
                other => other,
            }),
            fallback.last_error is None ==> spec_failover(all) == spec_failover(remaining@),
        decreases remaining.len(),
    {
        let ghost pre = remaining@;
        let head = remaining.remove(0);
        proof {
            assert(remaining@ =~= pre.subrange(1, pre.len() as int));
        }
        match head {
            Ok(m) => {
                proof {
                    assert(pre[0] == Ok::<Measurement, SpeedTestError>(m));
                    assert(spec_failover(pre) == FailoverOutcome::Success(m));
                    assert(spec_failover(all) == FailoverOutcome::Success(m));
                }
                return Ok(m);
            },
            Err(e) => {
                proof {
                    assert(pre[0] == Err::<Measurement, SpeedTestError>(e));
                    assert(spec_failover(pre) == (match spec_failover(remaining@) {
                        FailoverOutcome::NoAttempts => FailoverOutcome::Failed(e),
                        other => other,
                    }));
                    assert(!(spec_failover(pre) is NoAttempts));
                }
                fallback.record_failure(e);
            },
        }
    }
    Err(fallback.into_error())
}

} // verus!

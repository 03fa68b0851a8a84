//! The restore job: which items still need restoring, and the decisions of a restore
//! run from batch to batch (what to send, when to retry, pause, record or stop).
use vstd::prelude::*;
use std::sync::Arc;
use std::sync::atomic::AtomicBool;
use crate::api::{batch_item_ids, chunks_of, law_chunks};
use crate::checkpoint::RestoreProgress;
use crate::ids::{copy_ids, dedup, dedupe, extend_ids, ids_without, law_dedup, law_without, without};
use crate::models::{
    decimal, decimal_text, RestoreError, RestoreEvent, RestoreStats, UiMessage, DEFAULT_MAX_RETRIES,
    DEFAULT_RESTORE_BATCH_SIZE,
};

verus! {

broadcast use vstd::seq_lib::group_seq_properties;

/// A flag that a running scan or restore checks between batches; another holder of a
/// clone may set it at any time.
#[derive(Debug, Clone)]
pub struct CancellationToken {
    cancelled: Arc<AtomicBool>,
}

impl CancellationToken {
    /// A token that is not cancelled.
    pub fn new() -> Self {
        CancellationToken { cancelled: Arc::new(AtomicBool::new(false)) }
    }

    /// Asks every holder of the token to stop.
    pub fn cancel(&self) {
        self.cancelled.store(true, std::sync::atomic::Ordering::SeqCst);
    }

    /// Whether some holder has asked to stop.
    pub fn is_cancelled(&self) -> bool {
        self.cancelled.load(std::sync::atomic::Ordering::SeqCst)
    }
}

impl Default for CancellationToken {
    fn default() -> Self {
        CancellationToken::new()
    }
}

/// The ids of `item_ids`, in order, that are not among `restored`.
pub open spec fn not_yet_restored(item_ids: Seq<Seq<char>>, restored: Seq<Seq<char>>) -> Seq<
    Seq<char>,
> {
    without(item_ids, restored)
}

/// The requested ids that the progress does not list as restored, in their order.
pub fn remaining_item_ids(item_ids: &[String], progress: &RestoreProgress) -> (r: Vec<String>)
    ensures
        r.deep_view() == not_yet_restored(item_ids.deep_view(), progress.restored_ids.deep_view()),
{
    ids_without(item_ids, &progress.restored_ids)
}

/// The failed ids to try again, each once, in the order they first failed.
pub fn merge_failed_for_retry(progress: &RestoreProgress) -> (r: Vec<String>)
    ensures
        r.deep_view() == dedup(progress.failed_ids.deep_view()),
{
    let mut ids = copy_ids(progress.failed_ids.as_slice());
    dedupe(&mut ids);
    ids
}

/// `2` to the power `n`.
pub open spec fn pow2(n: nat) -> nat
    decreases n,
{
    if n == 0 {
        1
    } else {
        2 * pow2((n - 1) as nat)
    }
}

proof fn lemma_pow2_monotone(k: nat, a: nat)
    requires
        k <= a,
    ensures
        pow2(k) <= pow2(a),
    decreases a - k,
{
    if k < a {
        lemma_pow2_monotone(k, (a - 1) as nat);
    }
}

/// Seconds to wait before the retry that follows attempt number `attempt` (counted from
/// zero): one second, doubling with each attempt, saturating at the largest `u64`.
pub fn retry_delay_secs(attempt: usize) -> (d: u64)
    ensures
        d == (if pow2(attempt as nat) > u64::MAX { u64::MAX as nat } else { pow2(attempt as nat) }),
{
    let mut d: u64 = 1;
    let mut k: usize = 0;
    while k < attempt
        invariant
            k <= attempt,
            d == pow2(k as nat),
        decreases attempt - k,
    {
        if d > u64::MAX / 2 {
            proof {
                lemma_pow2_monotone((k + 1) as nat, attempt as nat);
            }
            return u64::MAX;
        }
        d = d * 2;
        k = k + 1;
    }
    d
}

/// The state of a restore run as mathematical values.
pub ghost struct RunView {
    pub restored_ids: Seq<Seq<char>>,
    pub failed_ids: Seq<Seq<char>>,
    pub batches: Seq<Seq<Seq<char>>>,
    pub total: nat,
    pub next_batch: nat,
    pub attempt: nat,
    pub restored_count: nat,
    pub failed_count: nat,
    pub requested: Seq<Seq<char>>,
    /// The ids that were restored before the run.
    pub origin_restored: Seq<Seq<char>>,
    /// The ids that had failed before the run and are not restored.
    pub origin_failed: Seq<Seq<char>>,
}

/// The ids of the batches that are not recorded yet.
pub open spec fn pending(v: RunView) -> Seq<Seq<char>> {
    v.batches.skip(v.next_batch as int).flatten()
}

/// What holds of every state of a restore run: restored and failed ids have no
/// duplicates and no id is both; the counts and the pending ids add up to the total,
/// which is the ids restored before the run plus the ids of its batches; every
/// restored or failed id was restored or failed before the run or is in a batch; every
/// requested id is restored, failed or pending; a retry is under way only for an
/// outstanding batch.
pub open spec fn run_wf(v: RunView) -> bool {
    &&& v.next_batch <= v.batches.len()
    &&& v.attempt < DEFAULT_MAX_RETRIES
    &&& v.attempt > 0 ==> v.next_batch < v.batches.len()
    &&& v.restored_ids.no_duplicates()
    &&& v.failed_ids.no_duplicates()
    &&& v.restored_count + v.failed_count + pending(v).len() == v.total
    &&& v.total <= usize::MAX
    &&& forall|x: Seq<char>| #[trigger] v.restored_ids.contains(x) ==> !v.failed_ids.contains(x)
    &&& v.origin_restored.no_duplicates()
    &&& v.total == v.origin_restored.len() + v.batches.flatten().len()
    &&& forall|x: Seq<char>| #[trigger] v.restored_ids.contains(x) ==> v.origin_restored.contains(x)
        || v.batches.flatten().contains(x)
    &&& forall|x: Seq<char>| #[trigger] v.failed_ids.contains(x) ==> v.origin_failed.contains(x)
        || v.batches.flatten().contains(x)
    &&& forall|x: Seq<char>| #[trigger] v.requested.contains(x) ==> v.restored_ids.contains(x)
        || v.failed_ids.contains(x) || pending(v).contains(x)
}

/// The state after the outstanding batch was restored: its ids join the restored ids
/// and leave the failed ids.
pub open spec fn after_restored(v: RunView) -> RunView {
    let b = v.batches[v.next_batch as int];
    RunView {
        restored_ids: dedup(v.restored_ids + b),
        failed_ids: without(v.failed_ids, b),
        restored_count: v.restored_count + b.len(),
        next_batch: v.next_batch + 1,
        attempt: 0,
        ..v
    }
}

/// The state after an attempt at the outstanding batch failed: another attempt while
/// attempts are left, else those of its ids that are not restored join the failed ids.
pub open spec fn after_failure(v: RunView) -> RunView {
    let b = v.batches[v.next_batch as int];
    if v.attempt + 1 < DEFAULT_MAX_RETRIES {
        RunView { attempt: v.attempt + 1, ..v }
    } else {
        RunView {
            failed_ids: dedup(v.failed_ids + without(b, v.restored_ids)),
            failed_count: v.failed_count + b.len(),
            next_batch: v.next_batch + 1,
            attempt: 0,
            ..v
        }
    }
}

/// The message of a progress report after batch `number` of `count` was restored.
pub open spec fn batch_message_ok(m: UiMessage, number: nat, count: nat) -> bool {
    &&& m.spec_id() == "status.batchRestored"@
    &&& m.param_map() == Map::<Seq<char>, Seq<char>>::empty().insert("batch"@, decimal(number)).insert(
        "batches"@,
        decimal(count),
    )
}

/// The message of a progress report after batch `number` of `count` failed.
pub open spec fn batch_message_failed(m: UiMessage, number: nat, count: nat) -> bool {
    &&& m.spec_id() == "status.batchNeedsRetry"@
    &&& m.param_map() == Map::<Seq<char>, Seq<char>>::empty().insert("batch"@, decimal(number)).insert(
        "batches"@,
        decimal(count),
    )
}

/// A progress report on the counts of `v` after batch `number` of `count` was restored
/// (`ok`) or given up; the ETA is left for the caller, who knows the time.
pub open spec fn is_progress_event(e: RestoreEvent, v: RunView, ok: bool, number: nat, count: nat) -> bool {
    match e {
        RestoreEvent::RestoreProgress { total, restored, failed, eta_seconds, message } => {
            &&& total == v.total
            &&& restored == v.restored_count
            &&& failed == v.failed_count
            &&& eta_seconds is None
            &&& if ok {
                batch_message_ok(message, number, count)
            } else {
                batch_message_failed(message, number, count)
            }
        },
        _ => false,
    }
}

/// The report that a cancelled run is paused.
pub open spec fn is_pause_event(e: RestoreEvent) -> bool {
    match e {
        RestoreEvent::Paused { message } => message.spec_id() == "status.restorePaused"@
            && message.param_map() == Map::<Seq<char>, Seq<char>>::empty(),
        _ => false,
    }
}

/// A retry after `delay` seconds, reported as attempt `attempt` at batch `number`.
pub open spec fn is_retry(a: AttemptResult, delay: nat, number: nat, attempt: nat) -> bool {
    match a {
        AttemptResult::Retry { delay_secs, event } => delay_secs == delay && match event {
            RestoreEvent::Retry { batch_number, attempt: at, message } => batch_number == number
                && at == attempt && message.spec_id() == "status.retrying"@,
            _ => false,
        },
        _ => false,
    }
}

/// The statistics of a finished run.
pub open spec fn final_stats(s: RestoreStats, total: nat, restored: Seq<Seq<char>>, failed: Seq<Seq<char>>) -> bool {
    &&& s.total == total
    &&& s.restored == restored.len()
    &&& s.failed == failed.len()
    &&& s.failed_ids.deep_view() == failed
}

/// What the run asks for next.
#[derive(Debug)]
pub enum RunStep {
    /// Every batch is recorded; report these statistics.
    Finished(RestoreStats),
    /// Cancelled before the next batch: save the progress, report this event, stop.
    Pause(RestoreEvent),
    /// Send this batch.
    Send(Vec<String>),
}

/// What the run does after one attempt at a batch.
#[derive(Debug)]
pub enum AttemptResult {
    /// The batch is recorded (restored or failed): save the progress, then report this.
    Recorded(RestoreEvent),
    /// Report this, wait this long, then send the same batch again.
    Retry { delay_secs: u64, event: RestoreEvent },
    /// Stop the run with this error.
    Abort(RestoreError),
}

/// A restore run: the batches of ids still to restore and the progress so far.
pub struct RestoreRun {
    progress: RestoreProgress,
    batches: Vec<Vec<String>>,
    total: usize,
    next_batch: usize,
    attempt: usize,
    restored_count: usize,
    failed_count: usize,
    requested: Ghost<Seq<Seq<char>>>,
    origin_restored: Ghost<Seq<Seq<char>>>,
    origin_failed: Ghost<Seq<Seq<char>>>,
}

/// How a run starts: with nothing left to restore, or with batches to send.
pub enum RunStart {
    Finished(RestoreStats),
    Started(RestoreRun),
}

impl View for RestoreRun {
    type V = RunView;

    closed spec fn view(&self) -> RunView {
        RunView {
            restored_ids: self.progress.restored_ids.deep_view(),
            failed_ids: self.progress.failed_ids.deep_view(),
            batches: self.batches.deep_view(),
            total: self.total as nat,
            next_batch: self.next_batch as nat,
            attempt: self.attempt as nat,
            restored_count: self.restored_count as nat,
            failed_count: self.failed_count as nat,
            requested: self.requested@,
            origin_restored: self.origin_restored@,
            origin_failed: self.origin_failed@,
        }
    }
}

proof fn lemma_pending_step(v: RunView)
    requires
        v.next_batch < v.batches.len(),
    ensures
        pending(v) == v.batches[v.next_batch as int] + v.batches.skip(v.next_batch + 1int).flatten(),
{
    let rest = v.batches.skip(v.next_batch as int);
    assert(rest.drop_first() =~= v.batches.skip(v.next_batch + 1int));
    assert(rest.first() == v.batches[v.next_batch as int]);
}

/// Every id of a batch is an id of the batches flattened.
proof fn lemma_batch_in_flatten<A>(bs: Seq<Seq<A>>, i: int, x: A)
    requires
        0 <= i < bs.len(),
        bs[i].contains(x),
    ensures
        bs.flatten().contains(x),
    decreases i,
{
    if i == 0 {
        let k = choose|k: int| 0 <= k < bs[0].len() && bs[0][k] == x;
        assert(bs.flatten()[k] == x);
    } else {
        assert(bs.drop_first()[i - 1] == bs[i]);
        lemma_batch_in_flatten(bs.drop_first(), i - 1, x);
        let rest = bs.drop_first().flatten();
        let k = choose|k: int| 0 <= k < rest.len() && rest[k] == x;
        assert(bs.flatten()[bs.first().len() + k] == x);
    }
}

/// An element of a list is an element of any list that it is a prefix or a suffix of.
proof fn lemma_concat_contains(a: Seq<Seq<char>>, b: Seq<Seq<char>>, x: Seq<char>)
    ensures
        (a + b).contains(x) <==> a.contains(x) || b.contains(x),
{
    if a.contains(x) {
        let k = choose|k: int| 0 <= k < a.len() && a[k] == x;
        assert((a + b)[k] == x);
    }
    if b.contains(x) {
        let k = choose|k: int| 0 <= k < b.len() && b[k] == x;
        assert((a + b)[a.len() + k] == x);
    }
    if (a + b).contains(x) {
        let k = choose|k: int| 0 <= k < a.len() + b.len() && (a + b)[k] == x;
        if k < a.len() {
            assert(a[k] == x);
        } else {
            assert(b[k - a.len()] == x);
        }
    }
}

/// Recording a restored batch keeps every property of a run state.
pub proof fn law_after_restored_wf(v: RunView)
    requires
        run_wf(v),
        v.next_batch < v.batches.len(),
    ensures
        run_wf(after_restored(v)),
{
    let w = after_restored(v);
    let b = v.batches[v.next_batch as int];
    lemma_pending_step(v);
    law_dedup(v.restored_ids + b);
    law_without(v.failed_ids, b);
    assert(pending(w) == v.batches.skip(v.next_batch + 1int).flatten());
    assert forall|x: Seq<char>| #[trigger] w.restored_ids.contains(x) implies !w.failed_ids.contains(x)
        && (w.origin_restored.contains(x) || w.batches.flatten().contains(x)) by {
        lemma_concat_contains(v.restored_ids, b, x);
        if b.contains(x) {
            lemma_batch_in_flatten(v.batches, v.next_batch as int, x);
        }
    }
    assert forall|x: Seq<char>| #[trigger] w.requested.contains(x) implies w.restored_ids.contains(
        x,
    ) || w.failed_ids.contains(x) || pending(w).contains(x) by {
        lemma_concat_contains(v.restored_ids, b, x);
        lemma_concat_contains(b, pending(w), x);
    }
}

/// Recording a failed attempt keeps every property of a run state.
pub proof fn law_after_failure_wf(v: RunView)
    requires
        run_wf(v),
        v.next_batch < v.batches.len(),
    ensures
        run_wf(after_failure(v)),
{
    let w = after_failure(v);
    let b = v.batches[v.next_batch as int];
    if v.attempt + 1 < DEFAULT_MAX_RETRIES {
        assert(pending(w) == pending(v));
    } else {
        let fresh = without(b, v.restored_ids);
        lemma_pending_step(v);
        law_without(b, v.restored_ids);
        law_dedup(v.failed_ids + fresh);
        assert(pending(w) == v.batches.skip(v.next_batch + 1int).flatten());
        assert forall|x: Seq<char>| #[trigger] w.failed_ids.contains(x) implies !w.restored_ids.contains(x)
            && (w.origin_failed.contains(x) || w.batches.flatten().contains(x)) by {
            lemma_concat_contains(v.failed_ids, fresh, x);
            if fresh.contains(x) {
                lemma_batch_in_flatten(v.batches, v.next_batch as int, x);
            }
        }
        assert forall|x: Seq<char>| #[trigger] w.requested.contains(x) implies w.restored_ids.contains(
            x,
        ) || w.failed_ids.contains(x) || pending(w).contains(x) by {
            lemma_concat_contains(v.failed_ids, fresh, x);
            lemma_concat_contains(b, pending(w), x);
        }
    }
}

/// The ids that a saved progress lists as restored.
pub open spec fn saved_restored(saved: Option<RestoreProgress>) -> Seq<Seq<char>> {
    match saved {
        Some(p) => p.restored_ids.deep_view(),
        None => Seq::empty(),
    }
}

/// The ids that a saved progress lists as failed.
pub open spec fn saved_failed(saved: Option<RestoreProgress>) -> Seq<Seq<char>> {
    match saved {
        Some(p) => p.failed_ids.deep_view(),
        None => Seq::empty(),
    }
}

/// The state in which a run over `item_ids` starts from a saved progress: repeated ids
/// are dropped from the saved lists, a failed id that is also restored counts as
/// restored, ids already restored are skipped, the rest is cut into batches of the
/// default size.
pub open spec fn start_view(saved: Option<RestoreProgress>, item_ids: Seq<Seq<char>>) -> RunView {
    let restored = dedup(saved_restored(saved));
    let failed = without(dedup(saved_failed(saved)), restored);
    let remaining = not_yet_restored(item_ids, restored);
    RunView {
        restored_ids: restored,
        failed_ids: failed,
        batches: chunks_of(remaining, DEFAULT_RESTORE_BATCH_SIZE as nat),
        total: restored.len() + remaining.len(),
        next_batch: 0,
        attempt: 0,
        restored_count: restored.len(),
        failed_count: 0,
        requested: item_ids,
        origin_restored: restored,
        origin_failed: failed,
    }
}

/// The message that reports batch `number` of `count`.
fn batch_message(id: &str, number: usize, count: usize) -> (m: UiMessage)
    ensures
        m.spec_id() == id@,
        m.param_map() == Map::<Seq<char>, Seq<char>>::empty().insert("batch"@, decimal(
            number as nat,
        )).insert("batches"@, decimal(count as nat)),
{
    let n = decimal_text(number);
    let c = decimal_text(count);
    UiMessage::new(id).with_param("batch", n.as_str()).with_param("batches", c.as_str())
}

impl RestoreRun {
    #[verifier::type_invariant]
    spec fn inv(self) -> bool {
        run_wf(self@)
    }

    fn stats(&self) -> (s: RestoreStats)
        ensures
            final_stats(s, self@.total, self@.restored_ids, self@.failed_ids),
    {
        RestoreStats {
            total: self.total,
            restored: self.progress.restored_ids.len(),
            failed: self.progress.failed_ids.len(),
            failed_ids: copy_ids(self.progress.failed_ids.as_slice()),
        }
    }

    /// Starts a run over `item_ids` from the saved progress, if any. With nothing left to
    /// restore, the run is over at once and its statistics are returned.
    pub fn start(saved: Option<RestoreProgress>, item_ids: Vec<String>) -> (r: RunStart)
        requires
            saved_restored(saved).len() + item_ids@.len() <= usize::MAX,
        ensures
            ({
                let v = start_view(saved, item_ids.deep_view());
                &&& pending(v).len() == 0 ==> (r matches RunStart::Finished(s) && final_stats(
                    s,
                    v.total,
                    v.restored_ids,
                    v.failed_ids,
                ))
                &&& pending(v).len() > 0 ==> (r matches RunStart::Started(run) && run@ == v
                    && run_wf(run@))
            }),
    {
        let ghost v = start_view(saved, item_ids.deep_view());
        let mut progress = match saved {
            Some(p) => p,
            None => RestoreProgress::default(),
        };
        dedupe(&mut progress.restored_ids);
        dedupe(&mut progress.failed_ids);
        progress.failed_ids = ids_without(progress.failed_ids.as_slice(), &progress.restored_ids);
        let remaining = remaining_item_ids(item_ids.as_slice(), &progress);
        proof {
            law_start_wf(saved, item_ids.deep_view());
        }
        let total = progress.restored_ids.len() + remaining.len();
        let batches = batch_item_ids(remaining.as_slice(), DEFAULT_RESTORE_BATCH_SIZE);
        if remaining.len() == 0 {
            let stats = RestoreStats {
                total,
                restored: progress.restored_ids.len(),
                failed: progress.failed_ids.len(),
                failed_ids: progress.failed_ids,
            };
            return RunStart::Finished(stats);
        }
        let run = RestoreRun {
            restored_count: progress.restored_ids.len(),
            progress,
            batches,
            total,
            next_batch: 0,
            attempt: 0,
            failed_count: 0,
            requested: Ghost(item_ids.deep_view()),
            origin_restored: Ghost(v.origin_restored),
            origin_failed: Ghost(v.origin_failed),
        };
        assert(run@ == v);
        RunStart::Started(run)
    }

    /// Number of ids the run accounts for: those restored before it plus those it sends.
    pub fn total(&self) -> (t: usize)
        ensures
            t == self@.total,
    {
        self.total
    }

    /// Whether a batch is outstanding (sent and not yet recorded).
    pub fn has_outstanding_batch(&self) -> (b: bool)
        ensures
            b == (self@.next_batch < self@.batches.len()),
    {
        self.next_batch < self.batches.len()
    }

    /// The progress to save: restored and failed ids so far.
    pub fn progress(&self) -> (p: RestoreProgress)
        ensures
            p.restored_ids.deep_view() == self@.restored_ids,
            p.failed_ids.deep_view() == self@.failed_ids,
    {
        RestoreProgress {
            restored_ids: copy_ids(self.progress.restored_ids.as_slice()),
            failed_ids: copy_ids(self.progress.failed_ids.as_slice()),
        }
    }

    /// What to do next. A cancellation is honoured only between batches, never between
    /// the attempts at one batch.
    pub fn next_step(&self, cancelled: bool) -> (r: RunStep)
        ensures
            self@.next_batch == self@.batches.len() ==> (r matches RunStep::Finished(s)
                && final_stats(s, self@.total, self@.restored_ids, self@.failed_ids)),
            self@.next_batch < self@.batches.len() && self@.attempt == 0 && cancelled ==> (
            r matches RunStep::Pause(e) && is_pause_event(e)),
            self@.next_batch < self@.batches.len() && !(self@.attempt == 0 && cancelled) ==> (
            r matches RunStep::Send(b) && b.deep_view() == self@.batches[self@.next_batch as int]),
    {
        proof {
            use_type_invariant(self);
        }
        if self.next_batch == self.batches.len() {
            return RunStep::Finished(self.stats());
        }
        if self.attempt == 0 && cancelled {
            return RunStep::Pause(
                RestoreEvent::Paused { message: UiMessage::new("status.restorePaused") },
            );
        }
        let batch = copy_ids(self.batches[self.next_batch].as_slice());
        RunStep::Send(batch)
    }

    /// Records the result of one attempt at the outstanding batch, and says what follows.
    pub fn record_attempt(self, outcome: Result<(), RestoreError>) -> (r: (RestoreRun, AttemptResult))
        requires
            self@.next_batch < self@.batches.len(),
        ensures
            run_wf(r.0@),
            outcome is Ok ==> r.0@ == after_restored(self@) && (r.1 matches AttemptResult::Recorded(
                e,
            ) && is_progress_event(e, r.0@, true, self@.next_batch + 1, self@.batches.len())),
            outcome matches Err(RestoreError::AuthExpired) ==> r.0@ == self@ && (
            r.1 matches AttemptResult::Abort(e) && e is AuthExpired),
            (outcome is Err && !(outcome matches Err(RestoreError::AuthExpired))) ==> r.0@
                == after_failure(self@),
            (outcome is Err && !(outcome matches Err(RestoreError::AuthExpired))
                && self@.attempt + 1 < DEFAULT_MAX_RETRIES) ==> (
            is_retry(r.1, pow2(self@.attempt), self@.next_batch + 1, self@.attempt + 1)),
            (outcome is Err && !(outcome matches Err(RestoreError::AuthExpired))
                && self@.attempt + 1 >= DEFAULT_MAX_RETRIES) ==> (
            r.1 matches AttemptResult::Recorded(e) && is_progress_event(
                e,
                r.0@,
                false,
                self@.next_batch + 1,
                self@.batches.len(),
            )),
    {
        proof {
            use_type_invariant(&self);
        }
        let ghost v = self@;
        let RestoreRun {
            progress,
            batches,
            total,
            next_batch,
            attempt,
            restored_count,
            failed_count,
            requested,
            origin_restored,
            origin_failed,
        } = self;
        let RestoreProgress { restored_ids, failed_ids } = progress;
        let ghost b = batches.deep_view()[next_batch as int];
        proof {
            lemma_pending_step(v);
        }
        assert(v.next_batch == next_batch as nat);
        assert(v.batches == batches.deep_view());
        assert(batches.deep_view().len() == batches@.len());
        let count = batches.len();
        assert(next_batch < count);
        let batch_len = batches[next_batch].len();
        let number = next_batch + 1;
        match outcome {
            Ok(()) => {
                proof {
                    law_after_restored_wf(v);
                }
                let mut restored = restored_ids;
                extend_ids(&mut restored, batches[next_batch].as_slice());
                dedupe(&mut restored);
                let failed = ids_without(failed_ids.as_slice(), &batches[next_batch]);
                let new_restored = restored_count + batch_len;
                let run = RestoreRun {
                    progress: RestoreProgress { restored_ids: restored, failed_ids: failed },
                    batches,
                    total,
                    next_batch: number,
                    attempt: 0,
                    restored_count: new_restored,
                    failed_count,
                    requested,
                    origin_restored,
                    origin_failed,
                };
                assert(run@ == after_restored(v));
                let event = RestoreEvent::RestoreProgress {
                    total,
                    restored: new_restored,
                    failed: failed_count,
                    eta_seconds: None,
                    message: batch_message("status.batchRestored", number, count),
                };
                (run, AttemptResult::Recorded(event))
            },
            Err(RestoreError::AuthExpired) => {
                let run = RestoreRun {
                    progress: RestoreProgress { restored_ids, failed_ids },
                    batches,
                    total,
                    next_batch,
                    attempt,
                    restored_count,
                    failed_count,
                    requested,
                    origin_restored,
                    origin_failed,
                };
                assert(run@ == v);
                (run, AttemptResult::Abort(RestoreError::AuthExpired))
            },
            Err(error) => {
                proof {
                    law_after_failure_wf(v);
                }
                if attempt + 1 < DEFAULT_MAX_RETRIES {
                    let delay_secs = retry_delay_secs(attempt);
                    proof {
                        reveal_with_fuel(pow2, 5);
                    }
                    let detail = error.message().id();
                    let message = UiMessage::new("status.retrying").with_param(
                        "details",
                        detail.as_str(),
                    );
                    let run = RestoreRun {
                        progress: RestoreProgress { restored_ids, failed_ids },
                        batches,
                        total,
                        next_batch,
                        attempt: attempt + 1,
                        restored_count,
                        failed_count,
                        requested,
                        origin_restored,
                        origin_failed,
                    };
                    assert(run@ == after_failure(v));
                    let event = RestoreEvent::Retry { batch_number: number, attempt: attempt + 1, message };
                    (run, AttemptResult::Retry { delay_secs, event })
                } else {
                    let fresh = ids_without(batches[next_batch].as_slice(), &restored_ids);
                    let mut failed = failed_ids;
                    extend_ids(&mut failed, fresh.as_slice());
                    dedupe(&mut failed);
                    let new_failed = failed_count + batch_len;
                    let run = RestoreRun {
                        progress: RestoreProgress { restored_ids, failed_ids: failed },
                        batches,
                        total,
                        next_batch: number,
                        attempt: 0,
                        restored_count,
                        failed_count: new_failed,
                        requested,
                        origin_restored,
                        origin_failed,
                    };
                    assert(run@ == after_failure(v));
                    let event = RestoreEvent::RestoreProgress {
                        total,
                        restored: restored_count,
                        failed: new_failed,
                        eta_seconds: None,
                        message: batch_message("status.batchNeedsRetry", number, count),
                    };
                    (run, AttemptResult::Recorded(event))
                }
            },
        }
    }
}

/// The ids left to restore hold no id that was already restored, and every requested id
/// is either already restored or left to restore.
pub proof fn law_remaining(item_ids: Seq<Seq<char>>, restored: Seq<Seq<char>>)
    ensures
        forall|x: Seq<char>| #[trigger] not_yet_restored(item_ids, restored).contains(x) ==> item_ids.contains(x)
            && !restored.contains(x),
        forall|x: Seq<char>| #[trigger] item_ids.contains(x) ==> restored.contains(x)
            || not_yet_restored(item_ids, restored).contains(x),
{
    let pred = |x: Seq<char>| !restored.contains(x);
    assert forall|x: Seq<char>| #[trigger] not_yet_restored(item_ids, restored).contains(x) implies item_ids.contains(x)
        && !restored.contains(x) by {
        item_ids.lemma_filter_contains_rev(pred, x);
        let f = item_ids.filter(pred);
        let k = choose|k: int| 0 <= k < f.len() && f[k] == x;
        item_ids.lemma_filter_pred(pred, k);
    }
    assert forall|x: Seq<char>| #[trigger] item_ids.contains(x) implies restored.contains(x)
        || not_yet_restored(item_ids, restored).contains(x) by {
        if !restored.contains(x) {
            let k = choose|k: int| 0 <= k < item_ids.len() && item_ids[k] == x;
            item_ids.lemma_filter_contains(pred, k);
        }
    }
}

/// A run starts in a well-formed state: every requested id is restored already or
/// pending, and the counts add up.
pub proof fn law_start_wf(saved: Option<RestoreProgress>, item_ids: Seq<Seq<char>>)
    requires
        saved_restored(saved).len() + item_ids.len() <= usize::MAX,
    ensures
        run_wf(start_view(saved, item_ids)),
        pending(start_view(saved, item_ids)) == not_yet_restored(item_ids, dedup(saved_restored(saved))),
{
    let v = start_view(saved, item_ids);
    let restored = dedup(saved_restored(saved));
    let rem = not_yet_restored(item_ids, restored);
    law_dedup(saved_restored(saved));
    law_dedup(saved_failed(saved));
    law_without(dedup(saved_failed(saved)), restored);
    law_without(item_ids, restored);
    law_chunks(rem, DEFAULT_RESTORE_BATCH_SIZE as nat);
    assert(chunks_of(rem, DEFAULT_RESTORE_BATCH_SIZE as nat).skip(0) =~= chunks_of(
        rem,
        DEFAULT_RESTORE_BATCH_SIZE as nat,
    ));
    law_remaining(item_ids, restored);
}

/// Resuming from saved progress sends no id that the progress lists as restored, and
/// sends every requested id that it does not list: a paused or interrupted restore picks
/// up exactly where it stopped.
pub proof fn law_resume_skips_restored(saved: RestoreProgress, item_ids: Seq<Seq<char>>)
    requires
        saved.restored_ids.deep_view().len() + item_ids.len() <= usize::MAX,
    ensures
        forall|x: Seq<char>| saved.restored_ids.deep_view().contains(x) ==> !#[trigger] pending(
            start_view(Some(saved), item_ids),
        ).contains(x),
        forall|x: Seq<char>| #[trigger] item_ids.contains(x) && !saved.restored_ids.deep_view().contains(x)
            ==> pending(start_view(Some(saved), item_ids)).contains(x),
{
    let restored = dedup(saved.restored_ids.deep_view());
    law_start_wf(Some(saved), item_ids);
    law_dedup(saved.restored_ids.deep_view());
    law_remaining(item_ids, restored);
}

/// When a run has recorded every batch, every requested id is restored or failed, and
/// the restored and failed counts add up to the total.
pub proof fn law_finished_run_covers_request(v: RunView)
    requires
        run_wf(v),
        v.next_batch == v.batches.len(),
    ensures
        forall|x: Seq<char>| #[trigger] v.requested.contains(x) ==> v.restored_ids.contains(x)
            || v.failed_ids.contains(x),
        v.restored_count + v.failed_count == v.total,
{
    assert(v.batches.skip(v.next_batch as int) =~= Seq::<Seq<Seq<char>>>::empty());
    assert(pending(v) =~= Seq::<Seq<char>>::empty());
}

/// Recording an attempt never forgets a restored id; a failed id stays failed unless
/// its batch is then restored, which makes it restored and no longer failed; after the
/// last allowed attempt at a batch fails, each of its ids is restored or failed.
pub proof fn law_recorded_ids_kept(v: RunView)
    requires
        run_wf(v),
        v.next_batch < v.batches.len(),
    ensures
        forall|x: Seq<char>| #[trigger] v.restored_ids.contains(x) ==> after_restored(v).restored_ids.contains(x)
            && after_failure(v).restored_ids.contains(x),
        forall|x: Seq<char>| #[trigger] v.failed_ids.contains(x) ==> after_failure(v).failed_ids.contains(x),
        forall|x: Seq<char>| #[trigger] v.batches[v.next_batch as int].contains(x) ==> after_restored(v).restored_ids.contains(x)
            && !after_restored(v).failed_ids.contains(x),
        forall|x: Seq<char>| #[trigger] v.failed_ids.contains(x) && !v.batches[v.next_batch as int].contains(x)
            ==> after_restored(v).failed_ids.contains(x),
        v.attempt + 1 == DEFAULT_MAX_RETRIES ==> forall|x: Seq<char>| #[trigger] v.batches[v.next_batch as int].contains(x)
            ==> after_failure(v).restored_ids.contains(x) || after_failure(v).failed_ids.contains(x),
{
    let b = v.batches[v.next_batch as int];
    let fresh = without(b, v.restored_ids);
    law_dedup(v.restored_ids + b);
    law_dedup(v.failed_ids + fresh);
    law_without(v.failed_ids, b);
    law_without(b, v.restored_ids);
    assert forall|x: Seq<char>| #[trigger] v.restored_ids.contains(x) implies (v.restored_ids + b).contains(x) by {
        lemma_concat_contains(v.restored_ids, b, x);
    }
    assert forall|x: Seq<char>| #[trigger] v.failed_ids.contains(x) implies (v.failed_ids + fresh).contains(x) by {
        lemma_concat_contains(v.failed_ids, fresh, x);
    }
    assert forall|x: Seq<char>| #[trigger] b.contains(x) implies (v.restored_ids + b).contains(x)
        && (v.restored_ids.contains(x) || (v.failed_ids + fresh).contains(x)) by {
        lemma_concat_contains(v.restored_ids, b, x);
        lemma_concat_contains(v.failed_ids, fresh, x);
    }
}

/// No id is ever both restored and failed: a failure that a later restore fixed is
/// not reported as failed.
pub proof fn law_restored_never_failed(v: RunView)
    requires
        run_wf(v),
    ensures
        forall|x: Seq<char>| #[trigger] v.restored_ids.contains(x) ==> !v.failed_ids.contains(x),
{
}

/// A list without duplicates whose elements all lie in `a` or in `b` is no longer than
/// `a` and `b` together.
proof fn lemma_distinct_within(s: Seq<Seq<char>>, a: Seq<Seq<char>>, b: Seq<Seq<char>>)
    requires
        s.no_duplicates(),
        forall|x: Seq<char>| #[trigger] s.contains(x) ==> a.contains(x) || b.contains(x),
    ensures
        s.len() <= a.len() + b.len(),
{
    broadcast use vstd::seq_lib::seq_to_set_is_finite;
    s.unique_seq_to_set();
    a.lemma_cardinality_of_set();
    b.lemma_cardinality_of_set();
    vstd::set_lib::lemma_len_union(a.to_set(), b.to_set());
    assert(s.to_set().subset_of(a.to_set().union(b.to_set())));
    vstd::set_lib::lemma_len_subset(s.to_set(), a.to_set().union(b.to_set()));
}

/// Where every id that failed before the run is in one of its batches, the restored and
/// the failed ids together never outnumber the total: the progress shown never passes
/// one hundred percent.
pub proof fn law_counts_within_total(v: RunView)
    requires
        run_wf(v),
        forall|x: Seq<char>| #[trigger] v.origin_failed.contains(x) ==> v.batches.flatten().contains(x),
    ensures
        v.restored_ids.len() + v.failed_ids.len() <= v.total,
{
    let both = v.restored_ids + v.failed_ids;
    assert forall|x: Seq<char>| #[trigger] both.contains(x) implies v.origin_restored.contains(x)
        || v.batches.flatten().contains(x) by {
        lemma_concat_contains(v.restored_ids, v.failed_ids, x);
    }
    assert(both.no_duplicates()) by {
        assert forall|i: int, j: int| 0 <= i < v.restored_ids.len() && 0 <= j < v.failed_ids.len()
            implies v.restored_ids[i] != v.failed_ids[j] by {
            assert(v.restored_ids.contains(v.restored_ids[i]));
            assert(v.failed_ids.contains(v.failed_ids[j]));
        }
        vstd::seq_lib::lemma_no_dup_in_concat(v.restored_ids, v.failed_ids);
    }
    lemma_distinct_within(both, v.origin_restored, v.batches.flatten());
}

/// A run whose saved failed ids are all restored already or requested again starts
/// with every earlier failure in one of its batches, so `law_counts_within_total`
/// holds of each of its states.
pub proof fn law_start_failed_requested(saved: Option<RestoreProgress>, item_ids: Seq<Seq<char>>)
    requires
        saved_restored(saved).len() + item_ids.len() <= usize::MAX,
        forall|x: Seq<char>| #[trigger] saved_failed(saved).contains(x) ==> saved_restored(saved).contains(x)
            || item_ids.contains(x),
    ensures
        forall|x: Seq<char>| #[trigger] start_view(saved, item_ids).origin_failed.contains(x)
            ==> start_view(saved, item_ids).batches.flatten().contains(x),
{
    let restored = dedup(saved_restored(saved));
    let rem = not_yet_restored(item_ids, restored);
    law_dedup(saved_restored(saved));
    law_dedup(saved_failed(saved));
    law_without(dedup(saved_failed(saved)), restored);
    law_without(item_ids, restored);
    law_chunks(rem, DEFAULT_RESTORE_BATCH_SIZE as nat);
}

/// Every recorded attempt makes progress: a restored batch, or the last allowed failed
/// attempt, moves on to the next batch; any other failed attempt moves to the next
/// attempt, of which a batch gets at most `DEFAULT_MAX_RETRIES`.
pub proof fn law_attempts_progress(v: RunView)
    requires
        run_wf(v),
        v.next_batch < v.batches.len(),
    ensures
        after_restored(v).next_batch == v.next_batch + 1,
        v.attempt + 1 < DEFAULT_MAX_RETRIES ==> after_failure(v).next_batch == v.next_batch
            && after_failure(v).attempt == v.attempt + 1,
        v.attempt + 1 == DEFAULT_MAX_RETRIES ==> after_failure(v).next_batch == v.next_batch + 1
            && after_failure(v).attempt == 0,
{
}

} // verus!

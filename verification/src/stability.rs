//! When a file that is still being written has come to rest.
//!
//! The detector is fed one observation of the file per polling interval.
//! It counts the checks in a row at which size and modification time were
//! what they were at the check before, the size not being zero, and judges
//! the file complete once that count reaches the required number.

use vstd::prelude::*;

verus! {

/// Seconds to wait before the first check.
pub const INITIAL_DELAY_SECS: u64 = 10;

/// Seconds between two checks.
pub const POLL_INTERVAL_SECS: u64 = 2;

/// Unchanged checks in a row after which the file counts as complete.
pub const REQUIRED_STABLE_CHECKS: u32 = 15;

/// Seconds to wait once more after the file was judged complete.
pub const SETTLE_BUFFER_SECS: u64 = 30;

/// Checks after which the detector gives up: four hours of polling.
pub const MAX_CHECKS: u32 = 7200;

/// Size and modification time of a file at one check.
#[derive(Clone, Copy, Debug, PartialEq, Eq, Structural)]
pub struct FileSnapshot {
    /// Length in bytes.
    pub size: u64,
    /// Nanoseconds from the Unix epoch to the last modification, negative
    /// before it.
    pub modified_nanos: i128,
}

/// What one check found.
#[derive(Clone, Copy, Debug, PartialEq, Eq, Structural)]
pub enum Observation {
    /// The metadata was read.
    Seen(FileSnapshot),
    /// The file is gone or its metadata could not be read.
    Unreadable,
}

/// The detector's judgement of the file so far.
#[derive(Clone, Copy, Debug, PartialEq, Eq, Structural)]
pub enum Stability {
    /// Not yet at rest: check again after the polling interval.
    Pending,
    /// At rest: wait the settle buffer, then use the file.
    Reached,
    /// Never at rest within the maximum number of checks.
    TimedOut,
    /// A check could not read the file.
    Unreadable,
}

impl Stability {
    /// The seconds to wait after the check that gave this judgement: the
    /// polling interval after a check that left the file pending or ended
    /// the window, the settle buffer before a file at rest is used, and
    /// nothing after a check that could not read the file.
    pub open spec fn wait_secs_of(self) -> u64 {
        match self {
            Stability::Pending => POLL_INTERVAL_SECS,
            Stability::Reached => SETTLE_BUFFER_SECS,
            Stability::TimedOut => POLL_INTERVAL_SECS,
            Stability::Unreadable => 0,
        }
    }

    /// The seconds to wait after the check that gave this judgement.
    pub fn wait_secs(self) -> (secs: u64)
        ensures
            secs == self.wait_secs_of(),
    {
        match self {
            Stability::Pending => POLL_INTERVAL_SECS,
            Stability::Reached => SETTLE_BUFFER_SECS,
            Stability::TimedOut => POLL_INTERVAL_SECS,
            Stability::Unreadable => 0,
        }
    }
}

/// The detector as contracts speak of it.
pub struct Watch {
    pub status: Stability,
    /// Checks made so far.
    pub checks: nat,
    /// Unchanged checks in a row up to the last one.
    pub stable: nat,
    /// What the last check saw.
    pub last: Option<FileSnapshot>,
}

/// The detector before the first check.
pub open spec fn watch_start() -> Watch {
    Watch { status: Stability::Pending, checks: 0, stable: 0, last: None }
}

/// Whether a check that saw `now` found the file unchanged and not empty.
pub open spec fn unchanged(last: Option<FileSnapshot>, now: FileSnapshot) -> bool {
    last == Some(now) && now.size > 0
}

/// The detector after one more check. A judgement other than `Pending` is
/// final.
pub open spec fn watch_next(w: Watch, obs: Observation) -> Watch {
    if w.status != Stability::Pending {
        w
    } else {
        match obs {
            Observation::Unreadable => Watch {
                status: Stability::Unreadable,
                checks: w.checks + 1,
                stable: 0,
                last: None,
            },
            Observation::Seen(now) => {
                let stable = if unchanged(w.last, now) {
                    w.stable + 1
                } else {
                    0
                };
                let checks = w.checks + 1;
                Watch {
                    status: if stable >= REQUIRED_STABLE_CHECKS {
                        Stability::Reached
                    } else if checks >= MAX_CHECKS {
                        Stability::TimedOut
                    } else {
                        Stability::Pending
                    },
                    checks,
                    stable,
                    last: Some(now),
                }
            },
        }
    }
}

/// The detector after the checks of `trace`, in order.
pub open spec fn watch_after(trace: Seq<Observation>) -> Watch
    decreases trace.len(),
{
    if trace.len() == 0 {
        watch_start()
    } else {
        watch_next(watch_after(trace.drop_last()), trace.last())
    }
}

/// The state machine that judges when a file is complete.
#[derive(Clone, Copy, Debug)]
pub struct StabilityDetector {
    status: Stability,
    checks: u32,
    stable: u32,
    last: Option<FileSnapshot>,
}

impl View for StabilityDetector {
    type V = Watch;

    closed spec fn view(&self) -> Watch {
        Watch {
            status: self.status,
            checks: self.checks as nat,
            stable: self.stable as nat,
            last: self.last,
        }
    }
}

impl StabilityDetector {
    #[verifier::type_invariant]
    spec fn well_formed(self) -> bool {
        self.status == Stability::Pending ==> self.checks < MAX_CHECKS && self.stable
            < REQUIRED_STABLE_CHECKS
    }

    /// A detector that has made no check yet.
    pub fn new() -> (detector: Self)
        ensures
            detector@ == watch_start(),
    {
        StabilityDetector { status: Stability::Pending, checks: 0, stable: 0, last: None }
    }

    /// The judgement so far.
    pub fn status(&self) -> (status: Stability)
        ensures
            status == self@.status,
    {
        self.status
    }

    /// Takes in what one more check found and judges anew.
    pub fn observe(&mut self, obs: Observation) -> (status: Stability)
        ensures
            final(self)@ == watch_next(old(self)@, obs),
            status == final(self)@.status,
    {
        proof {
            use_type_invariant(&*self);
        }
        if self.status != Stability::Pending {
            return self.status;
        }
        match obs {
            Observation::Unreadable => {
                *self = StabilityDetector {
                    status: Stability::Unreadable,
                    checks: self.checks + 1,
                    stable: 0,
                    last: None,
                };
            },
            Observation::Seen(now) => {
                let same = match self.last {
                    Some(before) => before == now,
                    None => false,
                };
                let stable: u32 = if same && now.size > 0 {
                    self.stable + 1
                } else {
                    0
                };
                let checks: u32 = self.checks + 1;
                let status = if stable >= REQUIRED_STABLE_CHECKS {
                    Stability::Reached
                } else if checks >= MAX_CHECKS {
                    Stability::TimedOut
                } else {
                    Stability::Pending
                };
                *self = StabilityDetector { status, checks, stable, last: Some(now) };
            },
        }
        self.status
    }
}

/// Whether `obs` read the file and found it not empty.
pub open spec fn seen_non_empty(obs: Observation) -> bool {
    obs matches Observation::Seen(s) && s.size > 0
}

/// Whether the last `k + 1` checks of `trace` saw one and the same
/// snapshot, of non-zero size: the file was unchanged at `k` checks in a
/// row.
pub open spec fn at_rest_for(trace: Seq<Observation>, k: nat) -> bool {
    &&& trace.len() > k
    &&& seen_non_empty(trace.last())
    &&& forall|j: int| trace.len() - 1 - k <= j < trace.len() ==> #[trigger] trace[j] == trace.last()
}

/// The number of checks in a row, up to the last of `trace`, that found
/// the file unchanged and not empty.
pub open spec fn quiet_run(trace: Seq<Observation>) -> nat
    decreases trace.len(),
{
    if trace.len() < 2 {
        0
    } else if trace.last() == trace[trace.len() - 2] && seen_non_empty(trace.last()) {
        quiet_run(trace.drop_last()) + 1
    } else {
        0
    }
}

/// The quiet run is at least `k` exactly where the last `k + 1` checks
/// agree.
pub proof fn lemma_quiet_run_at_rest(trace: Seq<Observation>, k: nat)
    requires
        k >= 1,
    ensures
        quiet_run(trace) >= k <==> at_rest_for(trace, k),
    decreases k,
{
    let n = trace.len() as int;
    if n < 2 {
    } else {
        let front = trace.drop_last();
        if trace.last() == trace[n - 2] && seen_non_empty(trace.last()) {
            if k == 1 {
                assert(at_rest_for(trace, 1));
            } else {
                lemma_quiet_run_at_rest(front, (k - 1) as nat);
                if at_rest_for(front, (k - 1) as nat) {
                    assert forall|j: int| n - 1 - k <= j < n implies #[trigger] trace[j]
                        == trace.last() by {
                        if j < n - 1 {
                            assert(front[j] == front.last());
                        }
                    }
                }
                if at_rest_for(trace, k) {
                    assert forall|j: int| front.len() - 1 - (k - 1) <= j < front.len() implies
                        #[trigger] front[j] == front.last() by {
                        assert(trace[j] == trace.last());
                    }
                }
            }
        } else {
            if at_rest_for(trace, k) {
                assert(trace[n - 2] == trace.last());
            }
        }
    }
}

/// While the detector is pending it has counted every check, holds the
/// quiet run of the trace, and remembers what the last check saw.
pub proof fn lemma_pending_watch(trace: Seq<Observation>)
    requires
        watch_after(trace).status == Stability::Pending,
    ensures
        watch_after(trace).checks == trace.len(),
        watch_after(trace).stable == quiet_run(trace),
        trace.len() > 0 ==> trace.last() == Observation::Seen(watch_after(trace).last->0)
            && watch_after(trace).last is Some,
        trace.len() == 0 ==> watch_after(trace).last is None,
    decreases trace.len(),
{
    if trace.len() > 0 {
        let front = trace.drop_last();
        lemma_pending_watch(front);
        if front.len() > 0 {
            assert(front.last() == trace[trace.len() - 2]);
        }
    }
}

/// The detector judges the file complete at the first check at which it
/// had been unchanged, and not empty, for the required number of checks in
/// a row, and at no earlier one: if it was pending before the last check
/// of `trace`, it is `Reached` after it exactly where the last sixteen
/// checks saw the same snapshot.
pub proof fn lemma_reached_exactly_at_rest(trace: Seq<Observation>)
    requires
        trace.len() > 0,
        watch_after(trace.drop_last()).status == Stability::Pending,
    ensures
        watch_after(trace).status == Stability::Reached <==> at_rest_for(
            trace,
            REQUIRED_STABLE_CHECKS as nat,
        ),
{
    let front = trace.drop_last();
    let n = trace.len() as int;
    lemma_pending_watch(front);
    lemma_quiet_run_at_rest(trace, REQUIRED_STABLE_CHECKS as nat);
    if front.len() > 0 {
        assert(front.last() == trace[n - 2]);
    }
    match trace.last() {
        Observation::Unreadable => {},
        Observation::Seen(now) => {
            if unchanged(watch_after(front).last, now) {
                assert(quiet_run(trace) == quiet_run(front) + 1);
            } else {
                assert(quiet_run(trace) == 0);
            }
        },
    }
}

/// A judgement of `Reached` was preceded by sixteen checks in a row that
/// saw the same snapshot of non-zero size.
pub proof fn lemma_reached_only_after_rest(trace: Seq<Observation>)
    requires
        watch_after(trace).status == Stability::Reached,
    ensures
        exists|n: int|
            REQUIRED_STABLE_CHECKS < n <= trace.len() && at_rest_for(
                #[trigger] trace.take(n),
                REQUIRED_STABLE_CHECKS as nat,
            ),
    decreases trace.len(),
{
    let front = trace.drop_last();
    if watch_after(front).status == Stability::Pending {
        lemma_reached_exactly_at_rest(trace);
        assert(trace.take(trace.len() as int) =~= trace);
    } else {
        lemma_reached_only_after_rest(front);
        let n = choose|n: int|
            REQUIRED_STABLE_CHECKS < n <= front.len() && at_rest_for(
                #[trigger] front.take(n),
                REQUIRED_STABLE_CHECKS as nat,
            );
        assert(trace.take(n) =~= front.take(n));
    }
}

/// Whether every check read the file and found a size other than that of
/// the check before.
pub open spec fn keeps_changing(trace: Seq<Observation>) -> bool {
    &&& forall|i: int| 0 <= i < trace.len() ==> #[trigger] trace[i] is Seen
    &&& forall|i: int| 1 <= i < trace.len() ==> (#[trigger] trace[i])->Seen_0.size != trace[i - 1]->Seen_0.size
}

/// A file whose size changes from each check to the next is never judged
/// complete: the detector stays pending and times out at the check that
/// ends the maximum window.
pub proof fn lemma_times_out_while_changing(trace: Seq<Observation>)
    requires
        keeps_changing(trace),
    ensures
        watch_after(trace).status == (if trace.len() >= MAX_CHECKS {
            Stability::TimedOut
        } else {
            Stability::Pending
        }),
    decreases trace.len(),
{
    if trace.len() > 0 {
        let front = trace.drop_last();
        let n = trace.len() as int;
        assert(keeps_changing(front)) by {
            assert forall|i: int| 0 <= i < front.len() implies #[trigger] front[i] is Seen by {
                assert(trace[i] is Seen);
            }
            assert forall|i: int| 1 <= i < front.len() implies (#[trigger] front[i])->Seen_0.size
                != front[i - 1]->Seen_0.size by {
                assert(trace[i] is Seen);
            }
        }
        lemma_times_out_while_changing(front);
        if front.len() < MAX_CHECKS {
            lemma_pending_watch(front);
            assert(trace[n - 1] is Seen);
            if front.len() > 0 {
                assert(front.last() == trace[n - 2]);
                assert(trace[n - 1]->Seen_0.size != trace[n - 2]->Seen_0.size);
            }
        }
    }
}

/// The seconds that a watch has waited when the checks of `trace` are
/// made: the first delay, and after each check that was made while the
/// file was pending, what the judgement of that check asks for. No check
/// is made, and nothing waited, once a judgement is final.
pub open spec fn waited_secs(trace: Seq<Observation>) -> nat
    decreases trace.len(),
{
    if trace.len() == 0 {
        INITIAL_DELAY_SECS as nat
    } else if watch_after(trace.drop_last()).status == Stability::Pending {
        waited_secs(trace.drop_last()) + watch_after(trace).status.wait_secs_of() as nat
    } else {
        waited_secs(trace.drop_last())
    }
}

/// The detector makes no more than the maximum number of checks: its
/// count never passes it, and at that count the judgement is final.
pub proof fn lemma_checks_are_bounded(trace: Seq<Observation>)
    ensures
        watch_after(trace).checks <= MAX_CHECKS,
        watch_after(trace).checks <= trace.len(),
        watch_after(trace).checks == MAX_CHECKS ==> watch_after(trace).status
            != Stability::Pending,
    decreases trace.len(),
{
    if trace.len() > 0 {
        lemma_checks_are_bounded(trace.drop_last());
    }
}

/// While the file is pending the watch has waited the first delay and one
/// polling interval for each check.
pub proof fn lemma_waits_while_pending(trace: Seq<Observation>)
    requires
        watch_after(trace).status == Stability::Pending,
    ensures
        waited_secs(trace) == INITIAL_DELAY_SECS + POLL_INTERVAL_SECS * trace.len(),
        trace.len() < MAX_CHECKS,
    decreases trace.len(),
{
    lemma_pending_watch(trace);
    if trace.len() > 0 {
        lemma_waits_while_pending(trace.drop_last());
    }
}

/// A watch that times out has waited the first delay and one polling
/// interval for each check of the maximum window, the last check
/// included: four hours and ten seconds.
pub proof fn lemma_waits_of_a_timeout(trace: Seq<Observation>)
    requires
        watch_after(trace).status == Stability::TimedOut,
    ensures
        waited_secs(trace) == INITIAL_DELAY_SECS + POLL_INTERVAL_SECS * MAX_CHECKS,
        waited_secs(trace) == 14410,
        trace.len() >= MAX_CHECKS,
    decreases trace.len(),
{
    let front = trace.drop_last();
    if watch_after(front).status == Stability::Pending {
        lemma_waits_while_pending(front);
        lemma_pending_watch(front);
    } else {
        lemma_waits_of_a_timeout(front);
    }
}

/// No watch waits longer than a full window of polling and one settle
/// buffer, whatever the checks find.
pub proof fn lemma_waits_are_bounded(trace: Seq<Observation>)
    ensures
        waited_secs(trace) <= INITIAL_DELAY_SECS + POLL_INTERVAL_SECS * MAX_CHECKS
            + SETTLE_BUFFER_SECS,
        watch_after(trace).status == Stability::Pending ==> waited_secs(trace)
            == INITIAL_DELAY_SECS + POLL_INTERVAL_SECS * trace.len(),
    decreases trace.len(),
{
    if trace.len() > 0 {
        let front = trace.drop_last();
        lemma_waits_are_bounded(front);
        if watch_after(front).status == Stability::Pending {
            lemma_waits_while_pending(front);
        }
        if watch_after(trace).status == Stability::Pending {
            lemma_waits_while_pending(trace);
        }
    }
}

/// The required number of checks at the polling interval covers thirty
/// seconds of rest, and the maximum number of checks four hours.
pub proof fn lemma_windows()
    ensures
        POLL_INTERVAL_SECS * REQUIRED_STABLE_CHECKS >= 30,
        POLL_INTERVAL_SECS * MAX_CHECKS == 4 * 60 * 60,
{
}

} // verus!

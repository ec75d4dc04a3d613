use vstd::prelude::*;
use crate::abort::{Terminator, set_once};
use crate::error::VideoError;
use crate::text::{contains, contains_text};

verus! {

/// Seconds that must pass between two rebalances of the permit pool.
pub const CHECK_INTERVAL_SECS: u64 = 5;

/// The text by which the remote service reports that it is at its
/// concurrent-call ceiling.
pub const CONGESTION_TEXT: &'static str = "algorithm hit max number of active calls per session";

/// What precedes the cause in the message of a job-fatal batch failure.
pub const BATCH_FAILURE_PREFIX: &'static str = "algorithm thread failed, ending early: \n";

/// The permit pool as the controller sees it. The pool has `ceiling` slots,
/// of which the controller itself holds `withheld`; the rest are the
/// permits that workers may hold.
pub struct PermitView {
    pub ceiling: nat,
    pub withheld: nat,
    pub congested: bool,
    pub last_rebalance: nat,
}

impl PermitView {
    /// The permits open to workers.
    pub open spec fn outstanding(self) -> int {
        self.ceiling - self.withheld
    }

    /// At least one and at most `ceiling` permits are open to workers.
    pub open spec fn within_bounds(self) -> bool {
        1 <= self.outstanding() <= self.ceiling
    }
}

/// What the caller does to the real permit pool after a rebalance.
#[derive(PartialEq, Eq, Structural)]
pub enum PermitAction {
    /// Nothing.
    Hold,
    /// Acquire one permit and keep it: concurrency drops by one.
    Withdraw,
    /// Release one kept permit: concurrency grows by one.
    Restore,
}

/// The pool after a rebalance at time `now`, and what to do to the real pool.
pub open spec fn rebalance_spec(s: PermitView, now: nat) -> (PermitView, PermitAction) {
    if now < s.last_rebalance + CHECK_INTERVAL_SECS {
        (s, PermitAction::Hold)
    } else if s.congested {
        if s.outstanding() > 1 {
            (
                PermitView { withheld: s.withheld + 1, congested: false, last_rebalance: now, ..s },
                PermitAction::Withdraw,
            )
        } else {
            (PermitView { congested: false, last_rebalance: now, ..s }, PermitAction::Hold)
        }
    } else if s.withheld > 0 {
        (
            PermitView {
                withheld: (s.withheld - 1) as nat,
                congested: false,
                last_rebalance: now,
                ..s
            },
            PermitAction::Restore,
        )
    } else {
        (PermitView { congested: false, last_rebalance: now, ..s }, PermitAction::Hold)
    }
}

/// An event that reaches the controller.
pub enum PermitEvent {
    Slowdown,
    Rebalance(nat),
}

/// The pool after one event.
pub open spec fn permit_step(s: PermitView, e: PermitEvent) -> PermitView {
    match e {
        PermitEvent::Slowdown => PermitView { congested: true, ..s },
        PermitEvent::Rebalance(now) => rebalance_spec(s, now).0,
    }
}

/// The pool after a sequence of events, in order.
pub open spec fn permit_run(s: PermitView, events: Seq<PermitEvent>) -> PermitView
    decreases events.len(),
{
    if events.len() == 0 {
        s
    } else {
        permit_step(permit_run(s, events.drop_last()), events.last())
    }
}

/// What a worker does after its processing function failed.
#[derive(PartialEq, Eq, Structural)]
pub enum FailureStep {
    /// The service was congested: run the same batch again.
    RetrySameBatch,
    /// The failure is fatal to the job: give the batch up.
    Abandon,
}

/// The message recorded for a job-fatal batch failure.
pub open spec fn batch_failure_message(cause: Seq<char>) -> Seq<char> {
    BATCH_FAILURE_PREFIX@ + cause
}

/// The state shared by the workers of one job: the permit controller, the
/// abort signal and the job's read-only data.
pub struct Threadable<J> {
    ceiling: u64,
    withheld: u64,
    congested: bool,
    last_rebalance: u64,
    termination_signal: Terminator,
    readonly_data: J,
}

impl<J> Threadable<J> {
    /// The permit pool.
    pub closed spec fn permits(&self) -> PermitView {
        PermitView {
            ceiling: self.ceiling as nat,
            withheld: self.withheld as nat,
            congested: self.congested,
            last_rebalance: self.last_rebalance as nat,
        }
    }

    /// The abort signal.
    pub closed spec fn signal(&self) -> Option<VideoError> {
        self.termination_signal@
    }

    /// The read-only data.
    pub closed spec fn data(&self) -> J {
        self.readonly_data
    }

    pub closed spec fn wf(&self) -> bool {
        self.withheld < self.ceiling
    }

    /// Shared state for a job whose pool has `max_th` slots, of which
    /// `starting_th` (taken into `1..=max_th`) are open at first; the
    /// caller creates the real pool with `max_th` slots and acquires
    /// `withheld()` of them for the controller. Time starts at zero.
    pub fn create(starting_th: isize, max_th: isize, data: J) -> (t: Threadable<J>)
        requires
            max_th >= 1,
        ensures
            t.wf(),
            t.permits() == (PermitView {
                ceiling: max_th as nat,
                withheld: (max_th - (if starting_th < 1 {
                    1
                } else if starting_th > max_th {
                    max_th
                } else {
                    starting_th
                })) as nat,
                congested: false,
                last_rebalance: 0,
            }),
            t.signal() is None,
            t.data() == data,
    {
        let start = if starting_th < 1 {
            1
        } else if starting_th > max_th {
            max_th
        } else {
            starting_th
        };
        Threadable {
            ceiling: max_th as u64,
            withheld: (max_th - start) as u64,
            congested: false,
            last_rebalance: 0,
            termination_signal: Terminator::create(),
            readonly_data: data,
        }
    }

    /// The permits the controller holds.
    pub fn withheld(&self) -> (r: u64)
        ensures
            r == self.permits().withheld,
    {
        self.withheld
    }

    /// The permits open to workers.
    pub fn outstanding(&self) -> (r: u64)
        requires
            self.wf(),
        ensures
            r == self.permits().outstanding(),
    {
        self.ceiling - self.withheld
    }

    /// The read-only data of the job.
    pub fn arc_data(&self) -> (r: &J)
        ensures
            *r == self.data(),
    {
        &self.readonly_data
    }

    /// Records that the service reported congestion since the last rebalance.
    pub fn slow_down(&mut self)
        ensures
            final(self).permits() == permit_step(old(self).permits(), PermitEvent::Slowdown),
            final(self).signal() == old(self).signal(),
            final(self).data() == old(self).data(),
            final(self).wf() == old(self).wf(),
    {
        self.congested = true;
    }

    /// Adjusts the pool at time `now` (seconds since the job began): once
    /// the check interval has passed, one permit is withdrawn after
    /// congestion (never the last one) and one is restored otherwise (never
    /// beyond the ceiling); the congestion flag is then cleared.
    pub fn threading_strategizer(&mut self, now: u64) -> (r: PermitAction)
        requires
            old(self).wf(),
        ensures
            (final(self).permits(), r) == rebalance_spec(old(self).permits(), now as nat),
            final(self).signal() == old(self).signal(),
            final(self).data() == old(self).data(),
            final(self).wf(),
    {
        if now < CHECK_INTERVAL_SECS || now - CHECK_INTERVAL_SECS < self.last_rebalance {
            return PermitAction::Hold;
        }
        self.last_rebalance = now;
        let action = if self.congested {
            if self.ceiling - self.withheld > 1 {
                self.withheld = self.withheld + 1;
                PermitAction::Withdraw
            } else {
                PermitAction::Hold
            }
        } else if self.withheld > 0 {
            self.withheld = self.withheld - 1;
            PermitAction::Restore
        } else {
            PermitAction::Hold
        };
        self.congested = false;
        action
    }

    /// The abort signal's error, if any.
    pub fn check_term_signal(&self) -> (r: &Option<VideoError>)
        ensures
            *r == self.signal(),
    {
        self.termination_signal.check_signal()
    }

    /// Attempts to set the abort signal; the first error stays.
    pub fn set_term_signal(&mut self, message: VideoError)
        ensures
            final(self).signal() == set_once(old(self).signal(), message),
            final(self).permits() == old(self).permits(),
            final(self).data() == old(self).data(),
            final(self).wf() == old(self).wf(),
    {
        self.termination_signal.set_signal(message);
    }

    /// Takes the abort signal's error out at the end of the job.
    pub fn extract_term_signal(self) -> (r: Option<VideoError>)
        ensures
            r == self.signal(),
    {
        self.termination_signal.get_signal()
    }

    /// The first step of an attempt on a batch at time `now`: rebalance the
    /// pool, then say whether the batch may run, which it may not once the
    /// job is aborted.
    pub fn begin_attempt(&mut self, now: u64) -> (r: (PermitAction, bool))
        requires
            old(self).wf(),
        ensures
            (final(self).permits(), r.0) == rebalance_spec(old(self).permits(), now as nat),
            r.1 == (old(self).signal() is None),
            final(self).signal() == old(self).signal(),
            final(self).data() == old(self).data(),
            final(self).wf(),
    {
        let action = self.threading_strategizer(now);
        let go = self.check_term_signal().is_none();
        (action, go)
    }

    /// The step after the processing function failed with `message`:
    /// congestion asks for a slowdown and a retry of the same batch; any
    /// other failure is recorded as the job's error (unless one is already
    /// recorded, which then stays) and the batch is given up.
    pub fn after_failure(&mut self, message: &str) -> (r: FailureStep)
        ensures
            contains_text(message@, CONGESTION_TEXT@) ==> r == FailureStep::RetrySameBatch
                && final(self).permits() == permit_step(old(self).permits(), PermitEvent::Slowdown)
                && final(self).signal() == old(self).signal(),
            !contains_text(message@, CONGESTION_TEXT@) ==> r == FailureStep::Abandon
                && final(self).permits() == old(self).permits() && match old(self).signal() {
                Some(e) => final(self).signal() == Some(e),
                None => final(self).signal() matches Some(e) && e@ == batch_failure_message(
                    message@,
                ),
            },
            final(self).data() == old(self).data(),
            final(self).wf() == old(self).wf(),
    {
        if contains(message, CONGESTION_TEXT) {
            self.slow_down();
            FailureStep::RetrySameBatch
        } else {
            let mut text = String::from_str(BATCH_FAILURE_PREFIX);
            text.append(message);
            self.set_term_signal(VideoError::MsgError(text));
            FailureStep::Abandon
        }
    }
}

proof fn lemma_permit_step_bounds(s: PermitView, e: PermitEvent)
    requires
        s.within_bounds(),
    ensures
        permit_step(s, e).within_bounds(),
        permit_step(s, e).ceiling == s.ceiling,
{
}

/// Whatever slowdown requests and rebalances arrive, in whatever order and
/// at whatever times, the permits open to workers stay between one and the
/// ceiling, and the ceiling does not move.
pub proof fn lemma_permits_stay_in_bounds(s: PermitView, events: Seq<PermitEvent>)
    requires
        s.within_bounds(),
    ensures
        permit_run(s, events).within_bounds(),
        permit_run(s, events).ceiling == s.ceiling,
    decreases events.len(),
{
    if events.len() > 0 {
        lemma_permits_stay_in_bounds(s, events.drop_last());
        lemma_permit_step_bounds(permit_run(s, events.drop_last()), events.last());
    }
}

} // verus!

use vstd::prelude::*;
use crate::error::VideoError;
use crate::text::{decimal, decimal_text};

verus! {

/// The default time budget of a job, in seconds.
pub const MAX_TIME_SECS: u64 = 3000;

/// The default time before the watchdog starts to project, in seconds.
pub const WARMUP_SECS: u64 = 60;

pub const BUDGET_MESSAGE_HEAD: &'static str = "watchdog thread detected.\nMax algo run time: ";

pub const BUDGET_MESSAGE_MIDDLE: &'static str = "s\nAnticipated runtime: ";

pub const BUDGET_MESSAGE_TAIL: &'static str = "s\nTerminated early to avoid expense";

pub const CLOCK_FAILURE_PREFIX: &'static str = "failed to check time: ";

/// What the watchdog receives: a batch finished, or the job is over.
#[derive(PartialEq, Eq, Structural)]
pub enum WatchdogEvent {
    Success,
    Terminate,
}

/// What the watchdog loop does after an event.
pub enum WatchdogStep {
    /// Wait for the next event.
    Continue,
    /// The job is over: leave the loop.
    Stop,
    /// The budget will be exceeded: set the abort signal to this error and
    /// leave the loop.
    Abort(VideoError),
}

/// The watchdog's state.
pub struct WatchdogView {
    pub total: nat,
    pub finished: nat,
    pub warmup: nat,
    pub budget: nat,
}

/// The projected run time of the whole job, in whole seconds, when
/// `finished` of `total` batches took `elapsed` seconds: the remaining
/// batches at the observed rate, plus the time spent so far.
pub open spec fn projected_secs(total: nat, finished: nat, elapsed: nat) -> nat
    recommends
        finished > 0,
{
    (total * elapsed / finished) as nat
}

/// Whether a completion at `elapsed` seconds trips the watchdog: past the
/// warm-up, the projection (exactly, before rounding) reaches the budget.
pub open spec fn trips(s: WatchdogView, elapsed: nat) -> bool {
    elapsed > s.warmup && s.total * elapsed >= s.budget * s.finished
}

/// The message of the budget error.
pub open spec fn budget_message(budget: nat, projected: nat) -> Seq<char> {
    BUDGET_MESSAGE_HEAD@ + decimal(budget) + BUDGET_MESSAGE_MIDDLE@ + decimal(projected)
        + BUDGET_MESSAGE_TAIL@
}

/// The watchdog of one job: it counts finished batches and aborts the job
/// once the projected run time reaches the budget.
pub struct WatchdogComms {
    total_jobs: u64,
    finished_jobs: u64,
    warmup_secs: u64,
    budget_secs: u64,
}

impl View for WatchdogComms {
    type V = WatchdogView;

    closed spec fn view(&self) -> WatchdogView {
        WatchdogView {
            total: self.total_jobs as nat,
            finished: self.finished_jobs as nat,
            warmup: self.warmup_secs as nat,
            budget: self.budget_secs as nat,
        }
    }
}

impl WatchdogComms {
    /// A watchdog for a job of `total_jobs` batches.
    pub fn create(total_jobs: usize, warmup_secs: u64, budget_secs: u64) -> (w: WatchdogComms)
        ensures
            w@ == (WatchdogView {
                total: total_jobs as nat,
                finished: 0,
                warmup: warmup_secs as nat,
                budget: budget_secs as nat,
            }),
    {
        WatchdogComms { total_jobs: total_jobs as u64, finished_jobs: 0, warmup_secs, budget_secs }
    }

    /// The event a worker posts when its batch succeeded.
    pub fn send_success_signal(&self) -> (e: WatchdogEvent)
        ensures
            e == WatchdogEvent::Success,
    {
        WatchdogEvent::Success
    }

    /// The batches counted so far.
    pub fn finished_jobs(&self) -> (r: u64)
        ensures
            r == self@.finished,
    {
        self.finished_jobs
    }

    /// Counts one finished batch, `elapsed_secs` after the job began; returns
    /// the budget error if the watchdog trips.
    pub fn record_completion(&mut self, elapsed_secs: u64) -> (r: Option<VideoError>)
        requires
            old(self)@.finished < u64::MAX,
        ensures
            final(self)@ == (WatchdogView { finished: old(self)@.finished + 1, ..old(self)@ }),
            r is Some <==> trips(final(self)@, elapsed_secs as nat),
            r matches Some(e) ==> e@ == budget_message(
                final(self)@.budget,
                projected_secs(final(self)@.total, final(self)@.finished, elapsed_secs as nat),
            ),
    {
        self.finished_jobs = self.finished_jobs + 1;
        proof {
            lemma_product_fits(self.total_jobs, elapsed_secs);
            lemma_product_fits(self.budget_secs, self.finished_jobs);
        }
        let run = (self.total_jobs as u128) * (elapsed_secs as u128);
        let limit = (self.budget_secs as u128) * (self.finished_jobs as u128);
        if elapsed_secs > self.warmup_secs && run >= limit {
            let projected = run / (self.finished_jobs as u128);
            let mut text = String::from_str(BUDGET_MESSAGE_HEAD);
            text.append(decimal_text(self.budget_secs as u128).as_str());
            text.append(BUDGET_MESSAGE_MIDDLE);
            text.append(decimal_text(projected).as_str());
            text.append(BUDGET_MESSAGE_TAIL);
            Some(VideoError::MsgError(text))
        } else {
            None
        }
    }

    /// The decision of the watchdog loop on an event that arrived
    /// `elapsed_secs` after the job began.
    pub fn on_event(&mut self, event: WatchdogEvent, elapsed_secs: u64) -> (r: WatchdogStep)
        requires
            old(self)@.finished < u64::MAX,
        ensures
            event == WatchdogEvent::Terminate ==> r is Stop && final(self)@ == old(self)@,
            event == WatchdogEvent::Success ==> final(self)@ == (WatchdogView {
                finished: old(self)@.finished + 1,
                ..old(self)@
            }) && (r is Abort <==> trips(final(self)@, elapsed_secs as nat)) && (r is Continue
                <==> !trips(final(self)@, elapsed_secs as nat)) && (r matches WatchdogStep::Abort(e)
                ==> e@ == budget_message(
                final(self)@.budget,
                projected_secs(final(self)@.total, final(self)@.finished, elapsed_secs as nat),
            )),
    {
        match event {
            WatchdogEvent::Terminate => WatchdogStep::Stop,
            WatchdogEvent::Success => match self.record_completion(elapsed_secs) {
                Some(e) => WatchdogStep::Abort(e),
                None => WatchdogStep::Continue,
            },
        }
    }
}

/// The job-fatal error raised when the watchdog cannot read the clock.
pub fn clock_failure(detail: &str) -> (e: VideoError)
    ensures
        e@ == CLOCK_FAILURE_PREFIX@ + detail@,
{
    let mut text = String::from_str(CLOCK_FAILURE_PREFIX);
    text.append(detail);
    VideoError::MsgError(text)
}

proof fn lemma_product_fits(a: u64, b: u64)
    ensures
        (a as int) * (b as int) <= u128::MAX,
{
    assert((a as int) * (b as int) <= (u64::MAX as int) * (u64::MAX as int)) by (nonlinear_arith)
        requires
            a <= u64::MAX,
            b <= u64::MAX,
            0 <= a,
            0 <= b,
    ;
}

/// Before the warm-up has passed the watchdog never trips, whatever the
/// counts.
pub proof fn lemma_no_trip_during_warmup(s: WatchdogView, elapsed: nat)
    requires
        elapsed <= s.warmup,
    ensures
        !trips(s, elapsed),
{
}

} // verus!

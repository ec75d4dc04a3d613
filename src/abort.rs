use vstd::prelude::*;
use crate::error::VideoError;

verus! {

/// One write attempt on a set-once signal: the first error stays, every later
/// attempt is a no-op.
pub open spec fn set_once(current: Option<VideoError>, attempt: VideoError) -> Option<VideoError> {
    match current {
        Some(e) => Some(e),
        None => Some(attempt),
    }
}

/// The signal after a sequence of write attempts, in the order they happened.
pub open spec fn after_attempts(start: Option<VideoError>, attempts: Seq<VideoError>) -> Option<VideoError>
    decreases attempts.len(),
{
    if attempts.len() == 0 {
        start
    } else {
        set_once(after_attempts(start, attempts.drop_last()), attempts.last())
    }
}

/// The shared abort signal of a job: an optional error that, once set, is
/// never overwritten.
pub struct Terminator {
    signal: Option<VideoError>,
}

impl View for Terminator {
    type V = Option<VideoError>;

    closed spec fn view(&self) -> Option<VideoError> {
        self.signal
    }
}

impl Terminator {
    /// A signal that holds no error.
    pub fn create() -> (t: Terminator)
        ensures
            t@ is None,
    {
        Terminator { signal: None }
    }

    /// The error held, if any.
    pub fn check_signal(&self) -> (r: &Option<VideoError>)
        ensures
            *r == self@,
    {
        &self.signal
    }

    /// Whether an error is held.
    pub fn is_set(&self) -> (r: bool)
        ensures
            r == self@ is Some,
    {
        self.signal.is_some()
    }

    /// Attempts to record `error`; it is kept only if no error was held.
    /// Returns whether this attempt was the one recorded.
    pub fn set_signal(&mut self, error: VideoError) -> (written: bool)
        ensures
            final(self)@ == set_once(old(self)@, error),
            written == (old(self)@ is None),
    {
        if self.signal.is_none() {
            self.signal = Some(error);
            true
        } else {
            false
        }
    }

    /// Takes the held error out of the signal.
    pub fn get_signal(self) -> (r: Option<VideoError>)
        ensures
            r == self@,
    {
        self.signal
    }
}

/// Whatever the number of failures reported and whatever their order, the
/// signal holds exactly the first error attempted, and once set no later
/// attempt replaces it.
pub proof fn lemma_first_error_wins(attempts: Seq<VideoError>)
    requires
        attempts.len() > 0,
    ensures
        after_attempts(None, attempts) == Some(attempts[0]),
        forall|k: int|
            1 <= k <= attempts.len() ==> #[trigger] after_attempts(None, attempts.subrange(0, k))
                == Some(attempts[0]),
    decreases attempts.len(),
{
    assert forall|k: int| 1 <= k <= attempts.len() implies #[trigger] after_attempts(
        None,
        attempts.subrange(0, k),
    ) == Some(attempts[0]) by {
        lemma_prefix_keeps_first(attempts, k);
    }
    assert(attempts.subrange(0, attempts.len() as int) =~= attempts);
}

proof fn lemma_prefix_keeps_first(attempts: Seq<VideoError>, k: int)
    requires
        1 <= k <= attempts.len(),
    ensures
        after_attempts(None, attempts.subrange(0, k)) == Some(attempts[0]),
    decreases k,
{
    let p = attempts.subrange(0, k);
    if k == 1 {
        assert(p.drop_last() =~= Seq::<VideoError>::empty());
        assert(after_attempts(None, p.drop_last()) == None::<VideoError>);
        assert(p.last() == attempts[0]);
    } else {
        assert(p.drop_last() =~= attempts.subrange(0, k - 1));
        lemma_prefix_keeps_first(attempts, k - 1);
        assert(after_attempts(None, p.drop_last()) == Some(attempts[0]));
    }
}

} // verus!

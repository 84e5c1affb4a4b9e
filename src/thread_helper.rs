//! The shutdown coordinator: one flag, shared by every loop, that goes from
//! false to true once and never back.
use vstd::prelude::*;
use std::sync::atomic::{AtomicBool, Ordering};
use std::sync::Arc;

verus! {

/// Why a thread could not be shut down.
#[derive(Debug, PartialEq, Eq, Structural)]
pub enum ThreadError {
    /// Another caller already started the shutdown: wait for it instead.
    AlreadyShuttingDown,
    ThreadError,
}

/// The outcome of a request to start shutting down, given whether the flag
/// was already set when the request swapped it.
pub open spec fn start_outcome(was_set: bool) -> Result<(), ThreadError> {
    if was_set {
        Err(ThreadError::AlreadyShuttingDown)
    } else {
        Ok(())
    }
}

/// Turns the flag's previous value into the outcome of a start request.
pub fn shutdown_verdict(was_set: bool) -> (r: Result<(), ThreadError>)
    ensures
        r == start_outcome(was_set),
{
    if was_set {
        Err(ThreadError::AlreadyShuttingDown)
    } else {
        Ok(())
    }
}

/// The outcomes that `n` start requests see, one after the other, on a flag
/// that starts as `initial`: each request sets the flag and reports what it
/// held before.
pub open spec fn start_outcomes(initial: bool, n: nat) -> Seq<Result<(), ThreadError>>
    decreases n,
{
    if n == 0 {
        seq![]
    } else {
        seq![start_outcome(initial)] + start_outcomes(true, (n - 1) as nat)
    }
}

/// However many start requests race on a fresh flag, the atomic swap orders
/// them: the first one alone succeeds and runs the teardown; every other one
/// sees `AlreadyShuttingDown` and does no cleanup.
pub proof fn lemma_single_teardown(n: nat)
    requires
        n >= 1,
    ensures
        start_outcomes(false, n).len() == n,
        start_outcomes(false, n)[0] == Ok::<(), ThreadError>(()),
        forall|i: int|
            0 < i < n ==> #[trigger] start_outcomes(false, n)[i] == Err::<(), ThreadError>(
                ThreadError::AlreadyShuttingDown,
            ),
{
    lemma_later_requests_fail((n - 1) as nat);
    assert(start_outcomes(false, n) =~= seq![start_outcome(false)] + start_outcomes(
        true,
        (n - 1) as nat,
    ));
}

/// On a flag that is already set, every request sees `AlreadyShuttingDown`.
pub proof fn lemma_later_requests_fail(n: nat)
    ensures
        start_outcomes(true, n).len() == n,
        forall|i: int|
            0 <= i < n ==> #[trigger] start_outcomes(true, n)[i] == Err::<(), ThreadError>(
                ThreadError::AlreadyShuttingDown,
            ),
    decreases n,
{
    if n > 0 {
        lemma_later_requests_fail((n - 1) as nat);
    }
}

/// The shutdown flag that every loop of one client or server polls.
pub struct ThreadState {
    shutting_down: Arc<AtomicBool>,
}

impl ThreadState {
    pub fn new() -> Self {
        ThreadState { shutting_down: Arc::new(AtomicBool::new(false)) }
    }

    /// Sets the flag. Only the request that found it clear gets `Ok` and owns
    /// the teardown; the flag is swapped atomically, so two racing requests
    /// cannot both succeed.
    pub fn shutdown_start(&self) -> (r: Result<(), ThreadError>)
        ensures
            r is Ok || r == Err::<(), ThreadError>(ThreadError::AlreadyShuttingDown),
    {
        let was_set = self.shutting_down.swap(true, Ordering::SeqCst);
        shutdown_verdict(was_set)
    }

    /// Whether a shutdown has started; loops check it at each pass.
    pub fn is_shuttingdown(&self) -> bool {
        self.shutting_down.load(Ordering::SeqCst)
    }
}

} // verus!

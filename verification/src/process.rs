use vstd::prelude::*;

verus! {

/// What asking a child process whether it has ended (`try_wait`) gave.
pub enum WaitOutcome {
    /// It has ended.
    Exited,
    /// It still runs.
    Running,
    /// The question failed.
    Failed,
}

/// A child process is alive when it is known to still run; one whose state
/// cannot be told counts as ended.
pub fn is_alive(outcome: WaitOutcome) -> (alive: bool)
    ensures
        alive == (outcome is Running),
{
    match outcome {
        WaitOutcome::Exited => false,
        WaitOutcome::Running => true,
        WaitOutcome::Failed => false,
    }
}

} // verus!

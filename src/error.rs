use vstd::prelude::*;

verus! {

/// Why a wait for a child process did not end with the child's exit.
#[derive(Clone, Copy, Debug, PartialEq, Eq, Structural)]
pub enum WaitError {
    /// The whole timeout elapsed and the child was still running.
    TimedOut,
    /// The operating system reported a failure.
    Other,
    /// A termination notice arrived, but for another child of this process.
    AnotherChild,
}

/// The failure that a backend reports when the operating system call fails.
pub fn _generate_default_error() -> (r: Result<(), WaitError>)
    ensures
        r == Err::<(), WaitError>(WaitError::Other),
{
    Err(WaitError::Other)
}

/// The failure that a backend reports when its bounded wait elapsed.
pub fn _generate_timeout_error() -> (r: Result<(), WaitError>)
    ensures
        r == Err::<(), WaitError>(WaitError::TimedOut),
{
    Err(WaitError::TimedOut)
}

} // verus!

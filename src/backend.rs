use vstd::prelude::*;

use crate::error::{WaitError, _generate_default_error, _generate_timeout_error};

verus! {

/// A timeout split into whole seconds and the rest, as the operating system's wait calls take it.
#[derive(Clone, Copy, Debug, PartialEq, Eq, Structural)]
pub struct SplitTimeout {
    pub secs: u32,
    /// The part below one second, in the unit that the call takes (micro- or nanoseconds).
    pub fraction: u32,
}

/// The timeout of `select`: seconds and microseconds.
pub fn select_timeout(timeout_ms: u32) -> (t: SplitTimeout)
    ensures
        t.secs == timeout_ms / 1000,
        t.fraction == (timeout_ms % 1000) * 1000,
        t.secs * 1_000_000 + t.fraction == timeout_ms * 1000,
        t.fraction < 1_000_000,
{
    SplitTimeout { secs: timeout_ms / 1000, fraction: (timeout_ms % 1000) * 1000 }
}

/// The timeout of `sigtimedwait`: seconds and nanoseconds.
pub fn sigwait_timeout(timeout_ms: u32) -> (t: SplitTimeout)
    ensures
        t.secs == timeout_ms / 1000,
        t.fraction == (timeout_ms % 1000) * 1_000_000,
        t.secs * 1_000_000_000 + t.fraction == timeout_ms * 1_000_000,
        t.fraction < 1_000_000_000,
{
    SplitTimeout { secs: timeout_ms / 1000, fraction: (timeout_ms % 1000) * 1_000_000 }
}

/// Reads what the `pidfd_open` system call returned: a negative value is a failure, anything
/// else the new descriptor.
pub fn pidfd_open(ret: i64) -> (r: Result<i32, WaitError>)
    ensures
        ret < 0 ==> r == Err::<i32, WaitError>(WaitError::Other),
        ret >= 0 ==> r == Ok::<i32, WaitError>(ret as i32),
{
    if ret < 0 {
        Err(WaitError::Other)
    } else {
        Ok(ret as i32)
    }
}

/// Reads what `select` on a process descriptor returned: `-1` is a failure, `0` a timeout, and
/// anything else means that the descriptor became readable, so the process exited.
pub fn select_outcome(ret: i32) -> (r: Result<(), WaitError>)
    ensures
        ret == -1 ==> r == Err::<(), WaitError>(WaitError::Other),
        ret == 0 ==> r == Err::<(), WaitError>(WaitError::TimedOut),
        ret != -1 && ret != 0 ==> r == Ok::<(), WaitError>(()),
{
    if ret == -1 {
        _generate_default_error()
    } else if ret == 0 {
        _generate_timeout_error()
    } else {
        Ok(())
    }
}

/// Reads what the native helper of the thread backend returned: anything but `-1` means that the
/// process exited; on `-1` the error number tells a timeout (`timed_out_errno`, the platform's
/// `ETIMEDOUT`) from a failure.
pub fn thread_outcome(ret: i32, errno: Option<i32>, timed_out_errno: i32) -> (r: Result<(), WaitError>)
    ensures
        ret != -1 ==> r == Ok::<(), WaitError>(()),
        ret == -1 && errno == Some(timed_out_errno) ==> r == Err::<(), WaitError>(WaitError::TimedOut),
        ret == -1 && errno != Some(timed_out_errno) ==> r == Err::<(), WaitError>(WaitError::Other),
{
    if ret != -1 {
        Ok(())
    } else if errno == Some(timed_out_errno) {
        _generate_timeout_error()
    } else {
        _generate_default_error()
    }
}

/// Reads what `sigtimedwait` for the child-termination signal returned. On `-1` the error number
/// tells a timeout (`again_errno`, the platform's `EAGAIN`) from a failure; otherwise the signal
/// came from `sender_pid`, which must be the awaited child: a signal from another child is
/// reported as such, never as an exit or a timeout.
pub fn signal_outcome(ret: i32, errno: i32, again_errno: i32, sender_pid: i32, child_pid: i32) -> (r:
    Result<(), WaitError>)
    ensures
        ret == -1 && errno == again_errno ==> r == Err::<(), WaitError>(WaitError::TimedOut),
        ret == -1 && errno != again_errno ==> r == Err::<(), WaitError>(WaitError::Other),
        ret != -1 && sender_pid == child_pid ==> r == Ok::<(), WaitError>(()),
        ret != -1 && sender_pid != child_pid ==> r == Err::<(), WaitError>(WaitError::AnotherChild),
{
    if ret == -1 {
        if errno == again_errno {
            _generate_timeout_error()
        } else {
            _generate_default_error()
        }
    } else if sender_pid == child_pid {
        Ok(())
    } else {
        Err(WaitError::AnotherChild)
    }
}

/// Reads what a wait on a process handle returned: `timed_out` (the platform's `WAIT_TIMEOUT`) is
/// a timeout, `signaled` (its `WAIT_OBJECT_0`) means that the process exited, anything else is a
/// failure.
pub fn handle_outcome(ret: u32, signaled: u32, timed_out: u32) -> (r: Result<(), WaitError>)
    ensures
        ret == timed_out ==> r == Err::<(), WaitError>(WaitError::TimedOut),
        ret != timed_out && ret == signaled ==> r == Ok::<(), WaitError>(()),
        ret != timed_out && ret != signaled ==> r == Err::<(), WaitError>(WaitError::Other),
{
    if ret == timed_out {
        _generate_timeout_error()
    } else if ret == signaled {
        Ok(())
    } else {
        _generate_default_error()
    }
}

/// The family of operating system a build targets.
#[derive(Clone, Copy, Debug, PartialEq, Eq, Structural)]
pub enum Platform {
    Windows,
    Unix,
    /// Any other target: no backend exists for it.
    Unsupported,
}

/// The ways of waiting with a bounded timeout; a build uses exactly one.
#[derive(Clone, Copy, Debug, PartialEq, Eq, Structural)]
pub enum Backend {
    /// A bounded wait on the process handle (Windows).
    HandleWait,
    /// `select` on a descriptor of the process from `pidfd_open` (Linux 5.3 and later).
    Pidfd,
    /// A helper thread that waits for the process and is cancelled when the timeout elapses.
    Thread,
    /// `sigtimedwait` for the child-termination signal; changes the process's signal mask.
    Signal,
}

/// The backends that a build asks for on Unix.
#[derive(Clone, Copy, Debug, PartialEq, Eq, Structural)]
pub struct Capabilities {
    pub pidfd: bool,
    pub thread: bool,
    pub signal: bool,
}

/// The backend a build uses: Windows always waits on the process handle; on Unix the descriptor
/// backend comes first when asked for, then the thread backend, and the signal backend only when
/// it alone is asked for; with none asked for, Unix uses the thread backend.
pub fn select_backend(platform: Platform, caps: Capabilities) -> (b: Option<Backend>)
    ensures
        platform == Platform::Windows ==> b == Some(Backend::HandleWait),
        platform == Platform::Unsupported ==> b.is_none(),
        platform == Platform::Unix && caps.pidfd ==> b == Some(Backend::Pidfd),
        platform == Platform::Unix && !caps.pidfd && caps.thread ==> b == Some(Backend::Thread),
        platform == Platform::Unix && !caps.pidfd && !caps.thread && caps.signal ==> b == Some(
            Backend::Signal,
        ),
        platform == Platform::Unix && !caps.pidfd && !caps.thread && !caps.signal ==> b == Some(
            Backend::Thread,
        ),
{
    match platform {
        Platform::Windows => Some(Backend::HandleWait),
        Platform::Unsupported => None,
        Platform::Unix => {
            if caps.pidfd {
                Some(Backend::Pidfd)
            } else if caps.signal && !caps.thread {
                Some(Backend::Signal)
            } else {
                Some(Backend::Thread)
            }
        },
    }
}

} // verus!

//! Waiting for a child process to exit, with a timeout, without killing it when the timeout
//! elapses.
//!
//! The operating system's bounded waits take at most `u32::MAX` milliseconds, so a longer timeout
//! is covered by a sequence of backend waits. `dispatch::Waiter` makes every decision of one such
//! wait: it is told whether the child had already exited and what each backend wait reported, and
//! answers with the next step. `backend` reads what the operating system's calls returned and
//! chooses the backend of a build.
use vstd::prelude::*;

pub mod backend;
pub mod dispatch;
pub mod error;

verus! {

} // verus!

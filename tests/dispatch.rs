use child_wait_timeout::dispatch::{Phase, Step, Waiter, CHUNK_MAX_MS};
use child_wait_timeout::error::WaitError;

const MAX: u128 = CHUNK_MAX_MS as u128;

/// Runs a wait against a running child that exits `exit_at` ms after the wait starts, with a
/// backend that reports the exit when it happens within a chunk and times out otherwise.
fn simulate(timeout_ms: u128, exit_at: u128) -> (Step, Vec<u32>, u128) {
    let mut w = Waiter::new(timeout_ms);
    let mut step = w.start(false);
    let mut waits = Vec::new();
    let mut elapsed: u128 = 0;
    while let Step::Wait(c) = step {
        waits.push(c);
        if exit_at <= elapsed + c as u128 {
            elapsed = exit_at;
            step = w.on_backend(Ok(()));
        } else {
            elapsed += c as u128;
            step = w.on_backend(Err(WaitError::TimedOut));
        }
    }
    (step, waits, elapsed)
}

#[test]
fn short_child_within_timeout_is_collected() {
    let (step, waits, _) = simulate(5_000, 1_000);
    assert_eq!(step, Step::CollectNow);
    assert_eq!(waits, vec![5_000]);
}

#[test]
fn short_child_with_very_big_timeout_is_collected() {
    let (step, waits, elapsed) = simulate(4_294_967_295u128 * 1000, 1_000);
    assert_eq!(step, Step::CollectBlocking);
    assert_eq!(waits, vec![u32::MAX]);
    assert_eq!(elapsed, 1_000);
}

#[test]
fn long_child_times_out() {
    let (step, waits, elapsed) = simulate(1_000, 3_000);
    assert_eq!(step, Step::Fail(WaitError::TimedOut));
    assert_eq!(waits, vec![1_000]);
    assert_eq!(elapsed, 1_000);
}

#[test]
fn exited_child_is_answered_by_the_check_each_time() {
    let mut first = Waiter::new(5_000);
    assert_eq!(first.start(true), Step::UseCheckedStatus);
    assert_eq!(first.phase, Phase::Finished);
    let mut second = Waiter::new(5_000);
    assert_eq!(second.start(true), Step::UseCheckedStatus);
    let mut huge = Waiter::new(u128::MAX);
    assert_eq!(huge.start(true), Step::UseCheckedStatus);
}

#[test]
fn zero_timeout_on_running_child_times_out_at_once() {
    let mut w = Waiter::new(0);
    assert_eq!(w.start(false), Step::Wait(0));
    assert_eq!(w.on_backend(Err(WaitError::TimedOut)), Step::Fail(WaitError::TimedOut));
}

#[test]
fn zero_timeout_still_sees_an_exit() {
    let (step, waits, _) = simulate(0, 0);
    assert_eq!(step, Step::CollectNow);
    assert_eq!(waits, vec![0]);
}

#[test]
fn timeout_of_exactly_one_chunk_issues_one_wait() {
    let (step, waits, elapsed) = simulate(MAX, MAX + 10);
    assert_eq!(step, Step::Fail(WaitError::TimedOut));
    assert_eq!(waits, vec![u32::MAX]);
    assert_eq!(elapsed, MAX);
}

#[test]
fn timeout_one_past_a_chunk_issues_two_waits() {
    let (step, waits, elapsed) = simulate(MAX + 1, MAX + 10);
    assert_eq!(step, Step::Fail(WaitError::TimedOut));
    assert_eq!(waits, vec![u32::MAX, 1]);
    assert_eq!(elapsed, MAX + 1);
}

#[test]
fn timeout_of_two_chunks_has_no_empty_tail() {
    let (step, waits, elapsed) = simulate(2 * MAX, 3 * MAX);
    assert_eq!(step, Step::Fail(WaitError::TimedOut));
    assert_eq!(waits, vec![u32::MAX, u32::MAX]);
    assert_eq!(elapsed, 2 * MAX);
}

#[test]
fn long_timeout_times_out_after_the_whole_timeout() {
    let timeout = 3 * MAX + 12_345;
    let (step, waits, elapsed) = simulate(timeout, timeout + 1);
    assert_eq!(step, Step::Fail(WaitError::TimedOut));
    assert_eq!(waits, vec![u32::MAX, u32::MAX, u32::MAX, 12_345]);
    assert_eq!(elapsed, timeout);
}

#[test]
fn exit_in_second_chunk_is_collected() {
    let (step, waits, elapsed) = simulate(3 * MAX, MAX + 5);
    assert_eq!(step, Step::CollectBlocking);
    assert_eq!(waits, vec![u32::MAX, u32::MAX]);
    assert_eq!(elapsed, MAX + 5);
}

#[test]
fn exit_in_last_chunk_is_collected_without_blocking() {
    let (step, waits, _) = simulate(MAX + 100, MAX + 50);
    assert_eq!(step, Step::CollectNow);
    assert_eq!(waits, vec![u32::MAX, 100]);
}

#[test]
fn exit_at_the_deadline_is_collected() {
    let (step, _, _) = simulate(7_000, 7_000);
    assert_eq!(step, Step::CollectNow);
    let (step, _, _) = simulate(7_000, 7_001);
    assert_eq!(step, Step::Fail(WaitError::TimedOut));
}

#[test]
fn failure_in_a_full_chunk_ends_the_wait() {
    let mut w = Waiter::new(3 * MAX);
    assert_eq!(w.start(false), Step::Wait(u32::MAX));
    assert_eq!(w.on_backend(Err(WaitError::TimedOut)), Step::Wait(u32::MAX));
    assert_eq!(w.remaining_ms, 2 * MAX);
    assert_eq!(w.on_backend(Err(WaitError::Other)), Step::Fail(WaitError::Other));
    assert_eq!(w.phase, Phase::Finished);
}

#[test]
fn another_child_is_reported_as_such() {
    let mut w = Waiter::new(2 * MAX);
    assert_eq!(w.start(false), Step::Wait(u32::MAX));
    assert_eq!(
        w.on_backend(Err(WaitError::AnotherChild)),
        Step::Fail(WaitError::AnotherChild)
    );
    let mut w = Waiter::new(10);
    assert_eq!(w.start(false), Step::Wait(10));
    assert_eq!(
        w.on_backend(Err(WaitError::AnotherChild)),
        Step::Fail(WaitError::AnotherChild)
    );
}

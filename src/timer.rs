//! Cooldown and lifetime timers: bevy's `Timer`, seen through a model of
//! plain values so that the game rules can state what a tick does to it.
use vstd::prelude::*;

verus! {

/// One second, in nanoseconds.
pub const NANOS_PER_SEC: u64 = 1_000_000_000;

#[verifier::external_type_specification]
#[verifier::external_body]
pub struct ExTimer(bevy::time::Timer);

#[verifier::external_type_specification]
pub struct ExTimerMode(bevy::time::TimerMode);

/// What a timer holds, with every duration in nanoseconds.
pub struct TimerModel {
    pub duration: nat,
    pub elapsed: nat,
    pub repeating: bool,
    pub finished: bool,
    pub times_finished: nat,
    pub paused: bool,
}

/// The state of a bevy timer.
pub uninterp spec fn timer_view(t: bevy::time::Timer) -> TimerModel;

/// A fresh, running timer of the given length and mode.
pub open spec fn fresh_timer(duration: nat, repeating: bool) -> TimerModel {
    TimerModel {
        duration,
        elapsed: 0,
        repeating,
        finished: false,
        times_finished: 0,
        paused: false,
    }
}

/// The longest span a `Duration` holds, in nanoseconds.
pub const DURATION_MAX_NS: u128 = 18_446_744_073_709_551_615_999_999_999;

/// Whether a tick adds `delta` to the elapsed time: the timer runs and is not
/// a one-shot timer that already finished.
pub open spec fn tick_advances(m: TimerModel) -> bool {
    !m.paused && (m.repeating || !m.finished)
}

/// A tick of `delta` nanoseconds cannot make the timer fail: where it adds to
/// the elapsed time, the sum stays within a `Duration`, and a repeating timer
/// has a length and completes fewer than 2^32 cycles in one tick.
pub open spec fn tick_fits(m: TimerModel, delta: nat) -> bool {
    &&& tick_advances(m) ==> m.elapsed + delta <= DURATION_MAX_NS
    &&& m.repeating && !m.paused ==> m.duration > 0 && (m.elapsed + delta) / m.duration
        < 0x1_0000_0000
}

/// The timer after a tick of `delta` nanoseconds.
pub open spec fn ticked(m: TimerModel, delta: nat) -> TimerModel {
    if m.paused {
        TimerModel { times_finished: 0, finished: if m.repeating { false } else { m.finished }, ..m }
    } else if !m.repeating && m.finished {
        TimerModel { times_finished: 0, ..m }
    } else if m.elapsed + delta < m.duration {
        TimerModel { elapsed: m.elapsed + delta, finished: false, times_finished: 0, ..m }
    } else if m.repeating {
        TimerModel {
            elapsed: ((m.elapsed + delta) % m.duration) as nat,
            finished: true,
            times_finished: ((m.elapsed + delta) / m.duration) as nat,
            ..m
        }
    } else {
        TimerModel { elapsed: m.duration, finished: true, times_finished: 1, ..m }
    }
}

/// The time covered by the first `k` ticks of `deltas`.
pub open spec fn total(deltas: Seq<nat>, k: int) -> nat
    decreases k,
{
    if k <= 0 {
        0
    } else {
        total(deltas, k - 1) + deltas[k - 1]
    }
}

/// Whether the last tick completed at least one cycle.
pub open spec fn just_finished(m: TimerModel) -> bool {
    m.times_finished > 0
}

/// Relies on bevy_time's `Timer::new`: a running timer of that length and
/// mode, nothing elapsed and nothing finished.
#[verifier::external_body]
pub(crate) fn new_timer(duration_ns: u64, mode: bevy::time::TimerMode) -> (r: bevy::time::Timer)
    ensures
        timer_view(r) == fresh_timer(duration_ns as nat, mode == bevy::time::TimerMode::Repeating),
{
    bevy::time::Timer::new(std::time::Duration::from_nanos(duration_ns), mode)
}

/// Relies on bevy_time's `Timer::tick`: a paused timer only forgets its last
/// tick; a finished one-shot timer stays finished; otherwise the elapsed time
/// grows by `delta`, and on reaching the length a one-shot timer stops there
/// while a repeating one counts its completed cycles and keeps the remainder.
#[verifier::external_body]
pub(crate) fn tick_timer(t: &mut bevy::time::Timer, delta_ns: u64)
    requires
        tick_fits(timer_view(*old(t)), delta_ns as nat),
    ensures
        timer_view(*final(t)) == ticked(timer_view(*old(t)), delta_ns as nat),
{
    t.tick(std::time::Duration::from_nanos(delta_ns));
}

/// Relies on bevy_time's `Timer::just_finished`: whether the last tick
/// completed a cycle.
#[verifier::external_body]
pub(crate) fn timer_just_finished(t: &bevy::time::Timer) -> (r: bool)
    ensures
        r == just_finished(timer_view(*t)),
{
    t.just_finished()
}

/// Relies on bevy_time's `Timer::elapsed` and std's `Duration::as_nanos`:
/// the time elapsed in the current cycle, in whole nanoseconds.
#[verifier::external_body]
fn timer_elapsed_ns(t: &bevy::time::Timer) -> (r: u128)
    ensures
        r as nat == timer_view(*t).elapsed,
{
    t.elapsed().as_nanos()
}

/// Relies on bevy_time's `Timer::duration` and std's `Duration::as_nanos`:
/// the timer's length, in whole nanoseconds.
#[verifier::external_body]
fn timer_duration_ns(t: &bevy::time::Timer) -> (r: u128)
    ensures
        r as nat == timer_view(*t).duration,
{
    t.duration().as_nanos()
}

/// Relies on bevy_time's `Timer::mode`: whether the timer repeats.
#[verifier::external_body]
fn timer_mode(t: &bevy::time::Timer) -> (r: bevy::time::TimerMode)
    ensures
        timer_view(*t).repeating == (r == bevy::time::TimerMode::Repeating),
{
    t.mode()
}

/// Relies on bevy_time's `Timer::paused`: whether the timer is paused.
#[verifier::external_body]
fn timer_paused(t: &bevy::time::Timer) -> (r: bool)
    ensures
        r == timer_view(*t).paused,
{
    t.paused()
}

/// Relies on bevy_time's `Timer::finished`: whether the timer has reached
/// its length.
#[verifier::external_body]
fn timer_finished(t: &bevy::time::Timer) -> (r: bool)
    ensures
        r == timer_view(*t).finished,
{
    t.finished()
}

/// Whether the timer can take a tick of `delta_ns` nanoseconds.
pub fn timer_can_tick(t: &bevy::time::Timer, delta_ns: u64) -> (r: bool)
    ensures
        r == tick_fits(timer_view(*t), delta_ns as nat),
{
    let elapsed = timer_elapsed_ns(t);
    let duration = timer_duration_ns(t);
    let repeating = match timer_mode(t) {
        bevy::time::TimerMode::Repeating => true,
        bevy::time::TimerMode::Once => false,
    };
    let paused = timer_paused(t);
    let finished = timer_finished(t);
    let advances = !paused && (repeating || !finished);
    if advances && (elapsed > DURATION_MAX_NS || DURATION_MAX_NS - elapsed < delta_ns as u128) {
        return false;
    }
    if repeating && !paused {
        duration > 0 && (elapsed + delta_ns as u128) / duration < 0x1_0000_0000
    } else {
        true
    }
}

} // verus!

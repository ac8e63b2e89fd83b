//! A stopwatch for timing database operations.
use vstd::prelude::*;
use std::time::{Duration, Instant};

verus! {

#[verifier::external_type_specification]
#[verifier::external_body]
pub struct ExInstant(Instant);

/// `Instant::now`. The clock reading is not modelled: nothing is stated of
/// the result.
#[verifier::external_body]
fn clock_now() -> Instant {
    Instant::now()
}

/// `Instant::elapsed`. It reads the clock, so nothing is stated of the
/// result.
#[verifier::external_body]
fn time_since(start: &Instant) -> Duration {
    start.elapsed()
}

/// `Duration::as_secs`: the whole seconds of the duration. The duration is
/// opaque here, so nothing is stated of the result.
#[verifier::external_body]
fn duration_whole_secs(d: &Duration) -> u64 {
    d.as_secs()
}

/// `Duration::subsec_nanos`: the fractional part in nanoseconds, which std
/// documents to be below one billion.
#[verifier::external_body]
fn duration_subsec_nanos(d: &Duration) -> (n: u32)
    ensures
        n < 1_000_000_000,
{
    d.subsec_nanos()
}

/// A span of time measured by a [`Timer`]: whole seconds and the remaining
/// nanoseconds.
#[derive(Clone, Copy, Debug, PartialEq, Eq, Structural)]
pub struct Elapsed {
    pub secs: u64,
    pub nanos: u32,
}

impl Elapsed {
    /// The nanosecond part is a fraction of a second.
    pub open spec fn wf(&self) -> bool {
        self.nanos < 1_000_000_000
    }

    /// The empty span.
    pub fn zero() -> (e: Elapsed)
        ensures
            e == (Elapsed { secs: 0, nanos: 0 }),
    {
        Elapsed { secs: 0, nanos: 0 }
    }

    /// The span in whole seconds (the fraction is dropped).
    pub fn whole_seconds(&self) -> (s: u64)
        ensures
            s == self.secs,
    {
        self.secs
    }
}

/// A stopwatch that is either idle or running since some instant. It also
/// remembers, for proofs, the outcome of its last stop.
pub struct Timer {
    start_time: Option<Instant>,
    last: Ghost<Option<(bool, Elapsed)>>,
}

impl Timer {
    /// Whether the stopwatch is running.
    pub closed spec fn is_running(&self) -> bool {
        self.start_time is Some
    }

    /// The outcome of the last stop, if any: whether the stopwatch was
    /// running when stopped, and the reading that stop returned. Only
    /// `stop` changes it.
    pub closed spec fn last_stop(&self) -> Option<(bool, Elapsed)> {
        self.last@
    }

    /// An idle stopwatch that has not been stopped yet.
    pub fn init() -> (t: Timer)
        ensures
            !t.is_running(),
            t.last_stop() is None,
    {
        Timer { start_time: None, last: Ghost(None) }
    }

    /// Starts the stopwatch at the current instant, whether or not it was
    /// running before.
    pub fn start(&mut self)
        ensures
            final(self).is_running(),
            final(self).last_stop() == old(self).last_stop(),
    {
        self.start_time = Some(clock_now());
    }

    /// Stops the stopwatch and returns the time since it was started; an
    /// idle stopwatch reads zero. Afterwards the stopwatch is idle.
    pub fn stop(&mut self) -> (e: Elapsed)
        ensures
            !final(self).is_running(),
            e.wf(),
            !old(self).is_running() ==> e == (Elapsed { secs: 0, nanos: 0 }),
            final(self).last_stop() == Some((old(self).is_running(), e)),
    {
        let ghost was_running = self.start_time is Some;
        let reading = match &self.start_time {
            Some(start) => {
                let d = time_since(start);
                Elapsed { secs: duration_whole_secs(&d), nanos: duration_subsec_nanos(&d) }
            },
            None => Elapsed::zero(),
        };
        self.start_time = None;
        self.last = Ghost(Some((was_running, reading)));
        reading
    }
}

} // verus!

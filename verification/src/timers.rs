//! The delay timer and the sound timer: two bytes that count down to zero,
//! one step for each tick.

use vstd::prelude::*;

verus! {

/// A timer's value one tick after it was `value`.
pub open spec fn ticked(value: u8) -> u8 {
    if value > 0 {
        (value - 1) as u8
    } else {
        0
    }
}

/// A timer's value `n` ticks after it was `value`.
pub open spec fn ticked_times(value: u8, n: nat) -> u8
    decreases n,
{
    if n == 0 {
        value
    } else {
        ticked_times(ticked(value), (n - 1) as nat)
    }
}

/// `n` ticks take a timer down by `n`, and never below zero.
pub proof fn ticks_count_down(value: u8, n: nat)
    ensures
        n <= value ==> ticked_times(value, n) == value - n,
        n >= value ==> ticked_times(value, n) == 0,
    decreases n,
{
    if n > 0 {
        ticks_count_down(ticked(value), (n - 1) as nat);
    }
}

/// A timer that starts at `value` reaches zero after exactly `value` ticks:
/// it is above zero after any smaller number of them, and stays at zero
/// after any larger number.
pub proof fn timer_runs_out_on_time(value: u8, n: nat)
    ensures
        ticked_times(value, value as nat) == 0,
        n < value ==> ticked_times(value, n) > 0,
        n >= value ==> ticked_times(value, n) == 0,
{
    ticks_count_down(value, value as nat);
    ticks_count_down(value, n);
}

/// The two timers of one machine.
pub struct Timers {
    delay: u8,
    sound: u8,
}

impl Timers {
    /// The value of the delay timer.
    pub closed spec fn delay(&self) -> u8 {
        self.delay
    }

    /// The value of the sound timer.
    pub closed spec fn sound(&self) -> u8 {
        self.sound
    }

    /// Timers with the delay timer at `d` and the sound timer at `s`.
    pub fn new(d: u8, s: u8) -> (t: Timers)
        ensures
            t.delay() == d,
            t.sound() == s,
    {
        Timers { delay: d, sound: s }
    }

    /// One tick: each timer that is above zero goes down by one. The two do
    /// not touch each other.
    pub fn update(&mut self)
        ensures
            final(self).delay() == ticked(old(self).delay()),
            final(self).sound() == ticked(old(self).sound()),
    {
        if self.delay > 0 {
            self.delay -= 1;
        }
        if self.sound > 0 {
            self.sound -= 1;
        }
    }

    /// Sets the delay timer to `value`.
    pub fn set_delay(&mut self, value: u8)
        ensures
            final(self).delay() == value,
            final(self).sound() == old(self).sound(),
    {
        self.delay = value;
    }

    /// Sets the sound timer to `value`.
    pub fn set_sound(&mut self, value: u8)
        ensures
            final(self).sound() == value,
            final(self).delay() == old(self).delay(),
    {
        self.sound = value;
    }

    /// The value of the delay timer.
    pub fn get(&self) -> (value: u8)
        ensures
            value == self.delay(),
    {
        self.delay
    }

    /// The value of the sound timer. No instruction reads it; it is here for
    /// the host, which may want to show it.
    pub fn __get_sound(&self) -> (value: u8)
        ensures
            value == self.sound(),
    {
        self.sound
    }

    /// Whether a tone is due: it is for as long as the sound timer is above
    /// zero.
    pub fn tone(&self) -> (on: bool)
        ensures
            on == (self.sound() > 0),
    {
        self.sound > 0
    }
}

} // verus!

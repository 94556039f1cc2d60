//! The shared tick counter: a free-running `u32`, read and written only under a
//! critical section.
use vstd::prelude::*;
use crate::critical::CriticalSection;

verus! {

/// The counter value after `n` increments from `t`: it wraps modulo 2^32.
pub open spec fn after_firings(t: u32, n: nat) -> u32 {
    ((t + n) % 0x1_0000_0000) as u32
}

/// Number of timer ticks seen since start-up.
pub struct TickCounter {
    value: u32,
}

impl View for TickCounter {
    type V = u32;

    closed spec fn view(&self) -> u32 {
        self.value
    }
}

impl TickCounter {
    /// A counter at zero.
    pub fn new() -> (r: Self)
        ensures
            r@ == 0,
    {
        TickCounter { value: 0 }
    }

    /// Adds one tick, wrapping silently on overflow. Only callable with a critical section open.
    pub fn increment(&mut self, _cs: &CriticalSection)
        ensures
            final(self)@ == after_firings(old(self)@, 1),
    {
        self.value = self.value.wrapping_add(1);
    }

    /// The current tick count. Only callable with a critical section open.
    pub fn read(&self, _cs: &CriticalSection) -> (r: u32)
        ensures
            r == self@,
    {
        self.value
    }
}

/// Firings accumulate: `m` firings followed by `n` more leave the counter where `m + n`
/// firings from the same start leave it, and no firing leaves it where it was.
pub proof fn lemma_firings_accumulate(t: u32, m: nat, n: nat)
    ensures
        after_firings(t, 0) == t,
        after_firings(after_firings(t, m), n) == after_firings(t, m + n),
{
    let w = 0x1_0000_0000int;
    assert(((t + m) % w + n) % w == (t + m + n) % w) by {
        vstd::arithmetic::div_mod::lemma_add_mod_noop_right(n as int, t + m, w);
    }
}

} // verus!

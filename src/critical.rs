//! The critical-section discipline of a single core: interrupt masking with save and
//! restore, the timer interrupt and its handler, and the tick counter they share.
use vstd::prelude::*;
use crate::ticks::{TickCounter, after_firings, lemma_firings_accumulate};

verus! {

/// Evidence that a critical section is open. It remembers the interrupt-enable state to
/// restore when the section closes, and the nesting level it was opened at.
pub struct CriticalSection {
    restore: bool,
    level: usize,
}

impl CriticalSection {
    /// A section is always opened at depth one or more.
    #[verifier::type_invariant]
    spec fn inv(&self) -> bool {
        self.level >= 1
    }

    /// Whether interrupts were enabled when this section was opened.
    pub closed spec fn restores(&self) -> bool {
        self.restore
    }

    /// The nesting depth of this section (1 for an outermost section).
    pub closed spec fn level(&self) -> nat {
        self.level as nat
    }
}

/// The observable state of the core.
pub struct CoreState {
    /// Interrupts are delivered.
    pub enabled: bool,
    /// Number of critical sections open.
    pub depth: nat,
    /// A timer expiry awaits delivery.
    pub pending: bool,
    /// The shared tick count.
    pub ticks: u32,
}

impl CoreState {
    /// A pending expiry is only possible while interrupts are masked.
    pub open spec fn wf(self) -> bool {
        self.enabled ==> !self.pending
    }
}

/// The timer handler's effect: the expiry is acknowledged and one tick counted.
pub open spec fn handled(s: CoreState) -> CoreState {
    CoreState { pending: false, ticks: after_firings(s.ticks, 1), ..s }
}

/// A pending expiry is delivered as soon as interrupts are enabled.
pub open spec fn delivered(s: CoreState) -> CoreState {
    if s.enabled && s.pending {
        handled(s)
    } else {
        s
    }
}

/// Opening a critical section masks interrupts.
pub open spec fn entered(s: CoreState) -> CoreState {
    CoreState { enabled: false, depth: s.depth + 1, ..s }
}

/// Closing a critical section restores the saved enable state exactly, then delivers
/// what became deliverable.
pub open spec fn exited(s: CoreState, restore: bool) -> CoreState {
    delivered(CoreState { enabled: restore, depth: (s.depth - 1) as nat, ..s })
}

/// The hardware timer expires: the handler runs at once if interrupts are enabled, else
/// the expiry stays pending.
pub open spec fn expired(s: CoreState) -> CoreState {
    if s.enabled {
        handled(s)
    } else {
        CoreState { pending: true, ..s }
    }
}

/// `n` timer expiries in a row.
pub open spec fn expired_n(s: CoreState, n: nat) -> CoreState
    decreases n,
{
    if n == 0 {
        s
    } else {
        expired(expired_n(s, (n - 1) as nat))
    }
}

/// The runtime of one core: interrupt masking, the timer interrupt and the tick counter
/// it shares with the main context.
pub struct Runtime {
    enabled: bool,
    depth: usize,
    pending: bool,
    ticks: TickCounter,
}

impl View for Runtime {
    type V = CoreState;

    closed spec fn view(&self) -> CoreState {
        CoreState {
            enabled: self.enabled,
            depth: self.depth as nat,
            pending: self.pending,
            ticks: self.ticks@,
        }
    }
}

impl Runtime {
    pub closed spec fn wf(&self) -> bool {
        self@.wf()
    }

    /// A core at start-up: interrupts enabled, no section open, nothing pending, no ticks.
    pub fn new() -> (r: Self)
        ensures
            r.wf(),
            r@ == (CoreState { enabled: true, depth: 0, pending: false, ticks: 0 }),
    {
        Runtime { enabled: true, depth: 0, pending: false, ticks: TickCounter::new() }
    }

    /// Whether interrupts are currently delivered.
    pub fn interrupts_enabled(&self) -> (r: bool)
        ensures
            r == self@.enabled,
    {
        self.enabled
    }

    /// Number of critical sections currently open.
    pub fn depth(&self) -> (r: usize)
        ensures
            r == self@.depth,
    {
        self.depth
    }

    /// Whether a timer expiry awaits delivery.
    pub fn is_pending(&self) -> (r: bool)
        ensures
            r == self@.pending,
    {
        self.pending
    }

    /// Opens a critical section: masks interrupts and remembers whether they were enabled.
    pub fn enter(&mut self) -> (cs: CriticalSection)
        requires
            old(self).wf(),
            old(self)@.depth < usize::MAX,
        ensures
            final(self).wf(),
            final(self)@ == entered(old(self)@),
            cs.restores() == old(self)@.enabled,
            cs.level() == final(self)@.depth,
    {
        let cs = CriticalSection { restore: self.enabled, level: self.depth + 1 };
        self.enabled = false;
        self.depth = self.depth + 1;
        cs
    }

    /// Closes the innermost critical section: restores the enable state saved by the
    /// matching `enter`, and delivers a pending expiry if that re-enables interrupts.
    pub fn exit(&mut self, cs: CriticalSection)
        requires
            old(self).wf(),
            old(self)@.depth == cs.level(),
        ensures
            final(self).wf(),
            final(self)@ == exited(old(self)@, cs.restores()),
    {
        proof {
            use_type_invariant(&cs);
        }
        self.enabled = cs.restore;
        self.depth = self.depth - 1;
        if self.enabled && self.pending {
            self.on_timer();
        }
    }

    /// The timer interrupt handler: acknowledges the expiry, then counts the tick
    /// inside a critical section of its own.
    fn on_timer(&mut self)
        requires
            old(self).enabled,
            old(self).depth < usize::MAX,
        ensures
            final(self)@ == handled(old(self)@),
    {
        self.pending = false;
        let cs = CriticalSection { restore: self.enabled, level: self.depth + 1 };
        self.enabled = false;
        self.depth = self.depth + 1;
        self.ticks.increment(&cs);
        self.enabled = cs.restore;
        self.depth = self.depth - 1;
    }

    /// The hardware timer expires: delivered at once while interrupts are enabled, held
    /// pending while they are masked.
    pub fn timer_expired(&mut self)
        requires
            old(self).wf(),
            old(self)@.depth < usize::MAX,
        ensures
            final(self).wf(),
            final(self)@ == expired(old(self)@),
    {
        if self.enabled {
            self.on_timer();
        } else {
            self.pending = true;
        }
    }

    /// Reads the tick count inside an open critical section.
    pub fn ticks_in(&self, cs: &CriticalSection) -> (r: u32)
        ensures
            r == self@.ticks,
    {
        self.ticks.read(cs)
    }

    /// Reads the tick count from the main context, inside a critical section of its own.
    pub fn read_ticks(&mut self) -> (r: u32)
        requires
            old(self).wf(),
            old(self)@.depth < usize::MAX,
        ensures
            final(self).wf(),
            final(self)@ == old(self)@,
            r == old(self)@.ticks,
    {
        let cs = self.enter();
        let r = self.ticks_in(&cs);
        self.exit(cs);
        r
    }

    /// Runs `body` with interrupts masked, then restores the enable state exactly and
    /// delivers what became deliverable. Returns what `body` returns.
    pub fn run_exclusive<R, F: FnOnce(&CriticalSection) -> R>(&mut self, body: F) -> (r: R)
        requires
            old(self).wf(),
            old(self)@.depth < usize::MAX,
            forall|cs: &CriticalSection| body.requires((cs,)),
        ensures
            final(self).wf(),
            final(self)@ == old(self)@,
            exists|cs: &CriticalSection| #[trigger] body.ensures((cs,), r),
    {
        let cs = self.enter();
        let r = body(&cs);
        self.exit(cs);
        r
    }
}

/// While interrupts are masked, expiries are only held: one pending expiry stands for
/// any number of them, and the count does not move.
proof fn lemma_masked_expiries(s: CoreState, n: nat)
    requires
        !s.enabled,
    ensures
        expired_n(s, n) == (CoreState { pending: s.pending || n > 0, ..s }),
    decreases n,
{
    if n > 0 {
        lemma_masked_expiries(s, (n - 1) as nat);
    }
}

/// Every delivered firing counts: from a core with interrupts enabled, `n` expiries raise
/// the tick count by exactly `n`, modulo 2^32, and leave nothing pending.
pub proof fn lemma_expiries_count(s: CoreState, n: nat)
    requires
        s.wf(),
        s.enabled,
    ensures
        expired_n(s, n) == (CoreState { ticks: after_firings(s.ticks, n), ..s }),
    decreases n,
{
    lemma_firings_accumulate(s.ticks, 0, 0);
    if n > 0 {
        lemma_expiries_count(s, (n - 1) as nat);
        lemma_firings_accumulate(s.ticks, (n - 1) as nat, 1);
    }
}

/// A read that races with an expiry is never torn and never loses the tick: the read,
/// made inside its critical section, sees the count from before the expiry, and once the
/// section closes the count is one higher.
pub proof fn lemma_racing_read(s: CoreState)
    requires
        s.wf(),
        s.enabled,
    ensures
        ({
            let inside = expired(entered(s));
            &&& inside.ticks == s.ticks
            &&& exited(inside, s.enabled) == (CoreState {
                ticks: after_firings(s.ticks, 1),
                ..s
            })
        }),
{
}

/// Nested critical sections: closing an inner section keeps interrupts masked, no expiry
/// is delivered and no tick counted until the outermost section closes; closing it
/// restores the enable state from before it opened and delivers what was held.
pub proof fn lemma_nested_sections(s: CoreState, n: nat)
    requires
        s.wf(),
    ensures
        ({
            let outer = entered(s);
            let held = expired_n(entered(outer), n);
            let after_inner = exited(held, outer.enabled);
            let after_outer = exited(after_inner, s.enabled);
            &&& !held.enabled && held.ticks == s.ticks
            &&& !after_inner.enabled && after_inner.ticks == s.ticks
            &&& after_inner.depth == s.depth + 1
            &&& after_outer.enabled == s.enabled && after_outer.depth == s.depth
            &&& after_outer.ticks == if s.enabled && n > 0 {
                after_firings(s.ticks, 1)
            } else {
                s.ticks
            }
        }),
{
    lemma_masked_expiries(entered(entered(s)), n);
}

} // verus!

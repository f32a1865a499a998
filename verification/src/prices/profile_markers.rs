//! Iteration markers for price solves.
//!
//! The solver's trust-region loop is not ours; one "iteration" is
//! approximated as everything from the first residual/cost evaluation after
//! a Jacobian (or the solve start) through the end of the next Jacobian.
//! [`BasinIterTracker`] keeps that open/closed state; [`PriceSolveSpan`]
//! carries the strategy of one solve run. Emitting trace spans for them is
//! the host's concern.

use vstd::prelude::*;
use crate::prices::result::SolveStrategy;

verus! {

/// Open/closed state of the current approximate solver iteration.
#[derive(Debug)]
pub struct BasinIterTracker {
    /// Whether an iteration is open.
    pub open: bool,
    /// Iterations opened so far.
    pub opened: u64,
}

impl BasinIterTracker {
    /// No iteration open, none counted.
    pub fn new() -> (t: BasinIterTracker)
        ensures
            !t.open,
            t.opened == 0,
    {
        BasinIterTracker { open: false, opened: 0 }
    }

    /// Opens an iteration if none is open (first residual/cost of a step).
    pub fn note_residual_or_cost(&mut self)
        requires
            old(self).opened < u64::MAX,
        ensures
            final(self).open,
            final(self).opened == if old(self).open { old(self).opened } else { (old(self).opened + 1) as u64 },
    {
        if !self.open {
            self.open = true;
            self.opened = self.opened + 1;
        }
    }

    /// Ensures an iteration is open before Jacobian work.
    pub fn begin_jacobian(&mut self)
        requires
            old(self).opened < u64::MAX,
        ensures
            final(self).open,
            final(self).opened == if old(self).open { old(self).opened } else { (old(self).opened + 1) as u64 },
    {
        self.note_residual_or_cost();
    }

    /// Closes the iteration when the Jacobian returns.
    pub fn end_jacobian(&mut self)
        ensures
            !final(self).open,
            final(self).opened == old(self).opened,
    {
        self.open = false;
    }

    /// Closes any open iteration at the end of a solve.
    pub fn close(&mut self)
        ensures
            !final(self).open,
            final(self).opened == old(self).opened,
    {
        self.end_jacobian();
    }
}

/// Outer marker for one equilibrium run.
#[derive(Debug)]
pub struct PriceSolveSpan {
    pub strategy: SolveStrategy,
    /// Whether the span is entered.
    pub entered: bool,
}

/// Guard of an entered [`PriceSolveSpan`].
#[derive(Debug)]
pub struct PriceSolveEntered {
    pub strategy: SolveStrategy,
}

impl PriceSolveSpan {
    /// A span for a solve with `strategy`, not entered yet.
    pub fn new(strategy: SolveStrategy) -> (s: PriceSolveSpan)
        ensures
            s.strategy == strategy,
            !s.entered,
    {
        PriceSolveSpan { strategy, entered: false }
    }

    /// Enters the span; the guard names its strategy.
    pub fn enter(&mut self) -> (g: PriceSolveEntered)
        ensures
            final(self).entered,
            final(self).strategy == old(self).strategy,
            g.strategy == old(self).strategy,
    {
        self.entered = true;
        PriceSolveEntered { strategy: self.strategy }
    }
}

/// One residual/Jacobian event of the solver.
#[derive(Debug, Clone, Copy, PartialEq, Eq)]
pub enum SolverEvent {
    Residual,
    BeginJacobian,
    EndJacobian,
}

/// Iterations opened by a run of events, starting closed: an iteration
/// opens at the first residual or Jacobian start while closed and closes
/// at each Jacobian end.
pub open spec fn iterations(events: Seq<SolverEvent>) -> (bool, nat)
    decreases events.len(),
{
    if events.len() == 0 {
        (false, 0)
    } else {
        let (open, n) = iterations(events.drop_last());
        match events.last() {
            SolverEvent::EndJacobian => (false, n),
            _ => if open { (true, n) } else { (true, n + 1) },
        }
    }
}

/// However residuals and Jacobians interleave, a run never opens more
/// iterations than it has events.
pub proof fn law_iterations_bounded(events: Seq<SolverEvent>)
    ensures
        iterations(events).1 <= events.len(),
    decreases events.len(),
{
    if events.len() > 0 {
        law_iterations_bounded(events.drop_last());
    }
}

/// Replays `events` on a fresh tracker (as the solver would drive it).
pub fn replay(events: &Vec<SolverEvent>) -> (t: BasinIterTracker)
    ensures
        t.open == iterations(events@).0,
        t.opened == iterations(events@).1,
{
    let mut t = BasinIterTracker::new();
    let mut i: usize = 0;
    while i < events.len()
        invariant
            i <= events@.len(),
            t.open == iterations(events@.subrange(0, i as int)).0,
            t.opened == iterations(events@.subrange(0, i as int)).1,
        decreases events@.len() - i,
    {
        proof {
            law_iterations_bounded(events@.subrange(0, i as int));
        }
        assert(events@.subrange(0, i + 1).drop_last() =~= events@.subrange(0, i as int));
        match events[i] {
            SolverEvent::Residual => t.note_residual_or_cost(),
            SolverEvent::BeginJacobian => t.begin_jacobian(),
            SolverEvent::EndJacobian => t.end_jacobian(),
        }
        i = i + 1;
    }
    assert(events@.subrange(0, events@.len() as int) =~= events@);
    t
}

} // verus!

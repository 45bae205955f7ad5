//! Evaluation statistics.
//!
//! Counters saturate at their maximum representable value; they never wrap.

use vstd::prelude::*;

verus! {

/// Saturating addition of one on a 16-bit counter, as a spec-level model.
pub open spec fn sat_inc16(x: u16) -> u16 {
    if x < 0xffff {
        (x + 1) as u16
    } else {
        x
    }
}

/// The saturated 16-bit image of an unbounded mathematical counter.
pub open spec fn sat16(n: nat) -> u16 {
    if n < 0xffff {
        n as u16
    } else {
        0xffff as u16
    }
}

/// Work counters reported by `Policy::evaluate_with_stats`.
#[derive(Debug, Clone, Copy, PartialEq, Eq, Structural)]
pub struct EvaluationStats {
    /// Rules visited, in declared order, before evaluation stopped.
    pub rules_checked: u16,
    /// Conditions whose interpretation was started.
    pub condition_evals: u16,
}

impl EvaluationStats {
    /// Fresh counters, all zero.
    pub fn new() -> (s: EvaluationStats)
        ensures
            s.rules_checked == 0u16,
            s.condition_evals == 0u16,
    {
        EvaluationStats { rules_checked: 0, condition_evals: 0 }
    }

    /// Record one visited rule; the counter saturates instead of wrapping.
    pub fn note_rule_checked(&mut self)
        ensures
            final(self).rules_checked == sat_inc16(old(self).rules_checked),
            final(self).condition_evals == old(self).condition_evals,
    {
        if self.rules_checked < 0xffff {
            self.rules_checked = self.rules_checked + 1;
        }
    }

    /// Record one started condition evaluation; saturating.
    pub fn note_condition_eval(&mut self)
        ensures
            final(self).condition_evals == sat_inc16(old(self).condition_evals),
            final(self).rules_checked == old(self).rules_checked,
    {
        if self.condition_evals < 0xffff {
            self.condition_evals = self.condition_evals + 1;
        }
    }
}

/// A saturated counter image never moves once the true count passes the cap,
/// and tracks the true count exactly below it.
pub proof fn lemma_sat16_inc(n: nat)
    ensures
        sat16(n + 1) == sat_inc16(sat16(n)),
{
}

} // verus!

use vstd::prelude::*;

verus! {

/// Accumulator that turns elapsed wall time into a whole number of fixed
/// steps, carrying the remainder over to the next update.
pub struct FixedStep {
    pub period: u64,
    pub accumulated: u64,
}

impl FixedStep {
    /// The carried remainder is always shorter than one period.
    pub open spec fn wf(&self) -> bool {
        self.period > 0 && self.accumulated < self.period
    }

    /// A scheduler with the given period and nothing accumulated yet.
    pub fn new(period: u64) -> (r: FixedStep)
        requires
            period > 0,
        ensures
            r.wf(),
            r.period == period,
            r.accumulated == 0,
    {
        FixedStep { period, accumulated: 0 }
    }

    /// Adds `elapsed` to the accumulator and returns how many whole steps
    /// are due: `floor((accumulated + elapsed) / period)`. What is left over
    /// stays for the next call, so the schedule never drifts.
    pub fn advance(&mut self, elapsed: u64) -> (steps: u64)
        requires
            old(self).wf(),
        ensures
            final(self).wf(),
            final(self).period == old(self).period,
            steps == (old(self).accumulated + elapsed) / (old(self).period as int),
            final(self).accumulated == (old(self).accumulated + elapsed) % (old(self).period as int),
    {
        let p = self.period;
        let a = self.accumulated;
        let whole = elapsed / p;
        let rest = elapsed % p;
        proof {
            assert(elapsed == whole * p + rest) by (nonlinear_arith)
                requires whole == elapsed / p, rest == elapsed % p, p > 0;
        }
        if a >= p - rest {
            let na = a - (p - rest);
            proof {
                assert(whole * 2 <= elapsed) by (nonlinear_arith)
                    requires elapsed == whole * p + rest, p >= 2, rest >= 0;
                let t = a + elapsed;
                assert(t == (whole + 1) * p + na) by (nonlinear_arith)
                    requires elapsed == whole * p + rest, na == a - (p - rest), t == a + elapsed;
                vstd::arithmetic::div_mod::lemma_fundamental_div_mod_converse(
                    t as int, p as int, (whole + 1) as int, na as int);
            }
            self.accumulated = na;
            whole + 1
        } else {
            let na = a + rest;
            proof {
                let t = a + elapsed;
                assert(t == whole * p + na) by (nonlinear_arith)
                    requires elapsed == whole * p + rest, na == a + rest, t == a + elapsed;
                vstd::arithmetic::div_mod::lemma_fundamental_div_mod_converse(
                    t as int, p as int, whole as int, na as int);
            }
            self.accumulated = na;
            whole
        }
    }
}

} // verus!

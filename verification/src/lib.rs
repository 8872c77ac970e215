//! Lineage tracing for declarative data-transformation projects.
//!
//! The crate builds a directed dependency graph from parsed project
//! metadata (sources, models, semantic models, metrics) and audits that
//! graph for completeness and documentation gaps.

use vstd::prelude::*;

pub mod analysis;
pub mod graph;
pub mod parsers;
pub mod query;
pub mod reach;
pub mod types;

verus! {

/// A fraction `num / den`, used for the audit's percentage scores.
/// A denominator of zero stands for a vacuously full score.
#[derive(Clone, Copy, PartialEq, Eq, Structural, Debug)]
pub struct Score {
    pub num: usize,
    pub den: usize,
}

impl Score {
    /// The score as a percentage scaled by 100 (so `10000` is 100%).
    pub open spec fn spec_percent_hundredths(self) -> int {
        if self.den == 0 {
            10000
        } else {
            (self.num * 10000) / (self.den as int)
        }
    }

    pub fn percent_hundredths(&self) -> (r: u64)
        requires
            self.num <= self.den,
        ensures
            r == self.spec_percent_hundredths(),
    {
        if self.den == 0 {
            10000
        } else {
            let wide: u128 = (self.num as u128) * 10000;
            let q: u128 = wide / (self.den as u128);
            assert(q <= 10000) by (nonlinear_arith)
                requires
                    self.num <= self.den,
                    self.den > 0,
                    wide == self.num * 10000,
                    q == wide / (self.den as u128),
            ;
            q as u64
        }
    }
}

} // verus!

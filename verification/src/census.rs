//! The summary a tick hands to whoever draws the population.

use vstd::prelude::*;

verus! {

/// How many entities are in each of the four live states.
#[derive(Clone, Copy, Debug, PartialEq, Eq, Structural)]
pub struct Counts {
    pub healthy: usize,
    pub infected: usize,
    pub cured: usize,
    pub dead: usize,
}

impl Counts {
    /// The number of entities counted.
    pub open spec fn total(self) -> nat {
        (self.healthy + self.infected + self.cured + self.dead) as nat
    }
}

} // verus!

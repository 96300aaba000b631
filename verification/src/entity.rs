//! The selectable entity: an immutable record with an id, a display name and
//! fixed-point odds. Two entities are equal exactly when their names are
//! equal; the id and the odds are not part of identity.

use vstd::prelude::*;

verus! {

/// A selectable entity. `odds_milli` holds the odds in thousandths, so odds
/// of 2.5 are stored as 2500. Lower odds mean a more popular entity, which
/// receives a wider slice of the distribution (weight is inverse odds).
pub struct Horse {
    pub number: u64,
    pub name: String,
    pub odds_milli: u64,
}

impl Horse {
    /// Odds must be positive for the entity's weight `1/odds` to be defined.
    pub open spec fn valid(self) -> bool {
        self.odds_milli > 0
    }

    pub fn new(number: u64, name: String, odds_milli: u64) -> (h: Horse)
        ensures
            h.number == number,
            h.name == name,
            h.odds_milli == odds_milli,
    {
        Horse { number, name, odds_milli }
    }
}

impl Clone for Horse {
    fn clone(&self) -> (r: Self)
        ensures
            r == *self,
    {
        Horse { number: self.number, name: self.name.clone(), odds_milli: self.odds_milli }
    }
}

impl PartialEq for Horse {
    fn eq(&self, other: &Self) -> (r: bool) {
        self.name == other.name
    }
}

impl Eq for Horse {}

impl vstd::std_specs::cmp::PartialEqSpecImpl for Horse {
    open spec fn obeys_eq_spec() -> bool {
        true
    }

    open spec fn eq_spec(&self, other: &Self) -> bool {
        self.name@ == other.name@
    }
}

} // verus!

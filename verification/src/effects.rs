//! Status and trait effects as a set of named flags.
use vstd::prelude::*;

verus! {

/// A set of effects. Each field says whether the effect of that name is in the set.
///
/// The same type serves for the effects that are active on a unit and for the
/// effects that a unit inflicts on whatever it damages.
#[derive(Clone, Copy, Debug, PartialEq, Eq, Hash, Structural)]
pub struct StatusEffects {
    /// Movement and attack are raised.
    pub boosted: bool,
    /// The unit changes sides.
    pub converted: bool,
    /// The unit destroys itself when it attacks.
    pub exploding: bool,
    /// Defense is raised by half.
    pub fortified: bool,
    /// The unit cannot act.
    pub frozen: bool,
    /// Defense is lowered, unless a wall or a fortification raises it.
    pub poisoned: bool,
    /// The attack spreads to neighbours.
    pub splashing: bool,
    /// The unit is struck back whatever its range or traits.
    pub takes_retaliation: bool,
    /// Maximum health is raised.
    pub veteran: bool,
    /// Defense is quadrupled.
    pub walled: bool,
}

impl StatusEffects {
    /// The set that holds every effect of `self` and every effect of `other`.
    pub open spec fn spec_union(self, other: StatusEffects) -> StatusEffects {
        StatusEffects {
            boosted: self.boosted || other.boosted,
            converted: self.converted || other.converted,
            exploding: self.exploding || other.exploding,
            fortified: self.fortified || other.fortified,
            frozen: self.frozen || other.frozen,
            poisoned: self.poisoned || other.poisoned,
            splashing: self.splashing || other.splashing,
            takes_retaliation: self.takes_retaliation || other.takes_retaliation,
            veteran: self.veteran || other.veteran,
            walled: self.walled || other.walled,
        }
    }

    /// The set that holds the effects found in both `self` and `other`.
    pub open spec fn spec_intersection(self, other: StatusEffects) -> StatusEffects {
        StatusEffects {
            boosted: self.boosted && other.boosted,
            converted: self.converted && other.converted,
            exploding: self.exploding && other.exploding,
            fortified: self.fortified && other.fortified,
            frozen: self.frozen && other.frozen,
            poisoned: self.poisoned && other.poisoned,
            splashing: self.splashing && other.splashing,
            takes_retaliation: self.takes_retaliation && other.takes_retaliation,
            veteran: self.veteran && other.veteran,
            walled: self.walled && other.walled,
        }
    }

    /// Whether every effect of `other` is also in `self`.
    pub open spec fn spec_contains(self, other: StatusEffects) -> bool {
        self.spec_union(other) == self
    }

    /// The set without any effect.
    pub open spec fn spec_empty() -> StatusEffects {
        StatusEffects {
            boosted: false,
            converted: false,
            exploding: false,
            fortified: false,
            frozen: false,
            poisoned: false,
            splashing: false,
            takes_retaliation: false,
            veteran: false,
            walled: false,
        }
    }

    /// How many effects are in the set.
    pub open spec fn count(self) -> nat {
        (if self.boosted { 1nat } else { 0 }) + (if self.converted { 1nat } else { 0 }) + (
        if self.exploding { 1nat } else { 0 }) + (if self.fortified { 1nat } else { 0 }) + (
        if self.frozen { 1nat } else { 0 }) + (if self.poisoned { 1nat } else { 0 }) + (
        if self.splashing { 1nat } else { 0 }) + (if self.takes_retaliation { 1nat } else { 0 })
            + (if self.veteran { 1nat } else { 0 }) + (if self.walled { 1nat } else { 0 })
    }

    /// A union holds no fewer effects than either of its parts, and more
    /// than the first unless it is the first.
    pub proof fn lemma_union_count(self, other: StatusEffects)
        ensures
            self.count() <= self.spec_union(other).count() <= 10,
            self.spec_union(other) != self ==> self.count() < self.spec_union(other).count(),
    {
    }

    /// The set without any effect.
    #[verifier::when_used_as_spec(spec_empty)]
    pub fn empty() -> (r: StatusEffects)
        ensures
            r == Self::spec_empty(),
    {
        StatusEffects {
            boosted: false,
            converted: false,
            exploding: false,
            fortified: false,
            frozen: false,
            poisoned: false,
            splashing: false,
            takes_retaliation: false,
            veteran: false,
            walled: false,
        }
    }

    /// The set that holds every effect of `self` and every effect of `other`.
    #[verifier::when_used_as_spec(spec_union)]
    pub fn union(self, other: StatusEffects) -> (r: StatusEffects)
        ensures
            r == self.spec_union(other),
    {
        StatusEffects {
            boosted: self.boosted || other.boosted,
            converted: self.converted || other.converted,
            exploding: self.exploding || other.exploding,
            fortified: self.fortified || other.fortified,
            frozen: self.frozen || other.frozen,
            poisoned: self.poisoned || other.poisoned,
            splashing: self.splashing || other.splashing,
            takes_retaliation: self.takes_retaliation || other.takes_retaliation,
            veteran: self.veteran || other.veteran,
            walled: self.walled || other.walled,
        }
    }

    /// The set that holds the effects found in both `self` and `other`.
    #[verifier::when_used_as_spec(spec_intersection)]
    pub fn intersection(self, other: StatusEffects) -> (r: StatusEffects)
        ensures
            r == self.spec_intersection(other),
    {
        StatusEffects {
            boosted: self.boosted && other.boosted,
            converted: self.converted && other.converted,
            exploding: self.exploding && other.exploding,
            fortified: self.fortified && other.fortified,
            frozen: self.frozen && other.frozen,
            poisoned: self.poisoned && other.poisoned,
            splashing: self.splashing && other.splashing,
            takes_retaliation: self.takes_retaliation && other.takes_retaliation,
            veteran: self.veteran && other.veteran,
            walled: self.walled && other.walled,
        }
    }

    /// Whether every effect of `other` is also in `self`.
    #[verifier::when_used_as_spec(spec_contains)]
    pub fn contains(self, other: StatusEffects) -> (r: bool)
        ensures
            r == self.spec_contains(other),
    {
        self.union(other) == self
    }

    /// Whether the set holds no effect.
    pub fn is_empty(self) -> (r: bool)
        ensures
            r == (self == Self::spec_empty()),
    {
        self == StatusEffects::empty()
    }

    /// Adds every effect of `other` to the set.
    pub fn insert(&mut self, other: StatusEffects)
        ensures
            *final(self) == old(self).spec_union(other),
    {
        *self = self.union(other);
    }
}

} // verus!

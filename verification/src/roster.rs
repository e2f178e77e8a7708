//! A roster: the units of one side, in order, held in a fixed-capacity vector.
use vstd::prelude::*;
use arrayvec::ArrayVec;
use crate::perms::swapped;
use crate::unit::Unit;

verus! {

/// The most units that a roster holds.
pub const MAX_UNITS: usize = 12;

/// `arrayvec::ArrayVec`, a vector of fixed capacity, of which nothing is
/// known here but what the functions below state.
#[verifier::external_type_specification]
#[verifier::external_body]
#[verifier::reject_recursive_types(T)]
pub struct ExArrayVec<T, const CAP: usize>(ArrayVec<T, CAP>);

/// The units that a vector holds, first to last.
pub uninterp spec fn roster_items(v: ArrayVec<Unit, MAX_UNITS>) -> Seq<Unit>;

/// `ArrayVec::new`: a vector that holds nothing.
#[verifier::external_body]
fn items_new() -> (v: ArrayVec<Unit, MAX_UNITS>)
    ensures
        roster_items(v) == Seq::<Unit>::empty(),
{
    ArrayVec::new()
}

/// `ArrayVec::len`: how many units the vector holds, which is never more
/// than its capacity.
#[verifier::external_body]
fn items_len(v: &ArrayVec<Unit, MAX_UNITS>) -> (n: usize)
    ensures
        n == roster_items(*v).len(),
        n <= MAX_UNITS,
{
    v.len()
}

/// `ArrayVec::push` on a vector that is not full: the unit is added at the end.
#[verifier::external_body]
fn items_push(v: &mut ArrayVec<Unit, MAX_UNITS>, unit: Unit)
    requires
        roster_items(*old(v)).len() < MAX_UNITS,
    ensures
        roster_items(*final(v)) == roster_items(*old(v)).push(unit),
{
    v.push(unit)
}

/// Indexing the vector's slice within its length: a copy of the unit at that place.
#[verifier::external_body]
fn items_get(v: &ArrayVec<Unit, MAX_UNITS>, i: usize) -> (unit: Unit)
    requires
        i < roster_items(*v).len(),
    ensures
        unit == roster_items(*v)[i as int],
{
    v[i]
}

/// Assigning through the vector's slice within its length: the unit at that
/// place is replaced, the others stay.
#[verifier::external_body]
fn items_set(v: &mut ArrayVec<Unit, MAX_UNITS>, i: usize, unit: Unit)
    requires
        i < roster_items(*old(v)).len(),
    ensures
        roster_items(*final(v)) == roster_items(*old(v)).update(i as int, unit),
{
    v[i] = unit;
}

/// `swap` on the vector's slice, both places within its length: the units at
/// the two places change places, the others stay.
#[verifier::external_body]
fn items_swap(v: &mut ArrayVec<Unit, MAX_UNITS>, a: usize, b: usize)
    requires
        a < roster_items(*old(v)).len(),
        b < roster_items(*old(v)).len(),
    ensures
        roster_items(*final(v)) == roster_items(*old(v)).update(
            a as int,
            roster_items(*old(v))[b as int],
        ).update(b as int, roster_items(*old(v))[a as int]),
{
    v.swap(a, b)
}

/// `ArrayVec::clone`: a vector that holds copies of the same units in the same order.
#[verifier::external_body]
fn items_clone(v: &ArrayVec<Unit, MAX_UNITS>) -> (c: ArrayVec<Unit, MAX_UNITS>)
    ensures
        roster_items(c) == roster_items(*v),
{
    v.clone()
}

/// The first [`MAX_UNITS`] items of `s`, or all of `s` where it has no more.
pub open spec fn truncated(s: Seq<Unit>) -> Seq<Unit> {
    if s.len() <= MAX_UNITS {
        s
    } else {
        s.take(MAX_UNITS as int)
    }
}

/// The units of one side in their order, at most [`MAX_UNITS`] of them.
#[derive(Debug)]
pub struct Units {
    items: ArrayVec<Unit, MAX_UNITS>,
}

impl View for Units {
    type V = Seq<Unit>;

    closed spec fn view(&self) -> Seq<Unit> {
        roster_items(self.items)
    }
}

/// Whether every unit of a sequence is well formed.
pub open spec fn all_wf(units: Seq<Unit>) -> bool {
    forall|i: int| 0 <= i < units.len() ==> (#[trigger] units[i]).wf()
}

impl Units {
    /// Whether every unit of the roster is well formed.
    pub open spec fn all_wf(&self) -> bool {
        all_wf(self@)
    }

    /// An empty roster.
    pub fn new() -> (r: Units)
        ensures
            r@ == Seq::<Unit>::empty(),
    {
        Units { items: items_new() }
    }

    /// How many units the roster holds.
    pub fn len(&self) -> (n: usize)
        ensures
            n == self@.len(),
            n <= MAX_UNITS,
    {
        items_len(&self.items)
    }

    /// Whether every unit of the roster is well formed.
    pub fn is_wf(&self) -> (r: bool)
        ensures
            r == self.all_wf(),
    {
        let n = self.len();
        let mut i: usize = 0;
        while i < n
            invariant
                n == self@.len(),
                i <= n,
                forall|j: int| 0 <= j < i ==> (#[trigger] self@[j]).wf(),
            decreases n - i,
        {
            if !self.get(i).is_wf() {
                return false;
            }
            i = i + 1;
        }
        true
    }

    /// A copy of the unit at place `i`.
    pub fn get(&self, i: usize) -> (unit: Unit)
        requires
            i < self@.len(),
        ensures
            unit == self@[i as int],
    {
        items_get(&self.items, i)
    }

    /// Replaces the unit at place `i`.
    pub fn set(&mut self, i: usize, unit: Unit)
        requires
            i < old(self)@.len(),
        ensures
            final(self)@ == old(self)@.update(i as int, unit),
    {
        items_set(&mut self.items, i, unit)
    }

    /// Adds a unit at the end unless the roster is full; says whether it was added.
    pub fn push(&mut self, unit: Unit) -> (added: bool)
        ensures
            added == (old(self)@.len() < MAX_UNITS),
            added ==> final(self)@ == old(self)@.push(unit),
            !added ==> final(self)@ == old(self)@,
    {
        if items_len(&self.items) < MAX_UNITS {
            items_push(&mut self.items, unit);
            true
        } else {
            false
        }
    }

    /// Exchanges the units at places `a` and `b`.
    pub fn swap(&mut self, a: usize, b: usize)
        requires
            a < old(self)@.len(),
            b < old(self)@.len(),
        ensures
            final(self)@ == swapped(old(self)@, a as int, b as int),
    {
        items_swap(&mut self.items, a, b)
    }

    /// The roster of the first [`MAX_UNITS`] units of `src`, in their order.
    pub fn from_slice(src: &[Unit]) -> (r: Units)
        ensures
            r@ == truncated(src@),
    {
        let mut out = Units::new();
        let n: usize = if src.len() <= MAX_UNITS {
            src.len()
        } else {
            MAX_UNITS
        };
        let mut i: usize = 0;
        while i < n
            invariant
                i <= n,
                n <= MAX_UNITS,
                n <= src@.len(),
                out@ == src@.take(i as int),
            decreases n - i,
        {
            let added = out.push(src[i]);
            assert(src@.take(i as int).push(src@[i as int]) == src@.take(i + 1));
            i = i + 1;
        }
        assert(src@.take(src@.len() as int) == src@);
        out
    }
}

impl<const N: usize> From<[Unit; N]> for Units {
    /// The roster of the first [`MAX_UNITS`] units of `src`, in their order.
    fn from(src: [Unit; N]) -> (r: Units)
        ensures
            r@ == truncated(src@),
    {
        Units::from_slice(src.as_slice())
    }
}

impl<const N: usize> vstd::std_specs::convert::FromSpecImpl<[Unit; N]> for Units {
    open spec fn obeys_from_spec() -> bool {
        false
    }

    open spec fn from_spec(src: [Unit; N]) -> Units {
        choose|r: Units| r@ == truncated(src@)
    }
}

impl From<Vec<Unit>> for Units {
    /// The roster of the first [`MAX_UNITS`] units of `src`, in their order.
    fn from(src: Vec<Unit>) -> (r: Units)
        ensures
            r@ == truncated(src@),
    {
        Units::from_slice(src.as_slice())
    }
}

impl vstd::std_specs::convert::FromSpecImpl<Vec<Unit>> for Units {
    open spec fn obeys_from_spec() -> bool {
        false
    }

    open spec fn from_spec(src: Vec<Unit>) -> Units {
        choose|r: Units| r@ == truncated(src@)
    }
}

impl Clone for Units {
    fn clone(&self) -> (r: Units)
        ensures
            r@ == self@,
    {
        Units { items: items_clone(&self.items) }
    }
}

} // verus!

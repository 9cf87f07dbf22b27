//! The order of strings: unit by unit, whatever their structures and their
//! owners are.
use core::cmp::Ordering;
use crate::allocator::Allocator;
use crate::encoding::{Encoding, Unit};
use crate::sea::{SeStr, SeaString};
use crate::structure::{Structure, StructureAlloc};
use crate::util::{lemma_lex_at, lex_less, mismatch};
use vstd::prelude::*;

verus! {

/// Compares two strings unit by unit.  The first unit that is not the same
/// in both decides; where there is none, the shorter string is the lesser.
pub fn compare<U: Unit>(a: &[U], b: &[U]) -> (order: Ordering)
    ensures
        (order is Less) == lex_less(a@, b@),
        (order is Equal) == (a@ == b@),
        (order is Greater) == lex_less(b@, a@),
{
    let at = mismatch(a, b);
    proof {
        lemma_lex_at(a@, b@, at);
    }
    if at < a.len() {
        if at < b.len() {
            if a[at].lt_unit(&b[at]) {
                Ordering::Less
            } else {
                Ordering::Greater
            }
        } else {
            Ordering::Greater
        }
    } else if at < b.len() {
        Ordering::Less
    } else {
        Ordering::Equal
    }
}

impl<'a, S: Structure<E>, E: Encoding> SeStr<'a, S, E> {
    /// Compares this string with another of the same encoding.
    pub fn cmp<T: Structure<E>>(&self, other: &SeStr<'_, T, E>) -> (order: Ordering)
        ensures
            (order is Less) == lex_less(self.units(), other.units()),
            (order is Equal) == (self.units() == other.units()),
            (order is Greater) == lex_less(other.units(), self.units()),
    {
        compare(self.as_units(), other.as_units())
    }

    /// Compares this string with another of the same encoding.  Two strings
    /// can always be compared.
    pub fn partial_cmp<T: Structure<E>>(&self, other: &SeStr<'_, T, E>) -> (order: Option<
        Ordering,
    >)
        ensures
            order matches Some(o) && (o is Less) == lex_less(self.units(), other.units()) && (o
                is Equal) == (self.units() == other.units()) && (o is Greater) == lex_less(
                other.units(),
                self.units(),
            ),
    {
        Some(self.cmp(other))
    }
}

impl<S: StructureAlloc<E, A>, E: Encoding, A: Allocator> SeaString<S, E, A> {
    /// Whether this string and the other have the same units.
    pub fn eq<T: StructureAlloc<E, B>, B: Allocator>(&self, other: &SeaString<T, E, B>) -> (same:
        bool)
        requires
            self.wf(),
            other.wf(),
        ensures
            same == (self.units() == other.units()),
    {
        self.as_ref().eq(&other.as_ref())
    }

    /// Compares this string with another of the same encoding.
    pub fn cmp<T: StructureAlloc<E, B>, B: Allocator>(&self, other: &SeaString<T, E, B>) -> (order:
        Ordering)
        requires
            self.wf(),
            other.wf(),
        ensures
            (order is Less) == lex_less(self.units(), other.units()),
            (order is Equal) == (self.units() == other.units()),
            (order is Greater) == lex_less(other.units(), self.units()),
    {
        compare(self.as_units(), other.as_units())
    }

    /// Compares this string with another of the same encoding.  Two strings
    /// can always be compared.
    pub fn partial_cmp<T: StructureAlloc<E, B>, B: Allocator>(
        &self,
        other: &SeaString<T, E, B>,
    ) -> (order: Option<Ordering>)
        requires
            self.wf(),
            other.wf(),
        ensures
            order matches Some(o) && (o is Less) == lex_less(self.units(), other.units()) && (o
                is Equal) == (self.units() == other.units()) && (o is Greater) == lex_less(
                other.units(),
                self.units(),
            ),
    {
        Some(self.cmp(other))
    }
}

} // verus!

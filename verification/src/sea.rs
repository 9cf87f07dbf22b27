//! Generalised foreign strings.
use core::marker::PhantomData;
use crate::allocator::Allocator;
use crate::encoding::{
    CheckedUnicode, Encoding, MbUnit, MultiByte, TranscodeTo, Unit, UnitDebug, UnitIter, Units,
    Utf16, Utf16Unit, WUnit, Wide,
};
use crate::encoding::conv::{always_ok, NoError};
use crate::encoding::conv::linux::{wide_of, UniToWcIter};
use crate::encoding::conv::mb_x_wc::{
    mbs_to_wcs, wcs_to_mbs, MbsToUniError, MbsToUniIter, MbsToWcError, MbsToWcIter2,
    WcsToMbError, WcsToMbIter,
};
use crate::ffi::{Host, MB_LEN_MAX};
use crate::iter::{SliceIter, Source, VecIter};
use crate::structure::{
    alloc_error, may_fail_with, pointee, FfiMutPtr, FfiPtr, MutationSafe, OwnedFfiPtr,
    OwnershipTransfer, Slice, Structure, StructureAlloc, StructureDefault, ZeroTerminated,
};
use crate::text::push_char;
use crate::util::{chars_of, collect, collected, gather, lemma_collected_all_ok, string_of};
use vstd::prelude::*;
use vstd::string::StringExecFns;

verus! {

/// A borrowed foreign string: a view of a region of memory that holds a
/// string of the structure `S`, whose units are in the encoding `E`.
///
/// A `SeStr` is borrowed from an owned string or from a foreign pointer.  It
/// never owns: to hand it to foreign code that expects to own what it gets
/// is an error that nothing here can catch.
pub struct SeStr<'a, S: Structure<E>, E: Encoding> {
    data: &'a [E::Unit],
    _marker: PhantomData<S>,
}

impl<'a, S: Structure<E>, E: Encoding> Clone for SeStr<'a, S, E> {
    fn clone(&self) -> (copy: Self)
        ensures
            copy == *self,
    {
        *self
    }
}

impl<'a, S: Structure<E>, E: Encoding> Copy for SeStr<'a, S, E> {
}

impl<'a, S: Structure<E>, E: Encoding> SeStr<'a, S, E> {
    #[verifier::type_invariant]
    spec fn inv(self) -> bool {
        S::is_valid(self.data@)
    }

    /// The region that the string is a view of.
    pub closed spec fn region(&self) -> Seq<E::Unit> {
        self.data@
    }

    /// The units of the string, without the units of the structure.
    pub closed spec fn units(&self) -> Seq<E::Unit> {
        S::content(self.data@)
    }

    /// The string is what the structure reads in the region.
    pub proof fn lemma_views(&self)
        ensures
            self.units() == S::content(self.region()),
    {
    }

    /// Two views of one region are views of the same string, wherever they
    /// were borrowed from: from a foreign pointer or from an owned string.
    pub proof fn lemma_same_region(&self, other: &Self)
        requires
            self.region() == other.region(),
        ensures
            self.units() == other.units(),
    {
    }
}

/// Strings that have slices as their structure need no allocation to be
/// viewed.
impl<'a, E: Encoding> SeStr<'a, Slice, E> {
    /// Views a slice of units as a string.
    pub fn new(units: &'a [E::Unit]) -> (string: Self)
        ensures
            string.units() == units@,
            string.region() == units@,
    {
        SeStr { data: units, _marker: PhantomData }
    }
}

impl<'a, S: Structure<E>, E: Encoding> SeStr<'a, S, E> {
    /// Borrows a string from a foreign pointer.  The string is not read, and
    /// its length is not computed.
    ///
    /// A pointer that is not null gives the string in its region.  For the
    /// null pointer the result depends on the structure: where null is no
    /// string, there is none; else it is the empty string.
    ///
    /// The region behind the pointer must hold a string of the structure:
    /// nothing else is checked of it.
    pub fn from_ptr(ptr: FfiPtr<'a, E::Unit>) -> (string: Option<Self>)
        requires
            ptr matches Some(region) ==> S::is_valid(region@),
        ensures
            ptr matches Some(region) ==> string matches Some(s) && s.region() == region@,
            ptr is None ==> (string is Some <==> S::null_is_empty()),
            ptr is None ==> (string matches Some(s) ==> s.units().len() == 0),
    {
        match S::borrow_from_ffi_ptr(ptr) {
            Some(data) => Some(SeStr { data, _marker: PhantomData }),
            None => None,
        }
    }

    /// Returns the units of the string as a slice, without the units of the
    /// structure, such as a terminator.
    ///
    /// Where the structure does not store the length, this reads the whole
    /// string; it takes constant time if `S` implements `KnownLength`.
    pub fn as_units(&self) -> (units: &'a [E::Unit])
        ensures
            units@ == self.units(),
    {
        proof {
            use_type_invariant(self);
        }
        S::slice_units(self.data)
    }

    /// Borrows this string again as a string with a slice as its structure,
    /// which computes the length once.
    pub fn as_slice(&self) -> (string: SeStr<'a, Slice, E>)
        ensures
            string.units() == self.units(),
    {
        SeStr::<'a, Slice, E>::new(self.as_units())
    }

    /// Borrows this string as a foreign pointer, which is never null and
    /// points to a string.
    pub fn as_ptr(&self) -> (ptr: FfiPtr<'a, E::Unit>)
        ensures
            ptr matches Some(region) && region@ == self.region(),
            S::is_valid(self.region()),
            self.units() == S::content(self.region()),
    {
        proof {
            use_type_invariant(self);
        }
        S::as_ffi_ptr(self.data)
    }

    /// A source of the units of the string.
    pub fn iter(&self) -> (units: SliceIter<'a, E::Unit>)
        ensures
            units.pending() == self.units(),
            units.is_exact(),
            units.budget() <= usize::MAX,
    {
        SliceIter::new(self.as_units())
    }

    /// Appends the debug text of the string to `out`: the names of the
    /// structure and of the encoding, and between double quotes the debug
    /// text of each unit.
    pub fn fmt(&self, out: &mut String)
        ensures
            final(out)@ == old(out)@ + debug_text::<E>(S::prefix(), self.units()),
    {
        out.append(S::debug_prefix());
        fmt_units::<E>(out, self.as_units());
    }
}

/// Why a string could not be transcoded into a new string.
#[derive(Debug)]
pub enum TranscodeError<T, A> {
    /// The units could not be transcoded.
    Transcode(T),
    /// The units were transcoded, and the new string could not be allocated.
    Alloc(A),
}

/// Makes a string of the items of a transcoding: it collects the units and
/// allocates a string for them.  It fails with the first error of the
/// transcoding, else where the allocation of the string fails.
pub fn string_from_items<S, E, A, It, T>(iter: It) -> (string: Result<
    SeaString<S, E, A>,
    TranscodeError<T, A::AllocError>,
>) where
    S: StructureAlloc<E, A>,
    E: Encoding,
    A: Allocator,
    It: Source<Item = Result<E::Unit, T>>,

    ensures
        string matches Ok(s) ==> s.wf() && s.units().len() <= iter.budget(),
        iter.is_done() ==> !(string matches Err(TranscodeError::Transcode(_))),
        iter.is_exact() ==> match string {
            Ok(s) => collected(iter.pending()) matches Ok(units) && s.region() == S::image(
                units,
            ),
            Err(TranscodeError::Transcode(e)) => collected(iter.pending()) matches Err(first)
                && first == e,
            Err(TranscodeError::Alloc(e)) => collected(iter.pending()) matches Ok(units)
                && may_fail_with::<E::Unit, A>(S::allocated_units(units), e),
        },
{
    let mut iter = iter;
    let units = match collect(&mut iter) {
        Ok(units) => units,
        Err(e) => {
            return Err(TranscodeError::Transcode(e));
        },
    };
    proof {
        S::lemma_image_is_valid(units@);
    }
    match SeaString::new(units.as_slice()) {
        Ok(string) => Ok(string),
        Err(e) => Err(TranscodeError::Alloc(e)),
    }
}

/// Makes a host string of the characters of a transcoding.  It fails with
/// the first error of the transcoding.
pub fn host_string_from_items<It, T>(iter: It) -> (string: Result<String, T>) where
    It: Source<Item = Result<char, T>>,

    ensures
        string matches Ok(s) ==> s@.len() <= iter.budget(),
        iter.is_done() ==> (string matches Ok(s) && s@.len() == 0),
        iter.is_exact() ==> match string {
            Ok(s) => collected(iter.pending()) matches Ok(chars) && chars == s@,
            Err(e) => collected(iter.pending()) matches Err(first) && first == e,
        },
{
    let mut iter = iter;
    match collect(&mut iter) {
        Ok(chars) => Ok(string_of(chars.as_slice())),
        Err(e) => Err(e),
    }
}

impl<'a, S: Structure<E>, E: Encoding> SeStr<'a, S, E> {
    /// Creates an owned string with the units of this string, kept by the
    /// given allocator.  It fails where the allocation fails, and only
    /// there.
    pub fn to_owned_by<A: Allocator>(&self) -> (string: Result<SeaString<S, E, A>, A::AllocError>)
        where S: StructureAlloc<E, A>
        ensures
            match string {
                Ok(s) => {
                    &&& s.wf()
                    &&& s.units() == self.units()
                    &&& s.region() == S::image(self.units())
                },
                Err(e) => may_fail_with::<E::Unit, A>(S::allocated_units(self.units()), e),
            },
            alloc_error::<E::Unit, A>(S::allocated_units(self.units()))
                is Some ==> string is Err,
    {
        proof {
            use_type_invariant(self);
            S::lemma_content_is_kept(self.region());
        }
        SeaString::new(self.as_units())
    }

    /// Transcodes the units of this string into the encoding `F`, lazily:
    /// the items come one by one as they are asked for.
    pub fn transcode_to_iter<F>(&self) -> (iter: <UnitIter<
        E,
        SliceIter<'a, E::Unit>,
    > as TranscodeTo<F>>::Iter) where
        F: Encoding,
        UnitIter<E, SliceIter<'a, E::Unit>>: TranscodeTo<F> + Units<Unit = E::Unit>,

        ensures
            iter.is_exact(),
            iter.pending() == <UnitIter<E, SliceIter<'a, E::Unit>> as TranscodeTo<F>>::items(
                self.units(),
            ),
    {
        UnitIter::<E, SliceIter<'a, E::Unit>>::new(self.iter()).transcode()
    }

    /// Transcodes this string into a new string of the encoding `F`, which
    /// can have another structure.  It fails where a unit cannot be
    /// transcoded, else where the allocation of the new string fails.
    pub fn transcode_to<U, F, A>(&self) -> (string: Result<
        SeaString<U, F, A>,
        TranscodeError<
            <UnitIter<E, SliceIter<'a, E::Unit>> as TranscodeTo<F>>::Error,
            A::AllocError,
        >,
    >) where
        U: StructureAlloc<F, A>,
        F: Encoding,
        A: Allocator,
        UnitIter<E, SliceIter<'a, E::Unit>>: TranscodeTo<F> + Units<Unit = E::Unit>,

        ensures
            string matches Ok(s) ==> s.wf(),
            match string {
                Ok(s) => collected(
                    <UnitIter<E, SliceIter<'a, E::Unit>> as TranscodeTo<F>>::items(self.units()),
                ) matches Ok(units) && s.region() == U::image(units),
                Err(TranscodeError::Transcode(e)) => collected(
                    <UnitIter<E, SliceIter<'a, E::Unit>> as TranscodeTo<F>>::items(self.units()),
                ) matches Err(first) && first == e,
                Err(TranscodeError::Alloc(e)) => collected(
                    <UnitIter<E, SliceIter<'a, E::Unit>> as TranscodeTo<F>>::items(self.units()),
                ) matches Ok(units) && may_fail_with::<F::Unit, A>(U::allocated_units(units), e),
            },
    {
        string_from_items(self.transcode_to_iter::<F>())
    }
}

impl<'a, S: Structure<E>, E: Encoding> SeStr<'a, S, E> {
    /// Converts this string into a host string: it transcodes the units to
    /// Unicode and encodes the characters as UTF-8.  It fails where a unit
    /// cannot be transcoded.
    pub fn into_string(&self) -> (string: Result<
        String,
        <UnitIter<E, SliceIter<'a, E::Unit>> as TranscodeTo<CheckedUnicode>>::Error,
    >) where
        UnitIter<E, SliceIter<'a, E::Unit>>: TranscodeTo<CheckedUnicode> + Units<Unit = E::Unit>,

        ensures
            match string {
                Ok(s) => collected(
                    <UnitIter<E, SliceIter<'a, E::Unit>> as TranscodeTo<CheckedUnicode>>::items(
                        self.units(),
                    ),
                ) matches Ok(chars) && chars == s@,
                Err(e) => collected(
                    <UnitIter<E, SliceIter<'a, E::Unit>> as TranscodeTo<CheckedUnicode>>::items(
                        self.units(),
                    ),
                ) matches Err(first) && first == e,
            },
    {
        host_string_from_items(self.transcode_to_iter::<CheckedUnicode>())
    }

    /// Whether this string and the other have the same units.  Neither the
    /// structures nor the owners of the two matter.
    pub fn eq<T: Structure<E>>(&self, other: &SeStr<'_, T, E>) -> (same: bool)
        ensures
            same == (self.units() == other.units()),
    {
        let a = self.as_units();
        let b = other.as_units();
        if a.len() != b.len() {
            return false;
        }
        let mut i: usize = 0;
        while i < a.len()
            invariant
                i <= a@.len() == b@.len(),
                a@ == self.units(),
                b@ == other.units(),
                a@.take(i as int) == b@.take(i as int),
            decreases a@.len() - i,
        {
            if !a[i].eq_unit(&b[i]) {
                return false;
            }
            proof {
                E::Unit::code_is_injective(a@[i as int], b@[i as int]);
            }
            i = i + 1;
        }
        proof {
            assert(a@.take(i as int) =~= a@);
            assert(b@.take(i as int) =~= b@);
        }
        true
    }
}

/// Strings with a zero terminator.
impl<'a, S: ZeroTerminated<E>, E: Encoding> SeStr<'a, S, E> {
    /// Returns the units of the string and the terminator behind them.
    pub fn as_units_with_term(&self) -> (units: &'a [E::Unit])
        ensures
            units@.len() == self.units().len() + 1,
            units@.last().code() == 0,
            units@.drop_last() == self.units(),
    {
        proof {
            use_type_invariant(self);
        }
        S::slice_units_with_term(self.data)
    }
}

/// Strings of a structure that has a default string.
impl<S: StructureDefault<E>, E: Encoding> SeStr<'static, S, E> {
    /// The default string of the structure: the empty string, which needs
    /// no allocation.
    pub fn default() -> (string: Self)
        ensures
            string.units().len() == 0,
    {
        SeStr { data: S::default(), _marker: PhantomData }
    }
}

/// The debug text of the units of a string, one after the other.
pub open spec fn units_text<U: Unit>(units: Seq<U>) -> Seq<char>
    decreases units.len(),
{
    if units.len() == 0 {
        Seq::empty()
    } else {
        units_text(units.drop_last()) + units.last().debug_text()
    }
}

/// The debug text of a string: the names of what it is made of, and between
/// double quotes the debug text of its units.
pub open spec fn debug_text<E: Encoding>(names: Seq<char>, units: Seq<E::Unit>) -> Seq<char> {
    names + E::prefix() + seq!['"'] + units_text(units) + seq!['"']
}

/// Appends to `out`, between double quotes, the debug text of the units.
pub fn push_quoted_units<U: Unit>(out: &mut String, units: &[U])
    ensures
        final(out)@ == old(out)@ + seq!['"'] + units_text(units@) + seq!['"'],
{
    push_char(out, '"');
    let ghost head = out@;
    let mut i: usize = 0;
    while i < units.len()
        invariant
            i <= units@.len(),
            out@ == head + units_text(units@.take(i as int)),
        decreases units@.len() - i,
    {
        units[i].fmt(out);
        i = i + 1;
        proof {
            assert(units@.take(i as int).drop_last() =~= units@.take(i - 1));
        }
    }
    proof {
        assert(units@.take(i as int) =~= units@);
    }
    push_char(out, '"');
}

/// Appends to `out` the name of the encoding and, between double quotes, the
/// debug text of the units.
pub fn fmt_units<E: Encoding>(out: &mut String, units: &[E::Unit])
    ensures
        final(out)@ == old(out)@ + E::prefix() + seq!['"'] + units_text(units@) + seq!['"'],
{
    out.append(E::debug_prefix());
    push_quoted_units(out, units);
}

/// An owned foreign string: storage that holds a string of the structure
/// `S`, whose units are in the encoding `E`, on behalf of the allocator `A`.
///
/// A `SeaString` always owns.  It is made from a slice of units, by
/// transcoding a `SeStr`, or by taking over the storage behind a foreign
/// pointer; `into_ptr` gives the storage up again.
///
/// The storage is kept in a `Vec`.  A string that goes out of scope releases
/// it as every `Vec` does, and the allocator `A` is not called: only `free`
/// hands the storage to `A::free`.  Call `free` wherever the allocator has
/// to see the strings that it made go.
pub struct SeaString<S: StructureAlloc<E, A>, E: Encoding, A: Allocator> {
    owned: Vec<E::Unit>,
    _structure: PhantomData<S>,
    _allocator: PhantomData<A>,
}

impl<S: StructureAlloc<E, A>, E: Encoding, A: Allocator> SeaString<S, E, A> {
    /// Whether the storage holds a string.  Every string that this crate
    /// hands out is well formed, and all its methods keep it so.
    pub closed spec fn wf(&self) -> bool {
        S::is_valid(self.owned@)
    }

    /// What the storage holds: the units of the string and the units of the
    /// structure.
    pub closed spec fn region(&self) -> Seq<E::Unit> {
        self.owned@
    }

    /// The units of the string, without the units of the structure.
    pub closed spec fn units(&self) -> Seq<E::Unit> {
        S::content(self.owned@)
    }

    /// The string is what the structure reads in the storage.
    pub proof fn lemma_views(&self)
        ensures
            self.wf() == S::is_valid(self.region()),
            self.units() == S::content(self.region()),
    {
    }

    /// Constructs a string from a slice of units.
    ///
    /// The string is what the structure stores for the units.  Construction
    /// fails where allocation fails: with the overflow error of the allocator
    /// where the size in bytes does not fit the machine word, else with the
    /// error with which the allocator refuses the request, else where no
    /// memory is found.
    pub fn new(units: &[E::Unit]) -> (string: Result<Self, A::AllocError>)
        ensures
            match string {
                Ok(s) => s.wf() && s.region() == S::image(units@) && s.units() == S::content(
                    S::image(units@),
                ) && (S::keeps(units@) ==> s.units() == units@),
                Err(e) => may_fail_with::<E::Unit, A>(S::allocated_units(units@), e),
            },
            alloc_error::<E::Unit, A>(S::allocated_units(units@)) is Some
                ==> string is Err,
    {
        proof {
            S::lemma_image_is_valid(units@);
        }
        match S::alloc_owned(units) {
            Ok(owned) => Ok(SeaString { owned, _structure: PhantomData, _allocator: PhantomData }),
            Err(e) => Err(e),
        }
    }

    /// Constructs a string from the units of a source.  It fails where the
    /// allocation fails, as `new` does.
    pub fn from_iter<It: Source<Item = E::Unit>>(iter: It) -> (string: Result<
        Self,
        A::AllocError,
    >)
        ensures
            string matches Ok(s) ==> s.wf(),
            iter.is_exact() ==> match string {
                Ok(s) => s.region() == S::image(iter.pending()),
                Err(e) => may_fail_with::<E::Unit, A>(S::allocated_units(iter.pending()), e),
            },
    {
        let mut iter = iter;
        let units = gather(&mut iter);
        SeaString::new(units.as_slice())
    }

    /// Borrows the string.
    pub fn as_ref(&self) -> (string: SeStr<'_, S, E>)
        requires
            self.wf(),
        ensures
            string.region() == self.region(),
            string.units() == self.units(),
    {
        SeStr { data: S::borrow_from_owned(&self.owned), _marker: PhantomData }
    }

    /// Returns the units of the string as a slice, without the units of the
    /// structure.
    pub fn as_units(&self) -> (units: &[E::Unit])
        requires
            self.wf(),
        ensures
            units@ == self.units(),
    {
        S::slice_units(S::borrow_from_owned(&self.owned))
    }

    /// Returns the units of the string as a mutable slice, without the units
    /// of the structure.
    ///
    /// The structure cannot be damaged through the slice, since its units
    /// are not in it.  But a zero unit that is written into a string with a
    /// terminator ends the string there, for good.  See also `as_units_mut`.
    pub fn as_units_mut_unsafe(&mut self) -> (units: &mut [E::Unit])
        requires
            old(self).wf(),
        ensures
            units@ == old(self).units(),
            final(self).region() == final(units)@ + old(self).region().skip(units@.len() as int),
            final(units)@.len() == units@.len() ==> {
                &&& final(self).wf()
                &&& final(self).units().len() <= units@.len()
                &&& final(self).units() == final(units)@.take(final(self).units().len() as int)
            },
    {
        proof {
            let n = old(self).units().len() as int;
            let tail = old(self).region().skip(n);
            assert forall|written: Seq<E::Unit>| written.len() == n implies S::is_valid(
                #[trigger] (written + tail),
            ) && S::content(written + tail).len() <= n && S::content(written + tail)
                == written.take(S::content(written + tail).len() as int) by {
                S::lemma_mutation_keeps_valid(old(self).region(), written);
            }
        }
        S::slice_units_mut(S::borrow_from_owned_mut(&mut self.owned))
    }

    /// Frees the string: the structure hands the storage to `A::free`.
    ///
    /// Nothing else does.  A string that is dropped without a call of `free`
    /// releases its storage too, but `A::free` is not called for it.
    pub fn free(self) {
        S::free_owned(self.owned);
    }

    /// Appends the debug text of the string to `out`: the names of the
    /// structure, of the encoding and of the allocator, and between double
    /// quotes the debug text of each unit.
    pub fn fmt(&self, out: &mut String)
        requires
            self.wf(),
        ensures
            final(out)@ == old(out)@ + S::prefix() + E::prefix() + A::prefix() + seq!['"']
                + units_text(self.units()) + seq!['"'],
    {
        out.append(S::debug_prefix());
        out.append(E::debug_prefix());
        out.append(A::debug_prefix());
        push_quoted_units(out, self.as_units());
    }
}

/// Strings of a structure for which writing to the units cannot change
/// anything else of the string.
impl<S: StructureAlloc<E, A> + MutationSafe<E>, E: Encoding, A: Allocator> SeaString<S, E, A> {
    /// Returns the units of the string as a mutable slice, without the units
    /// of the structure.  Whatever is written to the units, the string stays
    /// a string, of the same length, with the units that were written.
    pub fn as_units_mut(&mut self) -> (units: &mut [E::Unit])
        requires
            old(self).wf(),
        ensures
            units@ == old(self).units(),
            final(self).region() == final(units)@ + old(self).region().skip(units@.len() as int),
            final(units)@.len() == units@.len() ==> final(self).wf() && final(self).units()
                == final(units)@,
    {
        proof {
            let n = old(self).units().len() as int;
            let tail = old(self).region().skip(n);
            assert forall|written: Seq<E::Unit>| written.len() == n implies S::is_valid(
                #[trigger] (written + tail),
            ) && S::content(written + tail) == written by {
                S::lemma_mutation_keeps_length(old(self).region(), written);
            }
        }
        self.as_units_mut_unsafe()
    }

    /// Replaces the unit at `index`.  The string stays a string, of the same
    /// length.
    pub fn set_unit(&mut self, index: usize, unit: E::Unit)
        requires
            old(self).wf(),
            index < old(self).units().len(),
        ensures
            final(self).wf(),
            final(self).units() == old(self).units().update(index as int, unit),
    {
        let units = self.as_units_mut_unsafe();
        units[index] = unit;
        proof {
            S::lemma_mutation_keeps_length(old(self).region(), units@);
        }
    }
}

/// Strings with a zero terminator.
impl<S: StructureAlloc<E, A> + ZeroTerminated<E>, E: Encoding, A: Allocator> SeaString<S, E, A> {
    /// Returns the units of the string and the terminator behind them.
    pub fn as_units_with_term(&self) -> (units: &[E::Unit])
        requires
            self.wf(),
        ensures
            units@.len() == self.units().len() + 1,
            units@.last().code() == 0,
            units@.drop_last() == self.units(),
    {
        S::slice_units_with_term(S::borrow_from_owned(&self.owned))
    }
}

/// Strings of a structure that allows for transfer of ownership.
impl<S: StructureAlloc<E, A> + OwnershipTransfer<E>, E: Encoding, A: Allocator> SeaString<
    S,
    E,
    A,
> {
    /// Takes over the storage behind a foreign pointer.  The string is not
    /// read.
    ///
    /// A pointer that is not null gives the string in its storage; the null
    /// pointer gives none.  The storage must hold a string of the structure,
    /// and it must come from the allocator `A`: neither is checked.
    pub fn from_ptr(ptr: OwnedFfiPtr<E::Unit>) -> (string: Option<Self>)
        requires
            ptr matches Some(storage) ==> S::is_valid(storage@),
        ensures
            Self::taken_over(pointee(ptr)) == match string {
                Some(s) => Some(s.region()),
                None => None,
            },
            string matches Some(s) ==> s.wf(),
    {
        match S::owned_from_ffi_ptr(ptr) {
            Some(owned) => Some(
                SeaString { owned, _structure: PhantomData, _allocator: PhantomData },
            ),
            None => None,
        }
    }

    /// Gives up the string for the foreign pointer to its storage, which is
    /// never null.  Whoever gets the pointer owns the storage; `from_ptr`
    /// makes it a string again.
    pub fn into_ptr(self) -> (ptr: OwnedFfiPtr<E::Unit>)
        ensures
            pointee(ptr) == Self::handed_out(self.region()),
    {
        let mut string = self;
        S::into_ffi_ptr(&mut string.owned)
    }

    /// What the pointer that `into_ptr` returns points to: the storage of
    /// the string, and never nothing.
    pub open spec fn handed_out(region: Seq<E::Unit>) -> Option<Seq<E::Unit>> {
        Some(region)
    }

    /// The storage of the string that `from_ptr` makes of what a pointer
    /// points to: there is none for the null pointer.
    pub open spec fn taken_over(pointee: Option<Seq<E::Unit>>) -> Option<Seq<E::Unit>> {
        pointee
    }

    /// To hand a string out and to take it over again gives the same
    /// string: the pointer that `into_ptr` returns for `string` is not null,
    /// and what `from_ptr` makes of it is a string with the storage and the
    /// units of `string`, well formed where `string` is.
    pub proof fn lemma_transfer_round_trip(
        string: Self,
        ptr: OwnedFfiPtr<E::Unit>,
        back: Option<Self>,
    )
        requires
            pointee(ptr) == Self::handed_out(string.region()),
            Self::taken_over(pointee(ptr)) == match back {
                Some(s) => Some(s.region()),
                None => None,
            },
        ensures
            ptr is Some,
            back matches Some(s) && s.region() == string.region() && s.units()
                == string.units() && s.wf() == string.wf(),
    {
    }
}

impl<S: StructureAlloc<E, A>, E: Encoding, A: Allocator> SeaString<S, E, A> {
    /// Allocates a copy of the string, kept by the same allocator.
    pub fn try_clone(&self) -> (copy: Result<Self, A::AllocError>)
        requires
            self.wf(),
        ensures
            match copy {
                Ok(s) => {
                    &&& s.wf()
                    &&& s.units() == self.units()
                    &&& s.region() == S::image(self.units())
                },
                Err(e) => may_fail_with::<E::Unit, A>(S::allocated_units(self.units()), e),
            },
            alloc_error::<E::Unit, A>(S::allocated_units(self.units())) is Some ==> copy is Err,
    {
        proof {
            S::lemma_content_is_kept(self.region());
        }
        SeaString::new(self.as_units())
    }

    /// Constructs a string from a host string: it transcodes the characters
    /// to the encoding `E` and allocates a string for the units.  It fails
    /// where a character cannot be transcoded, else where the allocation
    /// fails.
    pub fn from_str(string: &str) -> (made: Result<
        Self,
        TranscodeError<
            <UnitIter<CheckedUnicode, VecIter<char>> as TranscodeTo<E>>::Error,
            A::AllocError,
        >,
    >) where UnitIter<CheckedUnicode, VecIter<char>>: TranscodeTo<E> + Units<Unit = char>
        ensures
            match made {
                Ok(s) => collected(
                    <UnitIter<CheckedUnicode, VecIter<char>> as TranscodeTo<E>>::items(string@),
                ) matches Ok(units) && s.region() == S::image(units) && s.wf(),
                Err(TranscodeError::Transcode(e)) => collected(
                    <UnitIter<CheckedUnicode, VecIter<char>> as TranscodeTo<E>>::items(string@),
                ) matches Err(first) && first == e,
                Err(TranscodeError::Alloc(e)) => collected(
                    <UnitIter<CheckedUnicode, VecIter<char>> as TranscodeTo<E>>::items(string@),
                ) matches Ok(units) && may_fail_with::<E::Unit, A>(S::allocated_units(units), e),
            },
    {
        let source = VecIter::new(chars_of(string));
        string_from_items(UnitIter::<CheckedUnicode, VecIter<char>>::new(source).transcode())
    }
}

/// Strings of a structure that has a default string.
impl<S: StructureAlloc<E, A> + StructureDefault<E>, E: Encoding, A: Allocator> SeaString<
    S,
    E,
    A,
> {
    /// Allocates the empty string.
    pub fn try_default() -> (string: Result<Self, A::AllocError>)
        ensures
            match string {
                Ok(s) => s.wf() && s.units().len() == 0 && s.region() == S::image(
                    Seq::<E::Unit>::empty(),
                ),
                Err(e) => may_fail_with::<E::Unit, A>(
                    S::allocated_units(Seq::<E::Unit>::empty()),
                    e,
                ),
            },
    {
        let empty = SeStr::<'static, S, E>::default();
        let units = empty.as_units();
        proof {
            assert(units@ =~= Seq::<E::Unit>::empty());
            S::lemma_image_is_valid(units@);
        }
        SeaString::new(units)
    }
}

/// Strings in the multibyte encoding of the host.  To transcode them takes
/// the host, and what comes of it is what the host makes of the units in the
/// locale of the calling thread.
impl<'a, S: Structure<MultiByte>> SeStr<'a, S, MultiByte> {
    /// Transcodes the units of this string to wide units, lazily.
    pub fn transcode_to_wide_iter<H: Host>(&self, host: H) -> (iter: MbsToWcIter2<
        SliceIter<'a, MbUnit>,
        H,
    >)
        ensures
            iter.offset() == 0,
            !iter.is_fused(),
            iter.source_is_exact(),
            iter.source_pending() == self.units(),
            iter.budget() == self.units().len(),
            iter.is_done() == (self.units().len() == 0),
    {
        MbsToWcIter2::new(self.iter(), host)
    }

    /// Transcodes the units of this string to Unicode, lazily.
    pub fn transcode_to_unicode_iter<H: Host>(&self, host: H) -> (iter: MbsToUniIter<
        SliceIter<'a, MbUnit>,
        H,
    >)
        ensures
            iter.offset() == 0,
            iter.source_offset() == 0,
            !iter.is_fused(),
            iter.source_is_exact(),
            iter.source_pending() == self.units(),
            iter.budget() == self.units().len(),
            iter.is_done() == (self.units().len() == 0),
    {
        MbsToUniIter::new(self.iter(), host)
    }

    /// Transcodes this string into a new string of wide units.  It fails
    /// where the host cannot transcode a character, else where the
    /// allocation of the new string fails.
    ///
    /// Whatever the host answers: the new string is what its structure
    /// stores for the wide units, of which there is one for every one to
    /// `MB_LEN_MAX` units of this string.  An error of the transcoding names
    /// an offset inside this string, as `mbs_to_wcs` says; an error of the
    /// allocation is one that the allocation of as many wide units can fail
    /// with.
    pub fn transcode_to_wide<U, A, H>(&self, host: H) -> (string: Result<
        SeaString<U, Wide, A>,
        TranscodeError<MbsToWcError, A::AllocError>,
    >) where U: StructureAlloc<Wide, A>, A: Allocator, H: Host
        ensures
            match string {
                Ok(s) => {
                    &&& s.wf()
                    &&& s.units().len() <= self.units().len()
                    &&& exists|w: Seq<WUnit>|
                        {
                            &&& s.region() == #[trigger] U::image(w)
                            &&& w.len() <= self.units().len() <= MB_LEN_MAX * w.len()
                        }
                },
                Err(TranscodeError::Alloc(e)) => exists|w: Seq<WUnit>|
                    {
                        &&& w.len() <= self.units().len() <= MB_LEN_MAX * w.len()
                        &&& may_fail_with::<WUnit, A>(#[trigger] U::allocated_units(w), e)
                    },
                Err(TranscodeError::Transcode(e)) => match e {
                    MbsToWcError::InvalidAt(at) => at < self.units().len(),
                    MbsToWcError::Incomplete => self.units().len() > 0,
                    MbsToWcError::OutOfBufferAt(at) => at + MB_LEN_MAX <= self.units().len(),
                },
            },
            self.units().len() == 0 ==> !(string matches Err(TranscodeError::Transcode(_))),
    {
        let wide = match mbs_to_wcs(self.as_units(), host) {
            Ok(wide) => wide,
            Err(e) => {
                return Err(TranscodeError::Transcode(e));
            },
        };
        proof {
            U::lemma_image_is_valid(wide@);
        }
        match SeaString::new(wide.as_slice()) {
            Ok(string) => Ok(string),
            Err(e) => Err(TranscodeError::Alloc(e)),
        }
    }

    /// Converts this string into a host string: it transcodes the units to
    /// Unicode and encodes the characters as UTF-8.  It fails where the host
    /// cannot transcode a character, and where a wide unit that the host
    /// gives is no character.
    ///
    /// Whatever the host answers: the host string has a character for every
    /// one to `MB_LEN_MAX` units of this string, so that it is empty if and
    /// only if this string is.  An error names an offset inside this string:
    /// `InvalidAt` that of a unit, or the number of characters before the
    /// wide unit that is none; `OutOfBufferAt` that of `MB_LEN_MAX` units
    /// that complete no character; and `Incomplete` comes of units at the
    /// end of this string.
    pub fn into_string_by<H: Host>(&self, host: H) -> (string: Result<String, MbsToUniError>)
        ensures
            match string {
                Ok(s) => s@.len() <= self.units().len() <= MB_LEN_MAX * s@.len(),
                Err(MbsToUniError::InvalidAt(at)) => at < self.units().len(),
                Err(MbsToUniError::Incomplete) => self.units().len() > 0,
                Err(MbsToUniError::OutOfBufferAt(at)) => at + MB_LEN_MAX
                    <= self.units().len(),
            },
            self.units().len() == 0 ==> (string matches Ok(s) && s@.len() == 0),
    {
        let mut iter = self.transcode_to_unicode_iter(host);
        let mut chars: Vec<char> = Vec::new();
        loop
            invariant
                !iter.is_fused(),
                iter.source_is_exact(),
                chars@.len() == iter.offset(),
                iter.offset() <= iter.source_offset() <= MB_LEN_MAX * iter.offset(),
                iter.source_offset() + iter.source_pending().len() == self.units().len(),
            decreases iter.budget(),
        {
            match iter.next() {
                None => {
                    return Ok(string_of(chars.as_slice()));
                },
                Some(Ok(c)) => {
                    chars.push(c);
                },
                Some(Err(e)) => {
                    return Err(e);
                },
            }
        }
    }
}

/// Strings in the wide encoding of the host.
impl<'a, S: Structure<Wide>> SeStr<'a, S, Wide> {
    /// Transcodes the units of this string to multibyte units, lazily.
    pub fn transcode_to_multibyte_iter<H: Host>(&self, host: H) -> (iter: WcsToMbIter<
        SliceIter<'a, WUnit>,
        H,
    >)
        ensures
            iter.offset() == 0,
            !iter.is_fused(),
            iter.buffered().len() == 0,
            iter.source_is_exact(),
            iter.source_pending() == self.units(),
            iter.budget() == MB_LEN_MAX * self.units().len(),
            iter.is_done() == (self.units().len() == 0),
    {
        WcsToMbIter::new(self.iter(), host)
    }

    /// Transcodes this string into a new string of multibyte units.  It
    /// fails where the host cannot transcode a character, else where the
    /// allocation of the new string fails.
    ///
    /// Whatever the host answers: the new string is what its structure
    /// stores for the multibyte units, of which there are one to
    /// `MB_LEN_MAX` for every unit of this string.  An error of the
    /// transcoding names the offset of a unit of this string; an error of
    /// the allocation is one that the allocation of as many multibyte units
    /// can fail with.
    pub fn transcode_to_multibyte<U, A, H>(&self, host: H) -> (string: Result<
        SeaString<U, MultiByte, A>,
        TranscodeError<WcsToMbError, A::AllocError>,
    >) where U: StructureAlloc<MultiByte, A>, A: Allocator, H: Host
        ensures
            match string {
                Ok(s) => {
                    &&& s.wf()
                    &&& s.units().len() <= MB_LEN_MAX * self.units().len()
                    &&& exists|m: Seq<MbUnit>|
                        {
                            &&& s.region() == #[trigger] U::image(m)
                            &&& self.units().len() <= m.len() <= MB_LEN_MAX * self.units().len()
                        }
                },
                Err(TranscodeError::Alloc(e)) => exists|m: Seq<MbUnit>|
                    {
                        &&& self.units().len() <= m.len() <= MB_LEN_MAX * self.units().len()
                        &&& may_fail_with::<MbUnit, A>(#[trigger] U::allocated_units(m), e)
                    },
                Err(TranscodeError::Transcode(WcsToMbError::InvalidAt(at))) => at
                    < self.units().len(),
            },
            self.units().len() == 0 ==> !(string matches Err(TranscodeError::Transcode(_))),
    {
        let units = match wcs_to_mbs(self.as_units(), host) {
            Ok(units) => units,
            Err(e) => {
                return Err(TranscodeError::Transcode(e));
            },
        };
        proof {
            U::lemma_image_is_valid(units@);
        }
        match SeaString::new(units.as_slice()) {
            Ok(string) => Ok(string),
            Err(e) => Err(TranscodeError::Alloc(e)),
        }
    }
}

/// Owned strings in the multibyte encoding of the host.
impl<S: StructureAlloc<MultiByte, A>, A: Allocator> SeaString<S, MultiByte, A> {
    /// Constructs a string from a host string: it transcodes the characters
    /// to wide units, has the host transcode these to multibyte units, and
    /// allocates a string for them.
    ///
    /// Whatever the host answers: the new string is what its structure
    /// stores for the multibyte units, of which there are one to
    /// `MB_LEN_MAX` for every character of the host string.  An error of the
    /// transcoding names the offset of a character; an error of the
    /// allocation is one that the allocation of as many multibyte units can
    /// fail with.
    pub fn from_str_by<H: Host>(string: &str, host: H) -> (made: Result<
        Self,
        TranscodeError<WcsToMbError, A::AllocError>,
    >)
        ensures
            match made {
                Ok(s) => {
                    &&& s.wf()
                    &&& s.units().len() <= MB_LEN_MAX * string@.len()
                    &&& exists|m: Seq<MbUnit>|
                        {
                            &&& s.region() == #[trigger] S::image(m)
                            &&& string@.len() <= m.len() <= MB_LEN_MAX * string@.len()
                        }
                },
                Err(TranscodeError::Alloc(e)) => exists|m: Seq<MbUnit>|
                    {
                        &&& string@.len() <= m.len() <= MB_LEN_MAX * string@.len()
                        &&& may_fail_with::<MbUnit, A>(#[trigger] S::allocated_units(m), e)
                    },
                Err(TranscodeError::Transcode(WcsToMbError::InvalidAt(at))) => at
                    < string@.len(),
            },
            string@.len() == 0 ==> !(made matches Err(TranscodeError::Transcode(_))),
    {
        let mut chars = UniToWcIter::new(VecIter::new(chars_of(string)));
        let wide = always_ok(collect(&mut chars));
        proof {
            lemma_collected_all_ok::<WUnit, NoError>(wide_of(string@));
        }
        let units = match wcs_to_mbs(wide.as_slice(), host) {
            Ok(units) => units,
            Err(e) => {
                return Err(TranscodeError::Transcode(e));
            },
        };
        proof {
            S::lemma_image_is_valid(units@);
        }
        match SeaString::new(units.as_slice()) {
            Ok(made) => Ok(made),
            Err(e) => Err(TranscodeError::Alloc(e)),
        }
    }
}

/// A mutably borrowed foreign string: a view of a region of memory that
/// holds a string of the structure `S`, through which the units of the
/// string can be written.
///
/// What the view leaves behind in the region is what `data` holds at last.
pub struct SeStrMut<'a, S: Structure<E>, E: Encoding> {
    /// The region that the string is a view of.
    pub data: &'a mut [E::Unit],
    /// Names the structure.
    pub structure: PhantomData<S>,
}

impl<'a, E: Encoding> SeStr<'a, Slice, E> {
    /// Views a mutable slice of units as a string.
    pub fn new_mut(units: &'a mut [E::Unit]) -> (string: SeStrMut<'a, Slice, E>)
        ensures
            string.wf(),
            string.data@ == old(units)@,
            final(string.data)@ == final(units)@,
    {
        SeStrMut { data: units, structure: PhantomData }
    }
}

impl<'a, S: Structure<E>, E: Encoding> SeStr<'a, S, E> {
    /// Mutably borrows a string from a foreign pointer.  The string is not
    /// read.  The null pointer gives no string.
    ///
    /// The region behind the pointer must hold a string of the structure:
    /// nothing else is checked of it.
    pub fn from_ptr_mut(ptr: FfiMutPtr<'a, E::Unit>) -> (string: Option<SeStrMut<'a, S, E>>)
        requires
            ptr matches Some(region) ==> S::is_valid(region@),
        ensures
            ptr is None ==> string is None,
            ptr matches Some(region) ==> string matches Some(s) && s.wf() && s.data@ == region@
                && final(region)@ == final(s.data)@,
    {
        match S::borrow_from_ffi_ptr_mut(ptr) {
            Some(data) => Some(SeStrMut { data, structure: PhantomData }),
            None => None,
        }
    }
}

impl<'a, S: Structure<E>, E: Encoding> SeStrMut<'a, S, E> {
    /// Whether the region holds a string.
    pub open spec fn wf(&self) -> bool {
        S::is_valid(self.data@)
    }

    /// The units of the string, without the units of the structure.
    pub open spec fn units(&self) -> Seq<E::Unit> {
        S::content(self.data@)
    }

    /// Borrows the string immutably.
    pub fn as_ref(&self) -> (string: SeStr<'_, S, E>)
        requires
            self.wf(),
        ensures
            string.region() == old(self.data)@,
            string.units() == self.units(),
    {
        SeStr { data: &*self.data, _marker: PhantomData }
    }

    /// Returns the units of the string as a mutable slice, without the units
    /// of the structure.
    ///
    /// The structure cannot be damaged through the slice, since its units
    /// are not in it.  But a zero unit that is written into a string with a
    /// terminator ends the string there, for good.  See also `as_units_mut`.
    pub fn as_units_mut_unsafe(self) -> (units: &'a mut [E::Unit])
        requires
            self.wf(),
        ensures
            units@ == self.units(),
            final(self.data)@ == final(units)@ + old(self.data)@.skip(units@.len() as int),
            final(units)@.len() == units@.len() ==> {
                &&& S::is_valid(final(self.data)@)
                &&& S::content(final(self.data)@).len() <= units@.len()
                &&& S::content(final(self.data)@) == final(units)@.take(
                    S::content(final(self.data)@).len() as int,
                )
            },
    {
        proof {
            let n = self.units().len() as int;
            let tail = self.data@.skip(n);
            assert forall|written: Seq<E::Unit>| written.len() == n implies S::is_valid(
                #[trigger] (written + tail),
            ) && S::content(written + tail).len() <= n && S::content(written + tail)
                == written.take(S::content(written + tail).len() as int) by {
                S::lemma_mutation_keeps_valid(self.data@, written);
            }
        }
        S::slice_units_mut(self.data)
    }

    /// Mutably borrows this string again as a string with a slice as its
    /// structure.  Such a string can be written to without a second look,
    /// whatever this one is: see `as_units_mut_unsafe`, and also
    /// `as_slice_mut`.
    pub fn as_slice_mut_unsafe(self) -> (string: SeStrMut<'a, Slice, E>)
        requires
            self.wf(),
        ensures
            string.wf(),
            string.data@ == self.units(),
            final(self.data)@ == final(string.data)@ + old(self.data)@.skip(
                self.units().len() as int,
            ),
    {
        SeStr::<'a, Slice, E>::new_mut(self.as_units_mut_unsafe())
    }

    /// Mutably borrows this string as a foreign pointer, which is never
    /// null.
    pub fn as_ptr_mut(self) -> (ptr: FfiMutPtr<'a, E::Unit>)
        ensures
            ptr matches Some(region) && region@ == old(self.data)@ && final(self.data)@
                == final(region)@,
    {
        S::as_ffi_ptr_mut(self.data)
    }
}

/// Strings of a structure for which writing to the units cannot change
/// anything else of the string.
impl<'a, S: MutationSafe<E>, E: Encoding> SeStrMut<'a, S, E> {
    /// Returns the units of the string as a mutable slice, without the units
    /// of the structure.  Whatever is written to the units, the region holds
    /// a string of the same length, with the units that were written.
    pub fn as_units_mut(self) -> (units: &'a mut [E::Unit])
        requires
            self.wf(),
        ensures
            units@ == self.units(),
            final(self.data)@ == final(units)@ + old(self.data)@.skip(units@.len() as int),
            final(units)@.len() == units@.len() ==> S::is_valid(final(self.data)@) && S::content(
                final(self.data)@,
            ) == final(units)@,
    {
        proof {
            let n = self.units().len() as int;
            let tail = self.data@.skip(n);
            assert forall|written: Seq<E::Unit>| written.len() == n implies S::is_valid(
                #[trigger] (written + tail),
            ) && S::content(written + tail) == written by {
                S::lemma_mutation_keeps_length(self.data@, written);
            }
        }
        self.as_units_mut_unsafe()
    }

    /// Mutably borrows this string again as a string with a slice as its
    /// structure.
    pub fn as_slice_mut(self) -> (string: SeStrMut<'a, Slice, E>)
        requires
            self.wf(),
        ensures
            string.wf(),
            string.data@ == self.units(),
            final(self.data)@ == final(string.data)@ + old(self.data)@.skip(
                self.units().len() as int,
            ),
    {
        self.as_slice_mut_unsafe()
    }
}

impl<S: StructureAlloc<E, A>, E: Encoding, A: Allocator> SeaString<S, E, A> {
    /// Borrows the string mutably.
    pub fn as_mut(&mut self) -> (string: SeStrMut<'_, S, E>)
        requires
            old(self).wf(),
        ensures
            string.wf(),
            string.data@ == old(self).region(),
            final(self).region() == final(string.data)@,
    {
        SeStrMut { data: S::borrow_from_owned_mut(&mut self.owned), structure: PhantomData }
    }
}

/// A string of wide units survives the round trip through a host string.
///
/// Let a string be made of wide units that its structure keeps and that are
/// transcoded to Unicode without an error.  Let the characters of the string
/// be encoded as the UTF-8 of a host string, and a second string be made of
/// the host string.  Then the second string has the units of which the first
/// was made.
pub proof fn lemma_wide_round_trip<S: StructureAlloc<Wide, A>, A: Allocator>(units: Seq<WUnit>)
    requires
        S::keeps(units),
        collected(crate::encoding::conv::linux::decoded(units, 0)) is Ok,
    ensures
        ({
            let first = S::content(S::image(units));
            let chars = collected(crate::encoding::conv::linux::decoded(first, 0))->Ok_0;
            let host = vstd::utf8::decode_utf8(vstd::utf8::encode_utf8(chars));
            let back = collected(crate::encoding::conv::linux::encoded(host));
            back matches Ok(second) && S::content(S::image(second)) == units
        }),
{
    S::lemma_image_is_valid(units);
    crate::encoding::conv::linux::lemma_round_trip(units);
}

/// A string of UTF-16 units survives the round trip through a host string.
///
/// Let a string be made of UTF-16 units that its structure keeps and that
/// are transcoded to Unicode without an error.  Let the characters of the
/// string be encoded as the UTF-8 of a host string, and a second string be
/// made of the host string.  Then the second string has the units of which
/// the first was made.
pub proof fn lemma_utf16_round_trip<S: StructureAlloc<Utf16, A>, A: Allocator>(
    units: Seq<Utf16Unit>,
)
    requires
        S::keeps(units),
        collected(crate::encoding::conv::windows::decoded(units, 0)) is Ok,
    ensures
        ({
            let first = S::content(S::image(units));
            let chars = collected(crate::encoding::conv::windows::decoded(first, 0))->Ok_0;
            let host = vstd::utf8::decode_utf8(vstd::utf8::encode_utf8(chars));
            let back = collected(
                crate::util::all_ok::<Utf16Unit, NoError>(
                    crate::encoding::conv::windows::utf16_of_all(host),
                ),
            );
            back matches Ok(second) && S::content(S::image(second)) == units
        }),
{
    S::lemma_image_is_valid(units);
    crate::encoding::conv::windows::lemma_round_trip(units);
}

} // verus!

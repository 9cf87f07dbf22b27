//! Structure types and traits.
//!
//! A structure says how the units of a string are laid out in a region of
//! memory and how the length of the string is recovered from it.  A region
//! is a slice of units here: what a foreign pointer points to, as far as it
//! can be read.
use crate::allocator::{Allocator, AllocatorError, BarePointer};
use crate::encoding::{Encoding, Unit};
use vstd::prelude::*;

verus! {

/// A foreign pointer to a borrowed string: the region that it points to, or
/// `None` for the null pointer.
pub type FfiPtr<'a, U> = Option<&'a [U]>;

/// A foreign pointer to a mutably borrowed string: the region that it
/// points to, or `None` for the null pointer.
pub type FfiMutPtr<'a, U> = Option<&'a mut [U]>;

/// A foreign pointer to an owned string: the storage that it points to, or
/// `None` for the null pointer.
pub type OwnedFfiPtr<U> = Option<Vec<U>>;

/// Abstracts over the structures of foreign strings: how a string is laid
/// out in memory and how its length is determined.
///
/// A structure is a marker type.  Most structures also implement
/// `StructureAlloc`, and some the other traits of this module.
pub trait Structure<E: Encoding>: Sized {
    /// Whether a region holds a string of this structure.
    spec fn is_valid(mem: Seq<E::Unit>) -> bool;

    /// The units of the string that a region holds, without terminators and
    /// other units of the structure.
    spec fn content(mem: Seq<E::Unit>) -> Seq<E::Unit>;

    /// The string of a region is the start of the region.
    proof fn lemma_content_is_prefix(mem: Seq<E::Unit>)
        requires
            Self::is_valid(mem),
        ensures
            Self::content(mem).len() <= mem.len(),
            Self::content(mem) == mem.take(Self::content(mem).len() as int),
    ;

    /// Writing to the units of a string cannot damage the structure: a
    /// region that holds a string holds one still when the units of the
    /// string are replaced by as many others.  The new string is made of
    /// the new units, but it can end before the last of them, where the
    /// structure ends a string at a unit that was written.
    proof fn lemma_mutation_keeps_valid(mem: Seq<E::Unit>, units: Seq<E::Unit>)
        requires
            Self::is_valid(mem),
            units.len() == Self::content(mem).len(),
        ensures
            Self::is_valid(units + mem.skip(units.len() as int)),
            Self::content(units + mem.skip(units.len() as int)).len() <= units.len(),
            Self::content(units + mem.skip(units.len() as int)) == units.take(
                Self::content(units + mem.skip(units.len() as int)).len() as int,
            ),
    ;

    /// The name that `debug_prefix` returns.
    spec fn prefix() -> Seq<char>;

    /// Whether the null pointer stands for the empty string.  Where it does
    /// not, the null pointer is no string.
    spec fn null_is_empty() -> bool;

    /// A short name for this structure in debug output.
    fn debug_prefix() -> (prefix: &'static str)
        ensures
            prefix@ == Self::prefix(),
    ;

    /// Borrows a string from a foreign pointer.
    ///
    /// The region of a pointer that is not null is borrowed as it is.  For
    /// the null pointer a structure either has no string, or it has the
    /// empty string.  The region is not read.
    fn borrow_from_ffi_ptr<'a>(ptr: FfiPtr<'a, E::Unit>) -> (mem: Option<&'a [E::Unit]>)
        requires
            ptr matches Some(region) ==> Self::is_valid(region@),
        ensures
            ptr is Some ==> mem == ptr,
            ptr is None ==> (mem is Some <==> Self::null_is_empty()),
            ptr is None ==> (mem matches Some(region) ==> Self::is_valid(region@)
                && Self::content(region@).len() == 0),
    ;

    /// The mutable sibling of `borrow_from_ffi_ptr`.  For the null pointer
    /// there is no string to write to, whatever the structure.
    fn borrow_from_ffi_ptr_mut<'a>(ptr: FfiMutPtr<'a, E::Unit>) -> (mem: Option<
        &'a mut [E::Unit],
    >)
        requires
            ptr matches Some(region) ==> Self::is_valid(region@),
        ensures
            ptr is None ==> mem is None,
            ptr matches Some(region) ==> mem matches Some(m) && m@ == region@ && final(region)@
                == final(m)@,
    ;

    /// Given a region that holds a string, returns the units of the string.
    ///
    /// A structure for which this takes constant time also implements
    /// `KnownLength`.
    fn slice_units<'a>(mem: &'a [E::Unit]) -> (units: &'a [E::Unit])
        requires
            Self::is_valid(mem@),
        ensures
            units@ == Self::content(mem@),
    ;

    /// The mutable sibling of `slice_units`.  What is written to the units
    /// is written to the region; the rest of the region stays as it is.
    fn slice_units_mut<'a>(mem: &'a mut [E::Unit]) -> (units: &'a mut [E::Unit])
        requires
            Self::is_valid(old(mem)@),
        ensures
            units@ == Self::content(old(mem)@),
            final(mem)@ == final(units)@ + old(mem)@.skip(units@.len() as int),
    ;

    /// Given the storage of an owned string, borrows its region.
    fn borrow_from_owned<'a>(owned: &'a Vec<E::Unit>) -> (mem: &'a [E::Unit])
        ensures
            mem@ == owned@,
    ;

    /// The mutable sibling of `borrow_from_owned`.
    fn borrow_from_owned_mut<'a>(owned: &'a mut Vec<E::Unit>) -> (mem: &'a mut [E::Unit])
        ensures
            mem@ == old(owned)@,
            final(mem)@ == final(owned)@,
    ;

    /// Given a region that holds a string, returns the foreign pointer to
    /// it, which is never null.
    fn as_ffi_ptr<'a>(mem: &'a [E::Unit]) -> (ptr: FfiPtr<'a, E::Unit>)
        ensures
            ptr == Some(mem),
    ;

    /// The mutable sibling of `as_ffi_ptr`.
    fn as_ffi_ptr_mut<'a>(mem: &'a mut [E::Unit]) -> (ptr: FfiMutPtr<'a, E::Unit>)
        ensures
            ptr matches Some(region) && region@ == old(mem)@ && final(mem)@ == final(region)@,
    ;
}

/// How the strings of a structure are allocated and freed.
///
/// It is a trait of its own because a structure can be tied to one
/// allocator.  The structures of this crate take every allocator whose
/// pointer type is `BarePointer`.
pub trait StructureAlloc<E: Encoding, A: Allocator>: Structure<E> {
    /// The number of units that are allocated for a string with the given
    /// units.
    spec fn allocated_units(units: Seq<E::Unit>) -> nat;

    /// What the storage of a string with the given units holds.
    spec fn image(units: Seq<E::Unit>) -> Seq<E::Unit>;

    /// Whether a string with the given units reads as it was stored.
    /// Units that a structure takes for its own, such as a zero unit where
    /// the structure ends a string with one, are not kept.
    spec fn keeps(units: Seq<E::Unit>) -> bool;

    /// The storage of a string holds a string, and has the size that is
    /// allocated for it.  The string reads as the units it was made of, or
    /// as the start of them.
    proof fn lemma_image_is_valid(units: Seq<E::Unit>)
        ensures
            Self::is_valid(Self::image(units)),
            Self::image(units).len() == Self::allocated_units(units),
            Self::content(Self::image(units)).len() <= units.len(),
            Self::content(Self::image(units)) == units.take(
                Self::content(Self::image(units)).len() as int,
            ),
            Self::keeps(units) ==> Self::content(Self::image(units)) == units,
    ;

    /// The units of a string are kept: a copy of a string reads as the
    /// string does.
    proof fn lemma_content_is_kept(mem: Seq<E::Unit>)
        requires
            Self::is_valid(mem),
        ensures
            Self::keeps(Self::content(mem)),
    ;

    /// Allocates a string with the given units.
    ///
    /// It fails with the overflow error of the allocator where the size in
    /// bytes does not fit the machine word, else with the error with which
    /// the allocator refuses the request, if it does.  A request that the
    /// allocator admits can still find no memory.
    fn alloc_owned(units: &[E::Unit]) -> (owned: Result<Vec<E::Unit>, A::AllocError>)
        ensures
            match owned {
                Ok(storage) => storage@ == Self::image(units@),
                Err(e) => may_fail_with::<E::Unit, A>(Self::allocated_units(units@), e),
            },
            alloc_error::<E::Unit, A>(Self::allocated_units(units@)) is Some ==> owned is Err,
    ;

    /// Frees the storage of a string.
    fn free_owned(owned: Vec<E::Unit>);
}

/// The error that is certain for the allocation of `units` units of type `U`
/// by the allocator `A`, if one is: the overflow error where the size in
/// bytes does not fit the machine word, else the one with which the
/// allocator refuses the request.
pub open spec fn alloc_error<U, A: Allocator>(units: nat) -> Option<A::AllocError> {
    let bytes = units * vstd::layout::size_of::<U>();
    if units > usize::MAX || bytes > usize::MAX {
        Some(A::AllocError::overflow_error())
    } else {
        A::refusal(bytes as usize, vstd::layout::align_of::<U>() as usize)
    }
}

/// Whether the allocation of `units` units of type `U` by the allocator `A`
/// can fail with `error`: with the error that is certain for it, if one is,
/// else with the error of a request that found no memory.
pub open spec fn may_fail_with<U, A: Allocator>(units: nat, error: A::AllocError) -> bool {
    match alloc_error::<U, A>(units) {
        Some(certain) => error == certain,
        None => error == A::failed(),
    }
}

/// Implemented by structures which have a default string: the empty string.
pub trait StructureDefault<E: Encoding>: Structure<E> {
    /// A region that holds the empty string and that needs no allocation.
    fn default() -> (mem: &'static [E::Unit])
        ensures
            Self::is_valid(mem@),
            Self::content(mem@).len() == 0,
    ;
}

/// Implemented by structures that find the length of a string in constant
/// time.
pub trait KnownLength {
}

/// Implemented by structures for which writing to the units of a string
/// cannot change anything else of the string: not its length, and not
/// whether its region holds a string.
pub trait MutationSafe<E: Encoding>: Structure<E> {
    /// A region that holds a string holds one of the same length when the
    /// units of the string are replaced by as many others.
    proof fn lemma_mutation_keeps_length(mem: Seq<E::Unit>, units: Seq<E::Unit>)
        requires
            Self::is_valid(mem),
            units.len() == Self::content(mem).len(),
        ensures
            Self::is_valid(units + mem.skip(units.len() as int)),
            Self::content(units + mem.skip(units.len() as int)) == units,
    ;
}

/// What a foreign pointer to owned storage points to: nothing, for the null
/// pointer, or the units of the storage.
pub open spec fn pointee<U>(ptr: OwnedFfiPtr<U>) -> Option<Seq<U>> {
    match ptr {
        Some(storage) => Some(storage@),
        None => None,
    }
}

/// Implemented by structures whose owned strings can be handed to foreign
/// code and taken over from it.
pub trait OwnershipTransfer<E: Encoding>: Structure<E> {
    /// Takes over the storage behind a foreign pointer, unless the pointer
    /// is null.
    fn owned_from_ffi_ptr(ptr: OwnedFfiPtr<E::Unit>) -> (owned: Option<Vec<E::Unit>>)
        requires
            ptr matches Some(storage) ==> Self::is_valid(storage@),
        ensures
            owned == ptr,
            pointee(owned) == pointee(ptr),
    ;

    /// Hands out the storage of an owned string as a foreign pointer, and
    /// leaves storage without units behind, which owns no memory.
    fn into_ffi_ptr(owned: &mut Vec<E::Unit>) -> (ptr: OwnedFfiPtr<E::Unit>)
        ensures
            pointee(ptr) == Some(old(owned)@),
            final(owned)@.len() == 0,
    ;
}

/// Implemented for structures whose strings end with a zero unit.
pub trait ZeroTerminated<E: Encoding>: Structure<E> {
    /// Given a region that holds a string, returns the units of the string
    /// and the zero unit behind them.
    fn slice_units_with_term<'a>(mem: &'a [E::Unit]) -> (units: &'a [E::Unit])
        requires
            Self::is_valid(mem@),
        ensures
            units@.len() == Self::content(mem@).len() + 1,
            units@.last().code() == 0,
            units@.drop_last() == Self::content(mem@),
    ;
}

/// The offset of the first zero unit of a region, or the length of the
/// region if it holds none.
pub open spec fn zero_index<U: Unit>(mem: Seq<U>) -> nat
    decreases mem.len(),
{
    if mem.len() == 0 || mem[0].code() == 0 {
        0
    } else {
        1 + zero_index(mem.skip(1))
    }
}

/// No unit before `zero_index` is zero, and the unit at `zero_index` is, if
/// there is one.
pub proof fn lemma_zero_index<U: Unit>(mem: Seq<U>)
    ensures
        zero_index(mem) <= mem.len(),
        forall|i: int| 0 <= i < zero_index(mem) ==> (#[trigger] mem[i]).code() != 0,
        zero_index(mem) < mem.len() ==> mem[zero_index(mem) as int].code() == 0,
    decreases mem.len(),
{
    if mem.len() == 0 || mem[0].code() == 0 {
    } else {
        lemma_zero_index(mem.skip(1));
        assert forall|i: int| 0 <= i < zero_index(mem) implies (#[trigger] mem[i]).code()
            != 0 by {
            if i > 0 {
                assert(mem[i] == mem.skip(1)[i - 1]);
            }
        }
    }
}

/// The first zero unit is where a zero unit stands behind units that are
/// not zero.
pub proof fn lemma_zero_index_is<U: Unit>(mem: Seq<U>, at: int)
    requires
        0 <= at <= mem.len(),
        forall|i: int| 0 <= i < at ==> (#[trigger] mem[i]).code() != 0,
        at < mem.len() ==> mem[at].code() == 0,
    ensures
        zero_index(mem) == at,
{
    lemma_zero_index(mem);
}

/// The zero unit of a unit type.
pub open spec fn zero_unit<U: Unit>() -> U {
    U::zero_value()
}

/// There is one zero unit.
pub proof fn lemma_zero_unit<U: Unit>(z: U)
    requires
        z.code() == 0,
    ensures
        z == zero_unit::<U>(),
{
    U::lemma_zero_value();
    U::code_is_injective(z, zero_unit::<U>());
}

/// The units of `mem` before its first zero unit.
pub open spec fn until_zero<U: Unit>(mem: Seq<U>) -> Seq<U> {
    mem.take(zero_index(mem) as int)
}

/// Whether a string ends with a zero unit.
pub open spec fn ends_with_zero<U: Unit>(units: Seq<U>) -> bool {
    units.len() > 0 && units.last().code() == 0
}

/// The offset of the first zero unit of a region that holds one.
fn find_zero<U: Unit>(mem: &[U]) -> (len: usize)
    requires
        zero_index(mem@) < mem@.len(),
    ensures
        len == zero_index(mem@),
{
    proof {
        lemma_zero_index(mem@);
    }
    let mut len: usize = 0;
    while !mem[len].is_zero()
        invariant
            len <= zero_index(mem@) < mem@.len(),
            forall|i: int| 0 <= i < zero_index(mem@) ==> (#[trigger] mem@[i]).code() != 0,
            mem@[zero_index(mem@) as int].code() == 0,
        decreases mem@.len() - len,
    {
        len = len + 1;
    }
    len
}

/// Strings represented by a pointer to the first unit, with a terminating
/// zero unit.
///
/// This is the structure of the strings of C.  The string of a region ends
/// before the first zero unit of the region, whatever stands behind it; a
/// region without a zero unit holds no string.
pub enum ZeroTerm {
    /// The marker itself; nothing holds it.
    Marker,
}

impl<E: Encoding> Structure<E> for ZeroTerm {
    open spec fn is_valid(mem: Seq<E::Unit>) -> bool {
        zero_index(mem) < mem.len()
    }

    open spec fn content(mem: Seq<E::Unit>) -> Seq<E::Unit> {
        until_zero(mem)
    }

    proof fn lemma_content_is_prefix(mem: Seq<E::Unit>) {
    }

    proof fn lemma_mutation_keeps_valid(mem: Seq<E::Unit>, units: Seq<E::Unit>) {
        let n = units.len() as int;
        let written = units + mem.skip(n);
        lemma_zero_index(mem);
        lemma_zero_index(written);
        if zero_index(written) > n {
            assert(written[n].code() != 0);
        }
    }

    open spec fn prefix() -> Seq<char> {
        "Z"@
    }

    open spec fn null_is_empty() -> bool {
        false
    }

    fn debug_prefix() -> (prefix: &'static str) {
        "Z"
    }

    fn borrow_from_ffi_ptr<'a>(ptr: FfiPtr<'a, E::Unit>) -> (mem: Option<&'a [E::Unit]>) {
        match ptr {
            None => None,
            Some(region) => Some(region),
        }
    }

    fn slice_units<'a>(mem: &'a [E::Unit]) -> (units: &'a [E::Unit]) {
        let len = find_zero(mem);
        vstd::slice::slice_subrange(mem, 0, len)
    }

    fn slice_units_mut<'a>(mem: &'a mut [E::Unit]) -> (units: &'a mut [E::Unit]) {
        let len = find_zero(mem);
        let (units, _rest) = mem.split_at_mut(len);
        units
    }

    fn borrow_from_owned<'a>(owned: &'a Vec<E::Unit>) -> (mem: &'a [E::Unit]) {
        owned.as_slice()
    }

    fn borrow_from_owned_mut<'a>(owned: &'a mut Vec<E::Unit>) -> (mem: &'a mut [E::Unit]) {
        owned.as_mut_slice()
    }

    fn as_ffi_ptr<'a>(mem: &'a [E::Unit]) -> (ptr: FfiPtr<'a, E::Unit>) {
        Some(mem)
    }

    fn as_ffi_ptr_mut<'a>(mem: &'a mut [E::Unit]) -> (ptr: FfiMutPtr<'a, E::Unit>) {
        Some(mem)
    }

    fn borrow_from_ffi_ptr_mut<'a>(ptr: FfiMutPtr<'a, E::Unit>) -> (mem: Option<
        &'a mut [E::Unit],
    >) {
        match ptr {
            None => None,
            Some(region) => Some(region),
        }
    }
}

impl<E: Encoding, A: Allocator<Pointer = BarePointer>> StructureAlloc<E, A> for ZeroTerm {
    /// One unit more than the string has, for the terminator, unless the
    /// string already ends with a zero unit.
    open spec fn allocated_units(units: Seq<E::Unit>) -> nat {
        if ends_with_zero(units) {
            units.len()
        } else {
            units.len() + 1
        }
    }

    /// The units of the string, and a zero unit unless the string already
    /// ends with one.
    open spec fn image(units: Seq<E::Unit>) -> Seq<E::Unit> {
        if ends_with_zero(units) {
            units
        } else {
            units.push(zero_unit::<E::Unit>())
        }
    }

    /// A string is kept if it holds no zero unit.
    open spec fn keeps(units: Seq<E::Unit>) -> bool {
        forall|i: int| 0 <= i < units.len() ==> (#[trigger] units[i]).code() != 0
    }

    proof fn lemma_image_is_valid(units: Seq<E::Unit>) {
        lemma_image_content(units);
        if <Self as StructureAlloc<E, A>>::keeps(units) {
            lemma_zero_index_is(units, units.len() as int);
        }
    }

    proof fn lemma_content_is_kept(mem: Seq<E::Unit>) {
        lemma_zero_index(mem);
    }

    /// Allocates the units and the terminator.  Zero units inside the string
    /// are not looked for: they are stored, and the string then reads as
    /// ending before the first of them.
    fn alloc_owned(units: &[E::Unit]) -> (owned: Result<Vec<E::Unit>, A::AllocError>) {
        let n = units.len();
        let add_term = !(n > 0 && units[n - 1].is_zero());
        // One more for the terminator.
        let total_u = match n.checked_add(if add_term { 1 } else { 0 }) {
            Some(total_u) => total_u,
            None => {
                return Err(A::AllocError::overflow());
            },
        };
        let unit_b = core::mem::size_of::<E::Unit>();
        let total_b = match total_u.checked_mul(unit_b) {
            Some(total_b) => total_b,
            None => {
                return Err(A::AllocError::overflow());
            },
        };
        let mut s = match A::alloc_bytes::<E::Unit>(
            total_u,
            total_b,
            core::mem::align_of::<E::Unit>(),
        ) {
            Ok(s) => s,
            Err(e) => {
                return Err(e);
            },
        };
        let mut i: usize = 0;
        while i < n
            invariant
                i <= n <= total_u,
                n == units@.len(),
                s@.len() == total_u,
                s@.take(i as int) == units@.take(i as int),
                forall|j: int| i <= j < total_u ==> (#[trigger] s@[j]).code() == 0,
            decreases n - i,
        {
            s[i] = units[i];
            i = i + 1;
        }
        s[total_u - 1] = E::Unit::zero();
        proof {
            lemma_zero_unit(s@[total_u - 1]);
            assert(units@.take(n as int) =~= units@);
            if add_term {
            } else {
                E::Unit::code_is_injective(s@[total_u - 1], units@[n - 1]);
            }
        }
        Ok(s)
    }

    fn free_owned(owned: Vec<E::Unit>) {
        A::free(owned, core::mem::align_of::<E::Unit>());
    }
}

impl<E: Encoding> StructureDefault<E> for ZeroTerm {
    /// The zero units that every encoding keeps: a terminator with nothing
    /// before it.
    fn default() -> (mem: &'static [E::Unit]) {
        let mem = E::static_zeroes();
        mem
    }
}

impl<E: Encoding> OwnershipTransfer<E> for ZeroTerm {
    fn owned_from_ffi_ptr(ptr: OwnedFfiPtr<E::Unit>) -> (owned: Option<Vec<E::Unit>>) {
        match ptr {
            None => None,
            Some(storage) => Some(storage),
        }
    }

    fn into_ffi_ptr(owned: &mut Vec<E::Unit>) -> (ptr: OwnedFfiPtr<E::Unit>) {
        let mut storage: Vec<E::Unit> = Vec::new();
        core::mem::swap(owned, &mut storage);
        Some(storage)
    }
}

impl<E: Encoding> ZeroTerminated<E> for ZeroTerm {
    fn slice_units_with_term<'a>(mem: &'a [E::Unit]) -> (units: &'a [E::Unit]) {
        let len = find_zero(mem);
        assert(len < mem.len());
        let units = vstd::slice::slice_subrange(mem, 0, len + 1);
        proof {
            lemma_zero_index(mem@);
        }
        units
    }
}

/// Strings represented by a pointer to the first unit and the number of
/// units, as slices are.  Such a string has no terminator, and every region
/// holds the string of all its units.
pub enum Slice {
    /// The marker itself; nothing holds it.
    Marker,
}

impl<E: Encoding> Structure<E> for Slice {
    open spec fn is_valid(mem: Seq<E::Unit>) -> bool {
        true
    }

    open spec fn content(mem: Seq<E::Unit>) -> Seq<E::Unit> {
        mem
    }

    proof fn lemma_content_is_prefix(mem: Seq<E::Unit>) {
    }

    proof fn lemma_mutation_keeps_valid(mem: Seq<E::Unit>, units: Seq<E::Unit>) {
    }

    open spec fn prefix() -> Seq<char> {
        "S"@
    }

    open spec fn null_is_empty() -> bool {
        false
    }

    fn debug_prefix() -> (prefix: &'static str) {
        "S"
    }

    fn borrow_from_ffi_ptr<'a>(ptr: FfiPtr<'a, E::Unit>) -> (mem: Option<&'a [E::Unit]>) {
        match ptr {
            None => None,
            Some(region) => Some(region),
        }
    }

    fn slice_units<'a>(mem: &'a [E::Unit]) -> (units: &'a [E::Unit]) {
        mem
    }

    fn slice_units_mut<'a>(mem: &'a mut [E::Unit]) -> (units: &'a mut [E::Unit]) {
        mem
    }

    fn borrow_from_owned<'a>(owned: &'a Vec<E::Unit>) -> (mem: &'a [E::Unit]) {
        owned.as_slice()
    }

    fn borrow_from_owned_mut<'a>(owned: &'a mut Vec<E::Unit>) -> (mem: &'a mut [E::Unit]) {
        owned.as_mut_slice()
    }

    fn as_ffi_ptr<'a>(mem: &'a [E::Unit]) -> (ptr: FfiPtr<'a, E::Unit>) {
        Some(mem)
    }

    fn as_ffi_ptr_mut<'a>(mem: &'a mut [E::Unit]) -> (ptr: FfiMutPtr<'a, E::Unit>) {
        Some(mem)
    }

    fn borrow_from_ffi_ptr_mut<'a>(ptr: FfiMutPtr<'a, E::Unit>) -> (mem: Option<
        &'a mut [E::Unit],
    >) {
        match ptr {
            None => None,
            Some(region) => Some(region),
        }
    }
}

impl<E: Encoding, A: Allocator<Pointer = BarePointer>> StructureAlloc<E, A> for Slice {
    open spec fn allocated_units(units: Seq<E::Unit>) -> nat {
        units.len()
    }

    open spec fn image(units: Seq<E::Unit>) -> Seq<E::Unit> {
        units
    }

    /// Every string is kept.
    open spec fn keeps(units: Seq<E::Unit>) -> bool {
        true
    }

    proof fn lemma_image_is_valid(units: Seq<E::Unit>) {
    }

    proof fn lemma_content_is_kept(mem: Seq<E::Unit>) {
    }

    fn alloc_owned(units: &[E::Unit]) -> (owned: Result<Vec<E::Unit>, A::AllocError>) {
        let total_u = units.len();
        let unit_b = core::mem::size_of::<E::Unit>();
        let total_b = match total_u.checked_mul(unit_b) {
            Some(total_b) => total_b,
            None => {
                return Err(A::AllocError::overflow());
            },
        };
        let mut s = match A::alloc_bytes::<E::Unit>(
            total_u,
            total_b,
            core::mem::align_of::<E::Unit>(),
        ) {
            Ok(s) => s,
            Err(e) => {
                return Err(e);
            },
        };
        let mut i: usize = 0;
        while i < total_u
            invariant
                i <= total_u,
                total_u == units@.len(),
                s@.len() == total_u,
                s@.take(i as int) == units@.take(i as int),
            decreases total_u - i,
        {
            s[i] = units[i];
            i = i + 1;
        }
        proof {
            assert(s@.take(total_u as int) =~= s@);
        }
        Ok(s)
    }

    fn free_owned(owned: Vec<E::Unit>) {
        A::free(owned, core::mem::align_of::<E::Unit>());
    }
}

impl<E: Encoding> StructureDefault<E> for Slice {
    /// The empty slice.
    fn default() -> (mem: &'static [E::Unit]) {
        let zeroes = E::static_zeroes();
        vstd::slice::slice_subrange(zeroes, 0, 0)
    }
}

impl KnownLength for Slice {
}

impl<E: Encoding> MutationSafe<E> for Slice {
    proof fn lemma_mutation_keeps_length(mem: Seq<E::Unit>, units: Seq<E::Unit>) {
    }
}

impl<E: Encoding> OwnershipTransfer<E> for Slice {
    fn owned_from_ffi_ptr(ptr: OwnedFfiPtr<E::Unit>) -> (owned: Option<Vec<E::Unit>>) {
        match ptr {
            None => None,
            Some(storage) => Some(storage),
        }
    }

    fn into_ffi_ptr(owned: &mut Vec<E::Unit>) -> (ptr: OwnedFfiPtr<E::Unit>) {
        let mut storage: Vec<E::Unit> = Vec::new();
        core::mem::swap(owned, &mut storage);
        Some(storage)
    }
}

/// What the storage that `ZeroTerm` allocates for a string reads as: the
/// units of the string before its first zero unit.
pub proof fn lemma_image_content<U: Unit>(units: Seq<U>)
    ensures
        ({
            let image = if ends_with_zero(units) {
                units
            } else {
                units.push(zero_unit::<U>())
            };
            &&& zero_index(image) < image.len()
            &&& until_zero(image) == until_zero(units)
        }),
{
    U::lemma_zero_value();
    lemma_zero_index(units);
    if !ends_with_zero(units) {
        lemma_zero_index_is(units.push(zero_unit::<U>()), zero_index(units) as int);
    }
}

} // verus!

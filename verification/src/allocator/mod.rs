//! Allocation types and traits.
//!
//! An allocator names who owns the storage of an owned string.  In this
//! process the units of a string are kept in storage of the host runtime; an
//! allocator decides which requests it admits, and reports the requests that
//! found no memory.  Whoever hands a string to foreign code moves its units
//! into memory of the allocator that the string's type names.
use crate::encoding::Unit;
use vstd::prelude::*;
use vstd::string::StringExecFns;

verus! {

/// The pointer type of the allocators that can hold any structure.  A
/// structure that needs an allocator of its own asks for another type, so
/// that it cannot be paired with the others.
pub struct BarePointer;

/// Abstracts over different memory allocators.
pub trait Allocator {
    /// The type of errors that can occur during allocation.
    type AllocError: AllocatorError;

    /// What identifies the allocations of this allocator.  Unless the
    /// allocator can hold strings of some structures only, this is
    /// `BarePointer`.
    type Pointer;

    /// The error with which the allocator turns a request away before it
    /// looks for memory, if it does.
    spec fn refusal(bytes: usize, align: usize) -> Option<Self::AllocError>;

    /// The error of a request that found no memory.
    spec fn failed() -> Self::AllocError;

    /// Allocates `bytes` bytes with the given alignment, as storage for
    /// `units` units.  The storage holds zero units.
    ///
    /// A request that the allocator admits can still find no memory.
    fn alloc_bytes<U: Unit>(units: usize, bytes: usize, align: usize) -> (storage: Result<
        Vec<U>,
        Self::AllocError,
    >)
        requires
            bytes == units * vstd::layout::size_of::<U>(),
        ensures
            Self::refusal(bytes, align) matches Some(e) ==> storage == Err::<Vec<U>, _>(e),
            match storage {
                Ok(v) => v@.len() == units && forall|i: int|
                    0 <= i < units ==> (#[trigger] v@[i]).code() == 0,
                Err(e) => Self::refusal(bytes, align) == Some(e) || (Self::refusal(bytes, align)
                    is None && e == Self::failed()),
            },
    ;

    /// Frees an allocation.
    fn free<U: Unit>(storage: Vec<U>, align: usize);

    /// The name that `debug_prefix` returns.
    spec fn prefix() -> Seq<char>;

    /// A short name for this allocator in debug output.
    fn debug_prefix() -> (prefix: &'static str)
        ensures
            prefix@ == Self::prefix(),
    ;
}

/// What an allocation error must provide.
pub trait AllocatorError: Sized {
    /// The error that says that the size of an allocation does not fit the
    /// machine word.
    spec fn overflow_error() -> Self;

    /// Constructs the error that says that the size of an allocation does
    /// not fit the machine word.
    fn overflow() -> (e: Self)
        ensures
            e == Self::overflow_error(),
    ;
}

/// A general allocation error.
#[derive(Clone, Copy, Debug, PartialEq, Eq, Structural, Hash)]
pub enum AllocError {
    /// The allocator had no memory for the request.
    Failed,
    /// The allocator does not guarantee the alignment asked for.
    CannotAlign,
    /// The size of the allocation does not fit the machine word.
    SizeOverflow,
}

impl AllocatorError for AllocError {
    open spec fn overflow_error() -> Self {
        AllocError::SizeOverflow
    }

    fn overflow() -> (e: Self) {
        AllocError::SizeOverflow
    }
}

impl AllocError {
    /// What the error says.
    pub open spec fn message(&self) -> Seq<char> {
        match *self {
            AllocError::Failed => "failed to allocate memory"@,
            AllocError::CannotAlign => "cannot satisfy requested alignment"@,
            AllocError::SizeOverflow => "overflow while computing size"@,
        }
    }

    /// Appends what the error says to `out`.
    pub fn fmt(&self, out: &mut String)
        ensures
            final(out)@ == old(out)@ + self.message(),
    {
        out.append(self.description());
    }

    /// What the error says, as a string.
    pub fn to_string(&self) -> (text: String)
        ensures
            text@ == self.message(),
    {
        let mut text = String::new();
        self.fmt(&mut text);
        text
    }

    /// What the error says, in words.
    pub fn description(&self) -> (text: &'static str)
        ensures
            text@ == self.message(),
    {
        match *self {
            AllocError::Failed => "failed to allocate memory",
            AllocError::CannotAlign => "cannot satisfy requested alignment",
            AllocError::SizeOverflow => "overflow while computing size",
        }
    }
}

/// Storage for `units` zero units, unless the host runtime has no memory for
/// them.  Storage without units takes no memory, and is always there.
pub fn zeroed_storage<U: Unit>(units: usize) -> (storage: Option<Vec<U>>)
    ensures
        storage matches Some(v) ==> v@.len() == units && forall|i: int|
            0 <= i < units ==> (#[trigger] v@[i]).code() == 0,
        units == 0 ==> storage is Some,
{
    let mut v: Vec<U> = Vec::new();
    if units > 0 && v.try_reserve(units).is_err() {
        return None;
    }
    let mut i: usize = 0;
    while i < units
        invariant
            i <= units,
            v@.len() == i,
            forall|j: int| 0 <= j < i ==> (#[trigger] v@[j]).code() == 0,
        decreases units - i,
    {
        v.push(U::zero());
        i = i + 1;
    }
    Some(v)
}

/// Represents the C runtime heap allocator, `malloc` and `free`.
pub enum Malloc {
    /// The marker itself; nothing holds it.
    Marker,
}

impl Allocator for Malloc {
    type AllocError = AllocError;

    type Pointer = BarePointer;

    /// The C heap aligns for every basic type; the library takes that to
    /// mean no more than the alignment of a machine word.
    open spec fn refusal(bytes: usize, align: usize) -> Option<AllocError> {
        if align > vstd::layout::align_of::<usize>() {
            Some(AllocError::CannotAlign)
        } else {
            None
        }
    }

    open spec fn failed() -> AllocError {
        AllocError::Failed
    }

    fn alloc_bytes<U: Unit>(units: usize, bytes: usize, align: usize) -> (storage: Result<
        Vec<U>,
        AllocError,
    >) {
        // A conservative guess.
        if align > core::mem::align_of::<usize>() {
            return Err(AllocError::CannotAlign);
        }
        match zeroed_storage(units) {
            Some(v) => Ok(v),
            None => Err(AllocError::Failed),
        }
    }

    fn free<U: Unit>(storage: Vec<U>, _align: usize) {
        // The storage goes back to the host runtime.
        let _ = storage;
    }

    open spec fn prefix() -> Seq<char> {
        "C"@
    }

    fn debug_prefix() -> (prefix: &'static str) {
        "C"
    }
}

/// The number of bytes that the allocator of the host runtime adds to an
/// allocation at most: a word of eight bytes in front, for the length, and
/// up to seven bytes behind, to fill the last word.
pub const RUST_OVERHEAD_BYTES: usize = 15;

/// Represents the heap allocator of the host runtime.
pub enum Rust {
    /// The marker itself; nothing holds it.
    Marker,
}

impl Allocator for Rust {
    type AllocError = AllocError;

    type Pointer = BarePointer;

    /// The allocator aligns to eight bytes at most, and what it adds and the
    /// bytes asked for must fit the machine word together.
    open spec fn refusal(bytes: usize, align: usize) -> Option<AllocError> {
        if align > 8 {
            Some(AllocError::CannotAlign)
        } else if bytes + RUST_OVERHEAD_BYTES > usize::MAX {
            Some(AllocError::SizeOverflow)
        } else {
            None
        }
    }

    open spec fn failed() -> AllocError {
        AllocError::Failed
    }

    fn alloc_bytes<U: Unit>(units: usize, bytes: usize, align: usize) -> (storage: Result<
        Vec<U>,
        AllocError,
    >) {
        if align > 8 {
            return Err(AllocError::CannotAlign);
        }
        if bytes.checked_add(RUST_OVERHEAD_BYTES).is_none() {
            return Err(AllocError::SizeOverflow);
        }
        match zeroed_storage(units) {
            Some(v) => Ok(v),
            None => Err(AllocError::Failed),
        }
    }

    fn free<U: Unit>(storage: Vec<U>, _align: usize) {
        // The storage goes back to the host runtime.
        let _ = storage;
    }

    open spec fn prefix() -> Seq<char> {
        "R"@
    }

    fn debug_prefix() -> (prefix: &'static str) {
        "R"
    }
}

} // verus!

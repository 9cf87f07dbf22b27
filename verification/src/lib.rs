//! Types for interoperating with the strings of other languages and
//! environments.
//!
//! A foreign string varies along three axes: its *structure* (how the units
//! are laid out and how the length is recovered), its *encoding* (what the
//! units mean) and its *allocator* (who owns the storage).  Every string type
//! of this crate names all three, so that a string of one kind cannot be
//! taken for one of another.
//!
//! | Foreign type | Documented as | Type |
//! | ---: | --- | --- |
//! | `const char *` | zero-terminated C string | `ZMbStr` |
//! | `char *` | owned zero-terminated C string, from `malloc` | `ZMbCString` |
//! | `const wchar_t *` | zero-terminated wide C string | `ZWStr` |
//! | `wchar_t *` | owned zero-terminated wide C string, from `malloc` | `ZWCString` |
//!
//! This crate holds no pointer.  A borrowed string views a region of units
//! that the caller hands over as a slice, and an owned string keeps its units
//! in storage of this process; whoever crosses the foreign boundary converts
//! between such storage and raw memory, unit by unit.  In the same way the
//! crate does not call the C runtime: the transcodings that depend on the
//! locale take the host's converters as a `Host`, or are driven step by step
//! by whoever has the answers of the host.
use vstd::prelude::*;

pub mod allocator;
pub mod encoding;
pub mod ffi;
pub mod iter;
pub mod order;
pub mod sea;
pub mod structure;
pub mod text;
pub mod util;
pub mod wrapper;

pub use crate::sea::{SeStr, SeaString};
pub use crate::wrapper::{ZMbCString, ZMbStr};

verus! {

/// A borrowed, zero-terminated string of wide units.
pub type ZWStr<'a> = SeStr<'a, crate::structure::ZeroTerm, crate::encoding::Wide>;

/// An owned, zero-terminated string of wide units, kept by the C runtime
/// heap.
pub type ZWCString = SeaString<
    crate::structure::ZeroTerm,
    crate::encoding::Wide,
    crate::allocator::Malloc,
>;

} // verus!

//! The strings of C under names of their own: zero-terminated strings of
//! multibyte units, which the C runtime heap keeps where they are owned.
use crate::allocator::{AllocError, Malloc};
use crate::encoding::{MbUnit, MultiByte, Unit};
use crate::encoding::conv::mb_x_wc::{MbsToUniError, WcsToMbError};
use crate::ffi::{Host, MB_LEN_MAX};
use crate::sea::{SeStr, SeaString, TranscodeError};
use crate::structure::{
    ends_with_zero, may_fail_with, pointee, until_zero, zero_index, zero_unit, FfiPtr,
    OwnedFfiPtr, StructureAlloc, ZeroTerm,
};
use vstd::prelude::*;

verus! {

/// A borrowed C string: a zero-terminated string of units in the multibyte
/// encoding of the calling thread, which foreign signatures spell
/// `const char *`.  The encoding is what the locale says it is: not ASCII,
/// and not UTF-8, unless the locale says so.
///
/// A `ZMbStr` never owns.  See also `ZMbCString`.
#[derive(Clone, Copy)]
pub struct ZMbStr<'a>(SeStr<'a, ZeroTerm, MultiByte>);

impl<'a> ZMbStr<'a> {
    /// The string as a `SeStr`.
    pub closed spec fn inner(&self) -> SeStr<'a, ZeroTerm, MultiByte> {
        self.0
    }

    /// The region that the string is a view of.
    pub open spec fn region(&self) -> Seq<MbUnit> {
        self.inner().region()
    }

    /// The units of the string, without the terminator.
    pub open spec fn units(&self) -> Seq<MbUnit> {
        self.inner().units()
    }

    /// Borrows a string from a foreign pointer.  The string is not read.
    ///
    /// The null pointer gives no string.  The region behind any other
    /// pointer must hold a zero unit: it is not looked for.
    pub fn from_ptr(ptr: FfiPtr<'a, MbUnit>) -> (string: Option<Self>)
        requires
            ptr matches Some(region) ==> zero_index(region@) < region@.len(),
        ensures
            ptr is None ==> string is None,
            ptr matches Some(region) ==> string matches Some(s) && s.region() == region@,
    {
        match SeStr::<'a, ZeroTerm, MultiByte>::from_ptr(ptr) {
            Some(string) => Some(ZMbStr(string)),
            None => None,
        }
    }

    /// Returns the units of this string as a slice, without the terminator.
    /// This reads the whole string, to find its end.
    pub fn as_units(&self) -> (units: &'a [MbUnit])
        ensures
            units@ == self.units(),
    {
        self.0.as_units()
    }

    /// Returns the units of this string as a slice, with the terminator.
    /// This reads the whole string, to find its end.
    pub fn as_units_with_term(&self) -> (units: &'a [MbUnit])
        ensures
            units@.len() == self.units().len() + 1,
            units@.last().code() == 0,
            units@.drop_last() == self.units(),
    {
        self.0.as_units_with_term()
    }

    /// Borrows this string as a foreign pointer, which is never null.
    pub fn as_ptr(&self) -> (ptr: FfiPtr<'a, MbUnit>)
        ensures
            ptr matches Some(region) && region@ == self.region(),
            zero_index(self.region()) < self.region().len(),
            self.units() == until_zero(self.region()),
    {
        self.0.as_ptr()
    }

    /// Converts this string into a host string.  It fails where the host
    /// cannot transcode a character to Unicode.
    ///
    /// Whatever the host answers: the host string has a character for every
    /// one to `MB_LEN_MAX` units of this string, and an error names an
    /// offset inside this string.  See `SeStr::into_string_by`.
    pub fn into_string<H: Host>(&self, host: H) -> (string: Result<String, MbsToUniError>)
        ensures
            match string {
                Ok(s) => s@.len() <= self.units().len() <= MB_LEN_MAX * s@.len(),
                Err(MbsToUniError::InvalidAt(at)) => at < self.units().len(),
                Err(MbsToUniError::Incomplete) => self.units().len() > 0,
                Err(MbsToUniError::OutOfBufferAt(at)) => at + MB_LEN_MAX
                    <= self.units().len(),
            },
            self.units().len() == 0 ==> (string matches Ok(s) && s@.len() == 0),
    {
        self.0.into_string_by(host)
    }

    /// Allocates a copy of this string on the C runtime heap.
    ///
    /// It fails where the allocation fails: see `ZMbCString::new`.
    pub fn to_owned(&self) -> (string: Result<ZMbCString, AllocError>)
        ensures
            match string {
                Ok(s) => s.wf() && s.units() == self.units(),
                Err(e) => may_fail_with::<MbUnit, Malloc>(self.units().len() + 1, e),
            },
    {
        let _ = self.0.as_ptr();
        proof {
            let units = self.units();
            crate::structure::lemma_image_content(units);
            crate::structure::lemma_zero_index(self.region());
            crate::structure::lemma_zero_index_is(units, units.len() as int);
        }
        match self.0.to_owned_by::<Malloc>() {
            Ok(string) => {
                proof {
                    string.lemma_views();
                }
                Ok(ZMbCString(string))
            },
            Err(e) => Err(e),
        }
    }

    /// Appends the debug text of this string to `out`.
    pub fn fmt(&self, out: &mut String)
        ensures
            final(out)@ == old(out)@ + crate::sea::debug_text::<MultiByte>("Z"@, self.units()),
    {
        self.0.fmt(out)
    }

    /// The `ZMbStr` of a `SeStr`.
    pub fn from(v: SeStr<'a, ZeroTerm, MultiByte>) -> (string: Self)
        ensures
            string.inner() == v,
    {
        ZMbStr(v)
    }

    /// The `SeStr` of this string.
    pub fn deref(&self) -> (string: SeStr<'a, ZeroTerm, MultiByte>)
        ensures
            string == self.inner(),
    {
        self.0
    }
}

/// An owned C string: a zero-terminated string of units in the multibyte
/// encoding of the calling thread, kept by the C runtime heap, which foreign
/// signatures spell `char *`.
///
/// A `ZMbCString` always owns.  See also `ZMbStr`.
pub struct ZMbCString(SeaString<ZeroTerm, MultiByte, Malloc>);

impl ZMbCString {
    /// The string as a `SeaString`.
    pub closed spec fn inner(&self) -> SeaString<ZeroTerm, MultiByte, Malloc> {
        self.0
    }

    /// Whether the storage holds a string.
    pub open spec fn wf(&self) -> bool {
        self.inner().wf()
    }

    /// What the storage holds: the units of the string and the terminator.
    pub open spec fn region(&self) -> Seq<MbUnit> {
        self.inner().region()
    }

    /// The units of the string, without the terminator.
    pub open spec fn units(&self) -> Seq<MbUnit> {
        self.inner().units()
    }

    /// Constructs a string from a slice of units, to which the terminator is
    /// added unless the last unit is a zero unit.  Zero units inside the
    /// slice are stored as they are: the string then reads as ending before
    /// the first of them.
    ///
    /// It fails where the allocation fails: with `SizeOverflow` where the
    /// size in bytes does not fit the machine word, else with `CannotAlign`
    /// where the C runtime heap does not align for the units, else with
    /// `Failed` where no memory is found.
    pub fn new(units: &[MbUnit]) -> (string: Result<Self, AllocError>)
        ensures
            match string {
                Ok(s) => s.wf() && s.units() == until_zero(units@) && s.region() == (
                if ends_with_zero(units@) {
                    units@
                } else {
                    units@.push(zero_unit::<MbUnit>())
                }),
                Err(e) => may_fail_with::<MbUnit, Malloc>(
                    <ZeroTerm as StructureAlloc<MultiByte, Malloc>>::allocated_units(units@),
                    e,
                ),
            },
    {
        proof {
            crate::structure::lemma_image_content(units@);
        }
        match SeaString::<ZeroTerm, MultiByte, Malloc>::new(units) {
            Ok(string) => {
                proof {
                    string.lemma_views();
                }
                Ok(ZMbCString(string))
            },
            Err(e) => Err(e),
        }
    }

    /// Constructs a string from a host string.  It fails where the host
    /// cannot transcode a character to the multibyte encoding, else where
    /// the allocation fails.
    ///
    /// Whatever the host answers: the new string holds the multibyte units
    /// and the terminator, and there are one to `MB_LEN_MAX` multibyte units
    /// for every character of the host string.  An error of the transcoding
    /// names the offset of a character; an error of the allocation is one
    /// that the allocation of as many multibyte units can fail with.
    pub fn from_str<H: Host>(string: &str, host: H) -> (made: Result<
        Self,
        TranscodeError<WcsToMbError, AllocError>,
    >)
        ensures
            match made {
                Ok(s) => {
                    &&& s.wf()
                    &&& s.units().len() <= MB_LEN_MAX * string@.len()
                    &&& exists|m: Seq<MbUnit>|
                        {
                            &&& s.region() == #[trigger] <ZeroTerm as StructureAlloc<
                                MultiByte,
                                Malloc,
                            >>::image(m)
                            &&& string@.len() <= m.len() <= MB_LEN_MAX * string@.len()
                        }
                },
                Err(TranscodeError::Alloc(e)) => exists|m: Seq<MbUnit>|
                    {
                        &&& string@.len() <= m.len() <= MB_LEN_MAX * string@.len()
                        &&& may_fail_with::<MbUnit, Malloc>(
                            #[trigger] <ZeroTerm as StructureAlloc<
                                MultiByte,
                                Malloc,
                            >>::allocated_units(m),
                            e,
                        )
                    },
                Err(TranscodeError::Transcode(WcsToMbError::InvalidAt(at))) => at
                    < string@.len(),
            },
            string@.len() == 0 ==> !(made matches Err(TranscodeError::Transcode(_))),
    {
        match SeaString::<ZeroTerm, MultiByte, Malloc>::from_str_by(string, host) {
            Ok(made) => Ok(ZMbCString(made)),
            Err(e) => Err(e),
        }
    }

    /// Takes over the storage behind a foreign pointer.  The string is not
    /// read.
    ///
    /// The null pointer gives no string.  The storage behind any other
    /// pointer must hold a zero unit and come from the C runtime heap:
    /// neither is checked.
    pub fn from_ptr(ptr: OwnedFfiPtr<MbUnit>) -> (string: Option<Self>)
        requires
            ptr matches Some(storage) ==> zero_index(storage@) < storage@.len(),
        ensures
            pointee(ptr) == match string {
                Some(s) => Some(s.region()),
                None => None,
            },
            string matches Some(s) ==> s.wf(),
    {
        match SeaString::<ZeroTerm, MultiByte, Malloc>::from_ptr(ptr) {
            Some(string) => Some(ZMbCString(string)),
            None => None,
        }
    }

    /// Gives up the string for the foreign pointer to its storage, which is
    /// never null.
    pub fn into_ptr(self) -> (ptr: OwnedFfiPtr<MbUnit>)
        ensures
            pointee(ptr) == Some(self.region()),
    {
        self.0.into_ptr()
    }

    /// Borrows the string.
    pub fn as_ref(&self) -> (string: ZMbStr<'_>)
        requires
            self.wf(),
        ensures
            string.region() == self.region(),
            string.units() == self.units(),
    {
        ZMbStr(self.0.as_ref())
    }

    /// Returns the units of this string as a slice, without the terminator.
    pub fn as_units(&self) -> (units: &[MbUnit])
        requires
            self.wf(),
        ensures
            units@ == self.units(),
    {
        self.0.as_units()
    }

    /// Returns the units of this string as a mutable slice, without the
    /// terminator.
    ///
    /// The terminator cannot be written through the slice.  But a zero unit
    /// that is written into the string ends the string there, for good.
    pub fn as_units_mut_unsafe(&mut self) -> (units: &mut [MbUnit])
        requires
            old(self).wf(),
        ensures
            units@ == old(self).units(),
            final(self).region() == final(units)@ + old(self).region().skip(units@.len() as int),
            final(units)@.len() == units@.len() ==> {
                &&& final(self).wf()
                &&& final(self).units().len() <= units@.len()
                &&& final(self).units() == final(units)@.take(final(self).units().len() as int)
            },
    {
        self.0.as_units_mut_unsafe()
    }

    /// The `ZMbCString` of a `SeaString`.
    pub fn from(v: SeaString<ZeroTerm, MultiByte, Malloc>) -> (string: Self)
        ensures
            string.inner() == v,
    {
        ZMbCString(v)
    }

    /// The `SeaString` of this string.
    pub fn into_inner(self) -> (string: SeaString<ZeroTerm, MultiByte, Malloc>)
        ensures
            string == self.inner(),
    {
        self.0
    }
}

} // verus!

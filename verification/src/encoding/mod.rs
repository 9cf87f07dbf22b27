//! Encoding types and traits.
use core::marker::PhantomData;
use crate::iter::Source;
use crate::text::{
    byte_at, hex_fixed, hex_min, lemma_byte_at, push_char, push_hex_fixed, push_hex_min,
};
use crate::util::Unsigned;
use libc::{c_char, wchar_t};
use vstd::prelude::*;

pub mod conv;

verus! {

/// Abstracts over the encoding schemes of foreign strings.
///
/// An encoding is a marker type: it only names its unit type and what goes
/// with it.
pub trait Encoding {
    /// The type of the units of this encoding.  Unit types carry no invariant
    /// on their values, since foreign strings may hold anything; the one
    /// exception is `CheckedUnicode`, whose unit is `char`.
    type Unit: Unit;

    /// The type that stands for a unit of this encoding in a foreign
    /// signature.
    type FfiUnit;

    /// The name that `debug_prefix` returns.
    spec fn prefix() -> Seq<char>;

    /// A short name for this encoding in debug output.
    fn debug_prefix() -> (prefix: &'static str)
        ensures
            prefix@ == Self::prefix(),
    ;

    /// A shared slice of two zero units, which backs empty borrowed strings of
    /// structures with one terminator and of those with two.
    fn static_zeroes() -> (zeroes: &'static [Self::Unit])
        ensures
            zeroes@.len() == 2,
            zeroes@[0].code() == 0,
            zeroes@[1].code() == 0,
    ;
}

/// The smallest, indivisible element of an encoded string.  A unit is not
/// necessarily a whole character.
pub trait Unit: Copy + UnitDebug + 'static {
    /// The number that the unit stores.  Units are compared by it.
    spec fn code(&self) -> int;

    /// Two units that store the same number are the same unit.
    proof fn code_is_injective(a: Self, b: Self)
        requires
            a.code() == b.code(),
        ensures
            a == b,
    ;

    /// The zero unit, in specifications.
    spec fn zero_value() -> Self;

    /// The zero unit stores zero.
    proof fn lemma_zero_value()
        ensures
            Self::zero_value().code() == 0,
    ;

    /// The zero unit: the one that terminates a zero-terminated string.
    fn zero() -> (z: Self)
        ensures
            z.code() == 0,
    ;

    /// Whether this unit is the zero unit.
    fn is_zero(&self) -> (b: bool)
        ensures
            b == (self.code() == 0),
    ;

    /// Whether two units are equal.
    fn eq_unit(&self, other: &Self) -> (b: bool)
        ensures
            b == (self.code() == other.code()),
    ;

    /// Whether this unit orders before the other.
    fn lt_unit(&self, other: &Self) -> (b: bool)
        ensures
            b == (self.code() < other.code()),
    ;
}

/// Formats a unit for debug output.
///
/// The text is unambiguous and holds no enclosing quotes.  Encodings that
/// extend ASCII show printable ASCII units as they are, and every other unit
/// as a numeric escape whose width matches the unit's size.
pub trait UnitDebug {
    /// The debug text of the unit.
    spec fn debug_text(&self) -> Seq<char>;

    /// Appends the debug text of the unit to `out`.
    fn fmt(&self, out: &mut String)
        ensures
            final(out)@ == old(out)@ + self.debug_text(),
    ;
}

/// Ties a source of units to the encoding of the units.
///
/// The transcodings from an encoding are implemented on the `UnitIter` of
/// that encoding, not on bare sources: a source of bytes alone does not say
/// which encoding its bytes are in.
pub struct UnitIter<E: Encoding, It: Source<Item = E::Unit>> {
    iter: It,
    _marker: PhantomData<E>,
}

impl<E: Encoding, It: Source<Item = E::Unit>> UnitIter<E, It> {
    #[verifier::type_invariant]
    spec fn inv(self) -> bool {
        self.iter.budget() <= usize::MAX
    }

    /// The source of the units.
    pub closed spec fn source(&self) -> It {
        self.iter
    }

    /// Ties `iter` to the encoding `E`.  The number of units must fit the
    /// machine word in which transcoders count them.
    pub fn new(iter: It) -> (units: Self)
        requires
            iter.budget() <= usize::MAX,
        ensures
            units.source() == iter,
    {
        UnitIter { iter, _marker: PhantomData }
    }

    /// Hands the source back.
    pub fn into_iter(self) -> (iter: It)
        ensures
            iter == self.source(),
            iter.budget() <= usize::MAX,
    {
        proof {
            use_type_invariant(&self);
        }
        self.iter
    }
}

/// What a transcoding reads: units from a source.
pub trait Units: Sized {
    /// The type of the units.
    type Unit;

    /// Whether the source of the units is exact.
    spec fn is_exact(&self) -> bool;

    /// The units that the source still holds, where it is exact.
    spec fn units(&self) -> Seq<Self::Unit>;
}

impl<E: Encoding, It: Source<Item = E::Unit>> Units for UnitIter<E, It> {
    type Unit = E::Unit;

    open spec fn is_exact(&self) -> bool {
        self.source().is_exact()
    }

    open spec fn units(&self) -> Seq<E::Unit> {
        self.source().pending()
    }
}

/// The transcodings from the implementing encoding to the encoding `Dst`.
///
/// It is implemented on `UnitIter<Src, It>` for each pair of encodings that
/// can be transcoded without the host.  That `Src` can be transcoded to
/// `Dst` does not mean that `Dst` can be transcoded to `Src`.
///
/// A transcoding is lazy, and it takes zero units like any other unit: the
/// source alone says where the input ends.  A transcoding stops at its first
/// error.
pub trait TranscodeTo<Dst: Encoding>: Units {
    /// The transcoding in progress.
    type Iter: Source<Item = Result<Dst::Unit, Self::Error>>;

    /// Why a transcoding fails.
    type Error;

    /// The items that transcoding the given units hands out.
    spec fn items(units: Seq<Self::Unit>) -> Seq<Result<Dst::Unit, Self::Error>>;

    /// A transcoding stops at its first error.
    proof fn lemma_errors_are_terminal(item: Result<Dst::Unit, Self::Error>)
        ensures
            item is Err ==> Self::Iter::is_terminal(item),
    ;

    /// Begins transcoding.
    fn transcode(self) -> (iter: Self::Iter)
        ensures
            iter.is_exact() == self.is_exact(),
            self.is_exact() ==> iter.pending() == Self::items(self.units()),
    ;
}

/// If implemented on a transcoder, indicates that it can go on after an error
/// item.  Every transcoder of this crate stops at its first error instead.
pub trait Recoverable {
}

/// Whether a unit that stores `code` is shown as the ASCII character itself.
pub open spec fn printable(code: int) -> bool {
    0x20 <= code <= 0x7e
}

/// The escape for one byte: a backslash, `x` and two hexadecimal digits.
pub open spec fn byte_escape(byte: int) -> Seq<char> {
    seq!['\\', 'x'] + hex_fixed(byte, 2)
}

/// Represents the current, thread-specific C runtime multibyte encoding,
/// which depends on the locale that `setlocale` has set.
pub enum MultiByte {
    /// The marker itself; nothing holds it.
    Marker,
}

impl Encoding for MultiByte {
    type Unit = MbUnit;

    type FfiUnit = c_char;

    open spec fn prefix() -> Seq<char> {
        "Mb"@
    }

    fn debug_prefix() -> (prefix: &'static str) {
        "Mb"
    }

    fn static_zeroes() -> (zeroes: &'static [Self::Unit]) {
        let zeroes: &'static [MbUnit; 2] = &[MbUnit(0), MbUnit(0)];
        let zeroes = zeroes.as_slice();
        zeroes
    }
}

/// A string unit encoded in the current, thread-specific C runtime multibyte
/// encoding.  It holds a `char` of C, which is a signed byte on the hosts that
/// the library is verified for.
#[derive(Clone, Copy, Debug, PartialEq, Eq, Structural, PartialOrd, Ord, Hash)]
pub struct MbUnit(pub c_char);

impl MbUnit {
    /// The unit as an unsigned byte.
    pub open spec fn byte(&self) -> int {
        if self.0 < 0 {
            self.0 + 256
        } else {
            self.0 as int
        }
    }

    /// Computes `byte`.
    pub fn to_byte(&self) -> (b: u8)
        ensures
            b == self.byte(),
    {
        if self.0 < 0 {
            (self.0 as i16 + 256) as u8
        } else {
            self.0 as u8
        }
    }

    /// The unit that holds the given byte.
    pub fn from_byte(b: u8) -> (unit: Self)
        ensures
            unit.byte() == b,
    {
        if b >= 128 {
            MbUnit((b as i16 - 256) as c_char)
        } else {
            MbUnit(b as c_char)
        }
    }
}

impl Unit for MbUnit {
    open spec fn code(&self) -> int {
        self.0 as int
    }

    proof fn code_is_injective(a: Self, b: Self) {
    }

    open spec fn zero_value() -> Self {
        MbUnit(0)
    }

    proof fn lemma_zero_value() {
    }

    fn zero() -> (z: Self) {
        MbUnit(0)
    }

    fn is_zero(&self) -> (b: bool) {
        self.0 == 0
    }

    fn eq_unit(&self, other: &Self) -> (b: bool) {
        self.0 == other.0
    }

    fn lt_unit(&self, other: &Self) -> (b: bool) {
        self.0 < other.0
    }
}

impl UnitDebug for MbUnit {
    open spec fn debug_text(&self) -> Seq<char> {
        if printable(self.0 as int) {
            seq![self.0 as char]
        } else {
            byte_escape(self.byte())
        }
    }

    fn fmt(&self, out: &mut String) {
        if 0x20 <= self.0 && self.0 <= 0x7e {
            push_char(out, self.0 as u8 as char);
        } else {
            push_byte_escape(out, self.to_byte());
        }
    }
}

/// Appends `byte_escape(byte)` to `out`.
pub fn push_byte_escape(out: &mut String, byte: u8)
    ensures
        final(out)@ == old(out)@ + byte_escape(byte as int),
{
    push_char(out, '\\');
    push_char(out, 'x');
    push_hex_fixed(out, byte as u32, 2);
}

/// Represents the C runtime wide encoding.
pub enum Wide {
    /// The marker itself; nothing holds it.
    Marker,
}

impl Encoding for Wide {
    type Unit = WUnit;

    type FfiUnit = wchar_t;

    open spec fn prefix() -> Seq<char> {
        "W"@
    }

    fn debug_prefix() -> (prefix: &'static str) {
        "W"
    }

    fn static_zeroes() -> (zeroes: &'static [Self::Unit]) {
        let zeroes: &'static [WUnit; 2] = &[WUnit(0), WUnit(0)];
        let zeroes = zeroes.as_slice();
        zeroes
    }
}

/// A string unit encoded in the C runtime wide encoding.  It holds a
/// `wchar_t` of C, which is a signed integer of 32 bits on the hosts that the
/// library is verified for.
#[derive(Clone, Copy, Debug, PartialEq, Eq, Structural, PartialOrd, Ord, Hash)]
pub struct WUnit(pub wchar_t);

impl Unit for WUnit {
    open spec fn code(&self) -> int {
        self.0 as int
    }

    proof fn code_is_injective(a: Self, b: Self) {
    }

    open spec fn zero_value() -> Self {
        WUnit(0)
    }

    proof fn lemma_zero_value() {
    }

    fn zero() -> (z: Self) {
        WUnit(0)
    }

    fn is_zero(&self) -> (b: bool) {
        self.0 == 0
    }

    fn eq_unit(&self, other: &Self) -> (b: bool) {
        self.0 == other.0
    }

    fn lt_unit(&self, other: &Self) -> (b: bool) {
        self.0 < other.0
    }
}

/// The number of bytes of a wide unit.
pub const WIDE_UNIT_BYTES: usize = 4;

/// The escapes for the bytes of `value` from the `from`-th on, the least
/// significant byte first.
pub open spec fn wide_escape(value: int, from: nat) -> Seq<char>
    decreases WIDE_UNIT_BYTES - from,
{
    if from >= WIDE_UNIT_BYTES {
        Seq::empty()
    } else {
        byte_escape(byte_at(value, from)) + wide_escape(value, from + 1)
    }
}

impl UnitDebug for WUnit {
    open spec fn debug_text(&self) -> Seq<char> {
        if printable(self.0 as int) {
            seq![self.0 as char]
        } else {
            wide_escape(self.0.unsigned_value() as int, 0)
        }
    }

    fn fmt(&self, out: &mut String) {
        if 0x20 <= self.0 && self.0 <= 0x7e {
            push_char(out, self.0 as u8 as char);
        } else {
            let value: u32 = self.0.unsigned();
            let mut v: u32 = value;
            let mut k: usize = 0;
            assert(value >> 0u32 == value) by (bit_vector);
            while k < WIDE_UNIT_BYTES
                invariant
                    k <= WIDE_UNIT_BYTES,
                    v == value >> (8 * k) as u32,
                    out@ + wide_escape(value as int, k as nat) == old(out)@ + wide_escape(
                        value as int,
                        0,
                    ),
                decreases WIDE_UNIT_BYTES - k,
            {
                let b: u8 = (v & 0xff) as u8;
                proof {
                    lemma_byte_at(value, k as u32);
                    let sh: u32 = (8 * k) as u32;
                    assert(sh <= 24 ==> (value >> sh) >> 8u32 == value >> ((sh + 8) as u32))
                        by (bit_vector);
                }
                push_byte_escape(out, b);
                v = v >> 8;
                k = k + 1;
            }
        }
    }
}

/// Represents the UTF-8 encoding.  Strings in this encoding are not assumed
/// to be valid: they may hold ill-formed sequences.
pub enum Utf8 {
    /// The marker itself; nothing holds it.
    Marker,
}

impl Encoding for Utf8 {
    type Unit = Utf8Unit;

    type FfiUnit = u8;

    open spec fn prefix() -> Seq<char> {
        "Utf8"@
    }

    fn debug_prefix() -> (prefix: &'static str) {
        "Utf8"
    }

    fn static_zeroes() -> (zeroes: &'static [Self::Unit]) {
        let zeroes: &'static [Utf8Unit; 2] = &[Utf8Unit(0), Utf8Unit(0)];
        let zeroes = zeroes.as_slice();
        zeroes
    }
}

/// A string unit encoded in the UTF-8 encoding.
#[derive(Clone, Copy, Debug, PartialEq, Eq, Structural, PartialOrd, Ord, Hash)]
pub struct Utf8Unit(pub u8);

impl Unit for Utf8Unit {
    open spec fn code(&self) -> int {
        self.0 as int
    }

    proof fn code_is_injective(a: Self, b: Self) {
    }

    open spec fn zero_value() -> Self {
        Utf8Unit(0)
    }

    proof fn lemma_zero_value() {
    }

    fn zero() -> (z: Self) {
        Utf8Unit(0)
    }

    fn is_zero(&self) -> (b: bool) {
        self.0 == 0
    }

    fn eq_unit(&self, other: &Self) -> (b: bool) {
        self.0 == other.0
    }

    fn lt_unit(&self, other: &Self) -> (b: bool) {
        self.0 < other.0
    }
}

impl UnitDebug for Utf8Unit {
    open spec fn debug_text(&self) -> Seq<char> {
        if printable(self.0 as int) {
            seq![self.0 as char]
        } else {
            byte_escape(self.0 as int)
        }
    }

    fn fmt(&self, out: &mut String) {
        if 0x20 <= self.0 && self.0 <= 0x7e {
            push_char(out, self.0 as u8 as char);
        } else {
            push_byte_escape(out, self.0);
        }
    }
}

/// Represents the UTF-16 encoding.  Strings in this encoding are not assumed
/// to be valid: they may hold unpaired surrogates.
pub enum Utf16 {
    /// The marker itself; nothing holds it.
    Marker,
}

impl Encoding for Utf16 {
    type Unit = Utf16Unit;

    type FfiUnit = u16;

    open spec fn prefix() -> Seq<char> {
        "Utf16"@
    }

    fn debug_prefix() -> (prefix: &'static str) {
        "Utf16"
    }

    fn static_zeroes() -> (zeroes: &'static [Self::Unit]) {
        let zeroes: &'static [Utf16Unit; 2] = &[Utf16Unit(0), Utf16Unit(0)];
        let zeroes = zeroes.as_slice();
        zeroes
    }
}

/// A string unit encoded in the UTF-16 encoding.
#[derive(Clone, Copy, Debug, PartialEq, Eq, Structural, PartialOrd, Ord, Hash)]
pub struct Utf16Unit(pub u16);

impl Unit for Utf16Unit {
    open spec fn code(&self) -> int {
        self.0 as int
    }

    proof fn code_is_injective(a: Self, b: Self) {
    }

    open spec fn zero_value() -> Self {
        Utf16Unit(0)
    }

    proof fn lemma_zero_value() {
    }

    fn zero() -> (z: Self) {
        Utf16Unit(0)
    }

    fn is_zero(&self) -> (b: bool) {
        self.0 == 0
    }

    fn eq_unit(&self, other: &Self) -> (b: bool) {
        self.0 == other.0
    }

    fn lt_unit(&self, other: &Self) -> (b: bool) {
        self.0 < other.0
    }
}

impl UnitDebug for Utf16Unit {
    open spec fn debug_text(&self) -> Seq<char> {
        if printable(self.0 as int) {
            seq![self.0 as char]
        } else {
            seq!['\\', 'u'] + hex_fixed(self.0 as int, 4)
        }
    }

    fn fmt(&self, out: &mut String) {
        if 0x20 <= self.0 && self.0 <= 0x7e {
            push_char(out, self.0 as u8 as char);
        } else {
            push_char(out, '\\');
            push_char(out, 'u');
            push_hex_fixed(out, self.0 as u32, 4);
        }
    }
}

/// Represents the UTF-32 encoding.  Strings in this encoding are not assumed
/// to be valid: they may hold numbers that are no code point.
pub enum Utf32 {
    /// The marker itself; nothing holds it.
    Marker,
}

impl Encoding for Utf32 {
    type Unit = Utf32Unit;

    type FfiUnit = u32;

    open spec fn prefix() -> Seq<char> {
        "Utf32"@
    }

    fn debug_prefix() -> (prefix: &'static str) {
        "Utf32"
    }

    fn static_zeroes() -> (zeroes: &'static [Self::Unit]) {
        let zeroes: &'static [Utf32Unit; 2] = &[Utf32Unit(0), Utf32Unit(0)];
        let zeroes = zeroes.as_slice();
        zeroes
    }
}

/// A string unit encoded in the UTF-32 encoding.
#[derive(Clone, Copy, Debug, PartialEq, Eq, Structural, PartialOrd, Ord, Hash)]
pub struct Utf32Unit(pub u32);

impl Unit for Utf32Unit {
    open spec fn code(&self) -> int {
        self.0 as int
    }

    proof fn code_is_injective(a: Self, b: Self) {
    }

    open spec fn zero_value() -> Self {
        Utf32Unit(0)
    }

    proof fn lemma_zero_value() {
    }

    fn zero() -> (z: Self) {
        Utf32Unit(0)
    }

    fn is_zero(&self) -> (b: bool) {
        self.0 == 0
    }

    fn eq_unit(&self, other: &Self) -> (b: bool) {
        self.0 == other.0
    }

    fn lt_unit(&self, other: &Self) -> (b: bool) {
        self.0 < other.0
    }
}

impl UnitDebug for Utf32Unit {
    open spec fn debug_text(&self) -> Seq<char> {
        if printable(self.0 as int) {
            seq![self.0 as char]
        } else {
            seq!['\\', 'U'] + hex_fixed(self.0 as int, 8)
        }
    }

    fn fmt(&self, out: &mut String) {
        if 0x20 <= self.0 && self.0 <= 0x7e {
            push_char(out, self.0 as u8 as char);
        } else {
            push_char(out, '\\');
            push_char(out, 'U');
            push_hex_fixed(out, self.0 as u32, 8);
        }
    }
}

/// Represents validated Unicode: every unit is a Unicode scalar value.  It is
/// meant for use inside the program, not in foreign signatures.
pub enum CheckedUnicode {
    /// The marker itself; nothing holds it.
    Marker,
}

impl Encoding for CheckedUnicode {
    type Unit = char;

    type FfiUnit = char;

    open spec fn prefix() -> Seq<char> {
        "U"@
    }

    fn debug_prefix() -> (prefix: &'static str) {
        "U"
    }

    fn static_zeroes() -> (zeroes: &'static [Self::Unit]) {
        let zeroes: &'static [char; 2] = &['\u{0}', '\u{0}'];
        let zeroes = zeroes.as_slice();
        zeroes
    }
}

impl Unit for char {
    open spec fn code(&self) -> int {
        *self as int
    }

    proof fn code_is_injective(a: Self, b: Self) {
    }

    open spec fn zero_value() -> Self {
        '\u{0}'
    }

    proof fn lemma_zero_value() {
    }

    fn zero() -> (z: Self) {
        '\u{0}'
    }

    fn is_zero(&self) -> (b: bool) {
        *self == '\u{0}'
    }

    fn eq_unit(&self, other: &Self) -> (b: bool) {
        *self == *other
    }

    fn lt_unit(&self, other: &Self) -> (b: bool) {
        *self < *other
    }
}

/// The scalar value of a character.
pub fn char_code(c: char) -> (value: u32)
    ensures
        value == c as int,
        vstd::utf8::is_scalar(value),
{
    c as u32
}

impl UnitDebug for char {
    open spec fn debug_text(&self) -> Seq<char> {
        if printable(*self as int) {
            seq![*self]
        } else {
            seq!['\\', 'u', '{'] + hex_min(*self as int) + seq!['}']
        }
    }

    fn fmt(&self, out: &mut String) {
        if ' ' <= *self && *self <= '~' {
            push_char(out, *self);
        } else {
            push_char(out, '\\');
            push_char(out, 'u');
            push_char(out, '{');
            let value: u32 = char_code(*self);
            push_hex_min(out, value);
            push_char(out, '}');
        }
    }
}

} // verus!

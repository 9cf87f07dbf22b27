//! Transcoding between the wide encoding and Unicode where the wide
//! encoding is UTF-16, as it is on Windows.
use crate::encoding::{CheckedUnicode, TranscodeTo, UnitIter, Utf16, Utf16Unit};
use crate::encoding::conv::{NoError, WcToUniError};
use crate::iter::{is_error, Source};
use crate::text::char_from_u32;
use crate::util::{all_ok, collected, first_error, lemma_collected_all_ok, values_before_error};
use vstd::prelude::*;

verus! {

/// Whether a unit is a surrogate: one half of a pair that stands for a
/// character beyond the first 65536.
pub open spec fn is_surrogate(unit: Utf16Unit) -> bool {
    0xD800 <= unit.0 <= 0xDFFF
}

/// Whether a unit is a low surrogate: the second half of a pair.
pub open spec fn is_low_surrogate(unit: Utf16Unit) -> bool {
    0xDC00 <= unit.0 <= 0xDFFF
}

/// The scalar value that a high and a low surrogate stand for.
pub open spec fn pair_value(high: Utf16Unit, low: Utf16Unit) -> int {
    0x10000 + (high.0 - 0xD800) * 0x400 + (low.0 - 0xDC00)
}

/// The items that transcoding `units` to Unicode hands out, where `at` units
/// came before them.
///
/// A unit that is no surrogate is its character.  A high surrogate and the
/// low surrogate behind it are one character.  A low surrogate that follows
/// no high one, and a high surrogate that no low one follows, are invalid at
/// the offset of that first unit; a high surrogate at the end of the source
/// is incomplete.  The items end with the first error.
pub open spec fn decoded(units: Seq<Utf16Unit>, at: int) -> Seq<Result<char, WcToUniError>>
    decreases units.len(),
{
    if units.len() == 0 {
        Seq::empty()
    } else if !is_surrogate(units[0]) {
        seq![Ok(units[0].0 as char)] + decoded(units.skip(1), at + 1)
    } else if is_low_surrogate(units[0]) {
        seq![Err(WcToUniError::InvalidAt(at as usize))]
    } else if units.len() == 1 {
        seq![Err(WcToUniError::Incomplete)]
    } else if !is_low_surrogate(units[1]) {
        seq![Err(WcToUniError::InvalidAt(at as usize))]
    } else {
        seq![Ok(pair_value(units[0], units[1]) as char)] + decoded(units.skip(2), at + 2)
    }
}

/// The character of a unit that is no surrogate.
fn single(unit: Utf16Unit) -> (c: char)
    requires
        !is_surrogate(unit),
    ensures
        c == unit.0 as char,
{
    match char_from_u32(unit.0 as u32) {
        Some(c) => c,
        None => vstd::pervasive::unreached(),
    }
}

/// The character of a high surrogate and a low surrogate.
fn paired(high: Utf16Unit, low: Utf16Unit) -> (c: char)
    requires
        is_surrogate(high),
        !is_low_surrogate(high),
        is_low_surrogate(low),
    ensures
        c == pair_value(high, low) as char,
{
    let hi: u32 = (high.0 - 0xD800) as u32;
    let lo: u32 = (low.0 - 0xDC00) as u32;
    match char_from_u32(0x10000 + hi * 0x400 + lo) {
        Some(c) => c,
        None => vstd::pervasive::unreached(),
    }
}

/// Transcodes UTF-16 units to Unicode: it decodes surrogate pairs.
pub struct WcToUniIter<It: Source<Item = Utf16Unit>> {
    at: usize,
    iter: Option<It>,
}

impl<It: Source<Item = Utf16Unit>> WcToUniIter<It> {
    #[verifier::type_invariant]
    spec fn inv(self) -> bool {
        self.iter matches Some(iter) ==> self.at + iter.budget() <= usize::MAX
    }

    /// The number of source units that complete characters have taken.
    pub closed spec fn offset(&self) -> usize {
        self.at
    }

    /// Whether the transcoder has stopped at an error.
    pub closed spec fn is_fused(&self) -> bool {
        self.iter is None
    }

    /// A transcoder of the units of `iter`.
    pub fn new(iter: It) -> (transcoder: WcToUniIter<It>)
        requires
            iter.budget() <= usize::MAX,
        ensures
            transcoder.offset() == 0,
            !transcoder.is_fused(),
            transcoder.is_exact() == iter.is_exact(),
            transcoder.pending() == decoded(iter.pending(), 0),
            transcoder.budget() == iter.budget(),
    {
        WcToUniIter { at: 0, iter: Some(iter) }
    }
}

impl<It: Source<Item = Utf16Unit>> Source for WcToUniIter<It> {
    type Item = Result<char, WcToUniError>;

    closed spec fn is_exact(&self) -> bool {
        match self.iter {
            Some(iter) => iter.is_exact(),
            None => true,
        }
    }

    closed spec fn pending(&self) -> Seq<Self::Item> {
        match self.iter {
            Some(iter) => decoded(iter.pending(), self.at as int),
            None => Seq::empty(),
        }
    }

    closed spec fn is_done(&self) -> bool {
        match self.iter {
            Some(iter) => iter.is_done(),
            None => true,
        }
    }

    closed spec fn budget(&self) -> nat {
        match self.iter {
            Some(iter) => iter.budget(),
            None => 0,
        }
    }

    open spec fn is_terminal(item: Self::Item) -> bool {
        is_error(item)
    }

    proof fn lemma_done_is_empty(&self) {
        if let Some(iter) = self.iter {
            iter.lemma_done_is_empty();
        }
    }

    /// Returns the next character, which takes one or two units; or the
    /// error of an unpaired surrogate, after which the transcoder has
    /// stopped.
    fn next(&mut self) -> (item: Option<Result<char, WcToUniError>>)
        ensures
            match item {
                None => final(self).offset() == old(self).offset() && final(self).is_fused()
                    == old(self).is_fused(),
                Some(Ok(_)) => {
                    &&& !final(self).is_fused()
                    &&& old(self).offset() < final(self).offset() <= old(self).offset() + 2
                },
                Some(Err(WcToUniError::InvalidAt(at))) => {
                    &&& at == old(self).offset()
                    &&& final(self).is_fused()
                },
                Some(Err(WcToUniError::Incomplete)) => final(self).is_fused(),
            },
    {
        proof {
            use_type_invariant(&*self);
        }
        let mut taken: Option<It> = None;
        core::mem::swap(&mut self.iter, &mut taken);
        let mut iter = match taken {
            Some(iter) => iter,
            None => {
                return None;
            },
        };
        let ghost start = iter;
        let cu0 = match iter.next() {
            Some(cu0) => cu0,
            None => {
                self.iter = Some(iter);
                return None;
            },
        };
        if cu0.0 < 0xD800 || cu0.0 > 0xDFFF {
            self.at = self.at + 1;
            self.iter = Some(iter);
            return Some(Ok(single(cu0)));
        }
        if cu0.0 >= 0xDC00 {
            return Some(Err(WcToUniError::InvalidAt(self.at)));
        }
        let cu1 = match iter.next() {
            Some(cu1) => cu1,
            None => {
                return Some(Err(WcToUniError::Incomplete));
            },
        };
        proof {
            if start.is_exact() {
                assert(iter.pending() =~= start.pending().skip(2));
            }
        }
        if !(0xDC00 <= cu1.0 && cu1.0 <= 0xDFFF) {
            return Some(Err(WcToUniError::InvalidAt(self.at)));
        }
        self.at = self.at + 2;
        self.iter = Some(iter);
        Some(Ok(paired(cu0, cu1)))
    }
}

impl<It: Source<Item = Utf16Unit>> TranscodeTo<CheckedUnicode> for UnitIter<Utf16, It> {
    type Iter = WcToUniIter<It>;

    type Error = WcToUniError;

    open spec fn items(units: Seq<Utf16Unit>) -> Seq<Result<char, WcToUniError>> {
        decoded(units, 0)
    }

    proof fn lemma_errors_are_terminal(item: Result<char, WcToUniError>) {
    }

    fn transcode(self) -> (iter: Self::Iter) {
        WcToUniIter::new(self.into_iter())
    }
}

/// The UTF-16 units of a character: the character itself where it is below
/// 0x10000, else a high and a low surrogate, which hold the upper and the
/// lower ten bits of what the character is above 0x10000.
pub open spec fn utf16_of(c: char) -> Seq<Utf16Unit> {
    if (c as int) < 0x10000 {
        seq![Utf16Unit(c as u16)]
    } else {
        seq![
            Utf16Unit((0xD800 + (c as int - 0x10000) / 0x400) as u16),
            Utf16Unit((0xDC00 + (c as int - 0x10000) % 0x400) as u16),
        ]
    }
}

/// The UTF-16 units of a sequence of characters.
pub open spec fn utf16_of_all(chars: Seq<char>) -> Seq<Utf16Unit>
    decreases chars.len(),
{
    if chars.len() == 0 {
        Seq::empty()
    } else {
        utf16_of(chars[0]) + utf16_of_all(chars.skip(1))
    }
}

/// `char::encode_utf16`: the one or two UTF-16 units of the character.
#[verifier::external_body]
pub(crate) fn encode_utf16(c: char) -> (units: (u16, Option<u16>))
    ensures
        units.0 == utf16_of(c)[0].0,
        units.1 is Some <==> utf16_of(c).len() == 2,
        units.1 matches Some(low) ==> low == utf16_of(c)[1].0,
{
    let mut buf = [0u16; 2];
    let encoded = c.encode_utf16(&mut buf);
    (encoded[0], encoded.get(1).copied())
}

/// Transcodes Unicode to UTF-16 units.  It cannot fail.
///
/// A character beyond the first 65536 gives two units; the transcoder keeps
/// the second until it is asked for the next item.
pub struct UniToWcIter<It: Source<Item = char>> {
    buf: Option<Utf16Unit>,
    iter: Option<It>,
}

impl<It: Source<Item = char>> UniToWcIter<It> {
    /// The unit that is kept for the next item.
    pub closed spec fn buffered(&self) -> Seq<Utf16Unit> {
        match self.buf {
            Some(unit) => seq![unit],
            None => Seq::empty(),
        }
    }

    /// A transcoder of the characters of `iter`.
    pub fn new(iter: It) -> (transcoder: UniToWcIter<It>)
        ensures
            transcoder.is_exact() == iter.is_exact(),
            transcoder.pending() == all_ok::<Utf16Unit, NoError>(utf16_of_all(iter.pending())),
            transcoder.budget() == 2 * iter.budget(),
            transcoder.buffered().len() == 0,
    {
        let transcoder = UniToWcIter { buf: None, iter: Some(iter) };
        transcoder
    }
}

impl<It: Source<Item = char>> Source for UniToWcIter<It> {
    type Item = Result<Utf16Unit, NoError>;

    closed spec fn is_exact(&self) -> bool {
        match self.iter {
            Some(iter) => iter.is_exact(),
            None => true,
        }
    }

    closed spec fn pending(&self) -> Seq<Self::Item> {
        match self.iter {
            Some(iter) => all_ok::<Utf16Unit, NoError>(
                self.buffered() + utf16_of_all(iter.pending()),
            ),
            None => all_ok::<Utf16Unit, NoError>(self.buffered()),
        }
    }

    closed spec fn is_done(&self) -> bool {
        &&& self.buf is None
        &&& match self.iter {
            Some(iter) => iter.is_done(),
            None => true,
        }
    }

    closed spec fn budget(&self) -> nat {
        let ahead: nat = match self.iter {
            Some(iter) => iter.budget(),
            None => 0,
        };
        2 * ahead + self.buffered().len()
    }

    open spec fn is_terminal(item: Self::Item) -> bool {
        is_error(item)
    }

    proof fn lemma_done_is_empty(&self) {
        if let Some(iter) = self.iter {
            iter.lemma_done_is_empty();
        }
    }

    /// Returns the next unit: the low surrogate that was kept, or the first
    /// unit of the next character.
    fn next(&mut self) -> (item: Option<Result<Utf16Unit, NoError>>)
        ensures
            item matches Some(i) ==> i is Ok,
            old(self).buffered().len() > 0 ==> item == Some(
                Ok::<Utf16Unit, NoError>(old(self).buffered()[0]),
            ) && final(self).buffered().len() == 0,
    {
        if let Some(wunit) = self.buf {
            self.buf = None;
            return Some(Ok(wunit));
        }
        let mut taken: Option<It> = None;
        core::mem::swap(&mut self.iter, &mut taken);
        let mut iter = match taken {
            Some(iter) => iter,
            None => {
                return None;
            },
        };
        let ch = match iter.next() {
            Some(ch) => ch,
            None => {
                return None;
            },
        };
        let (first, second) = encode_utf16(ch);
        self.buf = match second {
            Some(low) => Some(Utf16Unit(low)),
            None => None,
        };
        self.iter = Some(iter);
        Some(Ok(Utf16Unit(first)))
    }
}

impl<It: Source<Item = char>> TranscodeTo<Utf16> for UnitIter<CheckedUnicode, It> {
    type Iter = UniToWcIter<It>;

    type Error = NoError;

    open spec fn items(units: Seq<char>) -> Seq<Result<Utf16Unit, NoError>> {
        all_ok::<Utf16Unit, NoError>(utf16_of_all(units))
    }

    proof fn lemma_errors_are_terminal(item: Result<Utf16Unit, NoError>) {
    }

    fn transcode(self) -> (iter: Self::Iter) {
        UniToWcIter::new(self.into_iter())
    }
}

/// The characters that UTF-16 units without an error among them are
/// transcoded to are transcoded back to the same units.
proof fn lemma_round_trip_from(units: Seq<Utf16Unit>, at: int)
    requires
        first_error(decoded(units, at)) is None,
    ensures
        utf16_of_all(values_before_error(decoded(units, at))) == units,
    decreases units.len(),
{
    if units.len() > 0 {
        // The first character stands for one unit, or for two.
        let taken: int = if is_surrogate(units[0]) {
            2
        } else {
            1
        };
        let rest = decoded(units.skip(taken), at + taken);
        let chars = values_before_error(decoded(units, at));
        assert(decoded(units, at).skip(1) =~= rest);
        lemma_round_trip_from(units.skip(taken), at + taken);
        assert(chars.skip(1) =~= values_before_error(rest));
    }
}

/// A host string round trip gives the units of a UTF-16 string again.
///
/// Where UTF-16 units are transcoded to Unicode without an error, and the
/// characters are encoded as the UTF-8 of a host string, the characters of
/// that string are transcoded back to the same UTF-16 units.
pub proof fn lemma_round_trip(units: Seq<Utf16Unit>)
    requires
        collected(decoded(units, 0)) is Ok,
    ensures
        ({
            let chars = collected(decoded(units, 0))->Ok_0;
            let host = vstd::utf8::decode_utf8(vstd::utf8::encode_utf8(chars));
            collected(all_ok::<Utf16Unit, NoError>(utf16_of_all(host))) == Ok::<
                Seq<Utf16Unit>,
                NoError,
            >(units)
        }),
{
    let chars = collected(decoded(units, 0))->Ok_0;
    vstd::utf8::encode_utf8_decode_utf8(chars);
    lemma_round_trip_from(units, 0);
    lemma_collected_all_ok::<Utf16Unit, NoError>(units);
}

} // verus!

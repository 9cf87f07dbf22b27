//! Transcoding between the wide encoding and Unicode where the wide
//! encoding is UTF-32, as it is on Linux.
use crate::encoding::{char_code, CheckedUnicode, TranscodeTo, UnitIter, WUnit, Wide};
use crate::encoding::conv::{NoError, WcToUniError};
use crate::iter::{is_error, Source};
use crate::text::char_from_u32;
use crate::util::{
    all_ok, collected, first_error, lemma_collected_all_ok, values_before_error,
};
use vstd::prelude::*;

verus! {

/// Whether a wide unit holds a Unicode scalar value: a code point that is no
/// surrogate.
pub open spec fn is_scalar_unit(unit: WUnit) -> bool {
    0 <= unit.0 <= 0xD7FF || 0xE000 <= unit.0 <= 0x10FFFF
}

/// The items that transcoding `units` to Unicode hands out, where `at` units
/// came before them: the character of each unit, up to the first unit that
/// holds no scalar value, for which the error stands.
pub open spec fn decoded(units: Seq<WUnit>, at: int) -> Seq<Result<char, WcToUniError>>
    decreases units.len(),
{
    if units.len() == 0 {
        Seq::empty()
    } else if is_scalar_unit(units[0]) {
        seq![Ok(units[0].0 as char)] + decoded(units.skip(1), at + 1)
    } else {
        seq![Err(WcToUniError::InvalidAt(at as usize))]
    }
}

/// The character of a wide unit, if the unit holds a scalar value.
pub fn scalar_of(unit: WUnit) -> (c: Option<char>)
    ensures
        c is Some <==> is_scalar_unit(unit),
        c matches Some(ch) ==> ch == unit.0 as char,
{
    if unit.0 < 0 {
        None
    } else {
        char_from_u32(unit.0 as u32)
    }
}

/// Transcodes wide units to Unicode, one to one.
pub struct WcToUniIter<It: Source<Item = WUnit>> {
    at: usize,
    iter: Option<It>,
}

impl<It: Source<Item = WUnit>> WcToUniIter<It> {
    #[verifier::type_invariant]
    spec fn inv(self) -> bool {
        self.iter matches Some(iter) ==> self.at + iter.budget() <= usize::MAX
    }

    /// The number of source units that have been transcoded.
    pub closed spec fn offset(&self) -> usize {
        self.at
    }

    /// Whether the transcoder has stopped at an error.
    pub closed spec fn is_fused(&self) -> bool {
        self.iter is None
    }

    /// A transcoder of the units of `iter`.
    pub fn new(iter: It) -> (transcoder: Self)
        requires
            iter.budget() <= usize::MAX,
        ensures
            transcoder.offset() == 0,
            !transcoder.is_fused(),
            transcoder.is_exact() == iter.is_exact(),
            transcoder.pending() == decoded(iter.pending(), 0),
            transcoder.budget() == iter.budget(),
    {
        WcToUniIter { at: 0, iter: Some(iter) }
    }
}

impl<It: Source<Item = WUnit>> Source for WcToUniIter<It> {
    type Item = Result<char, WcToUniError>;

    closed spec fn is_exact(&self) -> bool {
        match self.iter {
            Some(iter) => iter.is_exact(),
            None => true,
        }
    }

    closed spec fn pending(&self) -> Seq<Self::Item> {
        match self.iter {
            Some(iter) => decoded(iter.pending(), self.at as int),
            None => Seq::empty(),
        }
    }

    closed spec fn is_done(&self) -> bool {
        match self.iter {
            Some(iter) => iter.is_done(),
            None => true,
        }
    }

    closed spec fn budget(&self) -> nat {
        match self.iter {
            Some(iter) => iter.budget(),
            None => 0,
        }
    }

    open spec fn is_terminal(item: Self::Item) -> bool {
        is_error(item)
    }

    proof fn lemma_done_is_empty(&self) {
        if let Some(iter) = self.iter {
            iter.lemma_done_is_empty();
        }
    }

    /// Returns the character of the next unit; or, at a unit that holds no
    /// scalar value, the error with the unit's offset, after which the
    /// transcoder has stopped.
    fn next(&mut self) -> (item: Option<Result<char, WcToUniError>>)
        ensures
            match item {
                None => final(self).offset() == old(self).offset() && final(self).is_fused()
                    == old(self).is_fused(),
                Some(Ok(_)) => {
                    &&& final(self).offset() == old(self).offset() + 1
                    &&& !final(self).is_fused()
                },
                Some(Err(e)) => {
                    &&& e == WcToUniError::InvalidAt(old(self).offset())
                    &&& final(self).is_fused()
                },
            },
    {
        proof {
            use_type_invariant(&*self);
        }
        let mut taken: Option<It> = None;
        core::mem::swap(&mut self.iter, &mut taken);
        let mut iter = match taken {
            Some(iter) => iter,
            None => {
                return None;
            },
        };
        match iter.next() {
            None => {
                self.iter = Some(iter);
                None
            },
            Some(unit) => {
                match scalar_of(unit) {
                    Some(c) => {
                        self.at = self.at + 1;
                        self.iter = Some(iter);
                        Some(Ok(c))
                    },
                    None => {
                        Some(Err(WcToUniError::InvalidAt(self.at)))
                    },
                }
            },
        }
    }
}

impl<It: Source<Item = WUnit>> TranscodeTo<CheckedUnicode> for UnitIter<Wide, It> {
    type Iter = WcToUniIter<It>;

    type Error = WcToUniError;

    open spec fn items(units: Seq<WUnit>) -> Seq<Result<char, WcToUniError>> {
        decoded(units, 0)
    }

    proof fn lemma_errors_are_terminal(item: Result<char, WcToUniError>) {
    }

    fn transcode(self) -> (iter: Self::Iter) {
        WcToUniIter::new(self.into_iter())
    }
}

/// The wide unit of a character: its scalar value.
pub open spec fn unit_of(c: char) -> WUnit {
    WUnit(c as i32)
}

/// The wide units of a sequence of characters.
pub open spec fn wide_of(chars: Seq<char>) -> Seq<WUnit> {
    Seq::new(chars.len(), |i: int| unit_of(chars[i]))
}

/// The items that transcoding `chars` to wide units hands out: the unit of
/// each character.
pub open spec fn encoded(chars: Seq<char>) -> Seq<Result<WUnit, NoError>> {
    all_ok(wide_of(chars))
}

/// Transcodes Unicode to wide units, one to one.  It cannot fail.
pub struct UniToWcIter<It: Source<Item = char>> {
    iter: Option<It>,
}

impl<It: Source<Item = char>> UniToWcIter<It> {
    /// A transcoder of the characters of `iter`.
    pub fn new(iter: It) -> (transcoder: Self)
        ensures
            transcoder.is_exact() == iter.is_exact(),
            transcoder.pending() == encoded(iter.pending()),
            transcoder.budget() == iter.budget(),
    {
        UniToWcIter { iter: Some(iter) }
    }
}

impl<It: Source<Item = char>> Source for UniToWcIter<It> {
    type Item = Result<WUnit, NoError>;

    closed spec fn is_exact(&self) -> bool {
        match self.iter {
            Some(iter) => iter.is_exact(),
            None => true,
        }
    }

    closed spec fn pending(&self) -> Seq<Self::Item> {
        match self.iter {
            Some(iter) => encoded(iter.pending()),
            None => Seq::empty(),
        }
    }

    closed spec fn is_done(&self) -> bool {
        match self.iter {
            Some(iter) => iter.is_done(),
            None => true,
        }
    }

    closed spec fn budget(&self) -> nat {
        match self.iter {
            Some(iter) => iter.budget(),
            None => 0,
        }
    }

    open spec fn is_terminal(item: Self::Item) -> bool {
        is_error(item)
    }

    proof fn lemma_done_is_empty(&self) {
        if let Some(iter) = self.iter {
            iter.lemma_done_is_empty();
        }
    }

    /// Returns the wide unit of the next character.
    fn next(&mut self) -> (item: Option<Result<WUnit, NoError>>)
        ensures
            item matches Some(i) ==> i is Ok,
    {
        match &mut self.iter {
            None => None,
            Some(iter) => {
                match iter.next() {
                    None => None,
                    Some(c) => {
                        Some(Ok(WUnit(char_code(c) as i32)))
                    },
                }
            },
        }
    }
}

impl<It: Source<Item = char>> TranscodeTo<Wide> for UnitIter<CheckedUnicode, It> {
    type Iter = UniToWcIter<It>;

    type Error = NoError;

    open spec fn items(units: Seq<char>) -> Seq<Result<WUnit, NoError>> {
        encoded(units)
    }

    proof fn lemma_errors_are_terminal(item: Result<WUnit, NoError>) {
    }

    fn transcode(self) -> (iter: Self::Iter) {
        UniToWcIter::new(self.into_iter())
    }
}

/// The characters that wide units without an error among them are
/// transcoded to are transcoded back to the same units.
proof fn lemma_round_trip_from(units: Seq<WUnit>, at: int)
    requires
        first_error(decoded(units, at)) is None,
    ensures
        values_before_error(decoded(units, at)).len() == units.len(),
        forall|i: int|
            0 <= i < units.len() ==> unit_of(
                #[trigger] values_before_error(decoded(units, at))[i],
            ) == units[i],
    decreases units.len(),
{
    if units.len() > 0 {
        assert(decoded(units, at).skip(1) =~= decoded(units.skip(1), at + 1));
        lemma_round_trip_from(units.skip(1), at + 1);
    }
}

/// A host string round trip gives the units of a wide string again.
///
/// Where wide units are transcoded to Unicode without an error, and the
/// characters are encoded as the UTF-8 of a host string, the characters of
/// that string are transcoded back to the same wide units.
pub proof fn lemma_round_trip(units: Seq<WUnit>)
    requires
        collected(decoded(units, 0)) is Ok,
    ensures
        ({
            let chars = collected(decoded(units, 0))->Ok_0;
            let host = vstd::utf8::decode_utf8(vstd::utf8::encode_utf8(chars));
            collected(encoded(host)) == Ok::<Seq<WUnit>, NoError>(units)
        }),
{
    let chars = collected(decoded(units, 0))->Ok_0;
    vstd::utf8::encode_utf8_decode_utf8(chars);
    lemma_round_trip_from(units, 0);
    assert(wide_of(chars) =~= units);
    lemma_collected_all_ok::<WUnit, NoError>(units);
}

} // verus!

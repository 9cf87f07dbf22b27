//! Small adaptors that the string types are built from.
use crate::encoding::Unit;
use crate::iter::{SliceIter, Source};
use vstd::prelude::*;
use vstd::utf8::{encode_scalar, encode_utf8};

verus! {

/// `char::encode_utf8`: the UTF-8 bytes of the character, between one and
/// four, at the start of a buffer of four bytes, and their number.
#[verifier::external_body]
pub(crate) fn encode_char_utf8(c: char) -> (encoded: ([u8; 4], usize))
    ensures
        1 <= encoded.1 <= 4,
        encoded.0@.take(encoded.1 as int) == encode_scalar(c as u32),
{
    let mut buf = [0u8; 4];
    let len = c.encode_utf8(&mut buf).len();
    (buf, len)
}

/// The UTF-8 bytes of one character, of which some have been handed out.
pub struct Utf8Buf {
    buf: [u8; 4],
    off: u8,
    len: u8,
}

impl Utf8Buf {
    #[verifier::type_invariant]
    spec fn inv(self) -> bool {
        self.off <= self.len <= 4
    }

    /// The bytes that have not been handed out yet.
    pub closed spec fn rest(&self) -> Seq<u8> {
        self.buf@.subrange(self.off as int, self.len as int)
    }

    /// A buffer without bytes.
    pub fn empty() -> (bytes: Self)
        ensures
            bytes.rest().len() == 0,
    {
        Utf8Buf { buf: [0; 4], off: 0, len: 0 }
    }

    /// The UTF-8 bytes of `c`.
    pub fn of(c: char) -> (bytes: Self)
        ensures
            bytes.rest() == encode_scalar(c as u32),
            1 <= bytes.rest().len() <= 4,
    {
        let (buf, len) = encode_char_utf8(c);
        let bytes = Utf8Buf { buf, off: 0, len: len as u8 };
        bytes
    }

    /// Hands out the next byte, if one is left.
    pub fn pop(&mut self) -> (byte: Option<u8>)
        ensures
            old(self).rest().len() == 0 ==> byte is None && final(self).rest() == old(self).rest(),
            old(self).rest().len() > 0 ==> {
                &&& byte == Some(old(self).rest()[0])
                &&& final(self).rest() == old(self).rest().skip(1)
            },
    {
        proof {
            use_type_invariant(&*self);
        }
        if self.len - self.off == 0 {
            None
        } else {
            let cu = self.buf[self.off as usize];
            self.off = self.off + 1;
            Some(cu)
        }
    }
}

/// Encodes characters as UTF-8, byte by byte.
pub struct Utf8EncodeIter<It: Source<Item = char>> {
    iter: It,
    bytes: Utf8Buf,
}

impl<It: Source<Item = char>> Utf8EncodeIter<It> {
    /// The bytes of the last character that have not been handed out yet.
    pub closed spec fn buffered(&self) -> Seq<u8> {
        self.bytes.rest()
    }

    /// An encoder of the characters of `iter`.
    pub fn new(iter: It) -> (encoder: Self)
        ensures
            encoder.is_exact() == iter.is_exact(),
            encoder.pending() == encode_utf8(iter.pending()),
            encoder.budget() == 4 * iter.budget(),
            encoder.buffered().len() == 0,
    {
        let encoder = Utf8EncodeIter { iter, bytes: Utf8Buf::empty() };
        encoder
    }
}

impl<It: Source<Item = char>> Source for Utf8EncodeIter<It> {
    type Item = u8;

    closed spec fn is_exact(&self) -> bool {
        self.iter.is_exact()
    }

    closed spec fn pending(&self) -> Seq<u8> {
        self.buffered() + encode_utf8(self.iter.pending())
    }

    closed spec fn is_done(&self) -> bool {
        self.buffered().len() == 0 && self.iter.is_done()
    }

    closed spec fn budget(&self) -> nat {
        4 * self.iter.budget() + self.buffered().len()
    }

    open spec fn is_terminal(item: u8) -> bool {
        false
    }

    proof fn lemma_done_is_empty(&self) {
        self.iter.lemma_done_is_empty();
    }

    /// Returns the next byte: one that is buffered, or the first byte of the
    /// next character.
    fn next(&mut self) -> (item: Option<u8>) {
        match self.bytes.pop() {
            Some(cu) => Some(cu),
            None => {
                // The buffer is empty; encode the next character.
                let cp = match self.iter.next() {
                    Some(cp) => cp,
                    None => {
                        return None;
                    },
                };
                self.bytes = Utf8Buf::of(cp);
                self.bytes.pop()
            },
        }
    }
}

/// Adds `encode_utf8` to every source of characters.
pub trait Utf8EncodeExt: Sized + Source<Item = char> {
    /// Encodes the characters of this source as UTF-8.
    fn encode_utf8(self) -> (encoder: Utf8EncodeIter<Self>)
        ensures
            encoder.is_exact() == self.is_exact(),
            encoder.pending() == encode_utf8(self.pending()),
            encoder.budget() == 4 * self.budget(),
    ;
}

impl<It: Source<Item = char>> Utf8EncodeExt for It {
    fn encode_utf8(self) -> (encoder: Utf8EncodeIter<Self>) {
        Utf8EncodeIter::new(self)
    }
}

/// The unsigned integer of the same width and the same bits.
pub trait Unsigned: Sized {
    /// The unsigned type.
    type Unsigned;

    /// The value that `unsigned` gives.
    spec fn unsigned_value(self) -> Self::Unsigned;

    /// Reinterprets the integer as unsigned.
    fn unsigned(self) -> (u: Self::Unsigned)
        ensures
            u == self.unsigned_value(),
    ;
}

impl Unsigned for u16 {
    type Unsigned = u16;

    open spec fn unsigned_value(self) -> u16 {
        self
    }

    fn unsigned(self) -> (u: u16) {
        self
    }
}

impl Unsigned for i32 {
    type Unsigned = u32;

    open spec fn unsigned_value(self) -> u32 {
        if self < 0 {
            (self + 0x1_0000_0000) as u32
        } else {
            self as u32
        }
    }

    fn unsigned(self) -> (u: u32) {
        if self < 0 {
            (self as i64 + 0x1_0000_0000) as u32
        } else {
            self as u32
        }
    }
}

/// The values of the items before the first error.
pub open spec fn values_before_error<T, E>(items: Seq<Result<T, E>>) -> Seq<T>
    decreases items.len(),
{
    if items.len() == 0 {
        Seq::empty()
    } else {
        match items[0] {
            Ok(value) => seq![value] + values_before_error(items.skip(1)),
            Err(_) => Seq::empty(),
        }
    }
}

/// The first error among the items, if there is one.
pub open spec fn first_error<T, E>(items: Seq<Result<T, E>>) -> Option<E>
    decreases items.len(),
{
    if items.len() == 0 {
        None
    } else {
        match items[0] {
            Ok(_) => first_error(items.skip(1)),
            Err(e) => Some(e),
        }
    }
}

/// What a trap holds once a source with the given items has ended.
pub open spec fn trap_of<T, E>(items: Seq<Result<T, E>>) -> Result<(), E> {
    match first_error(items) {
        Some(e) => Err(e),
        None => Ok(()),
    }
}

/// Hands out the values of a source of results up to its first error, which
/// it keeps in a trap.
///
/// The trap is part of the adaptor, since two owners cannot share it: when
/// the values have been consumed, `into_trap` tells whether the source ended
/// or failed.
pub struct TrapErrIter<It, Trap> {
    iter: Option<It>,
    trap: Result<(), Trap>,
}

impl<It, Trap> TrapErrIter<It, Trap> {
    /// What the trap holds: the error at which the source has stopped, if it
    /// has.
    pub closed spec fn trapped(&self) -> Result<(), Trap> {
        self.trap
    }

    /// The source of the results, until it has ended.
    pub closed spec fn inner(&self) -> Option<It> {
        self.iter
    }

    /// Gives up the adaptor for what the trap holds.
    pub fn into_trap(self) -> (trap: Result<(), Trap>)
        ensures
            trap == self.trapped(),
    {
        self.trap
    }
}

/// Adds `trap_err` to every source of results.
pub trait TrapErrExt: Sized + Source<Item = Result<Self::Value, Self::Trap>> {
    /// The type of the values.
    type Value;

    /// The type of the errors.
    type Trap;

    /// Hands out the values of this source up to its first error, which goes
    /// into the trap.
    fn trap_err(self) -> (iter: TrapErrIter<Self, Self::Trap>)
        ensures
            iter.inner() == Some(self),
            iter.trapped() is Ok,
            iter.is_exact() == self.is_exact(),
            iter.pending() == values_before_error(self.pending()),
            !iter.is_done(),
    ;
}

impl<It, T, E> TrapErrExt for It where It: Source<Item = Result<T, E>> {
    type Value = T;

    type Trap = E;

    fn trap_err(self) -> (iter: TrapErrIter<Self, E>) {
        TrapErrIter { iter: Some(self), trap: Ok(()) }
    }
}

impl<It, T, E> Source for TrapErrIter<It, E> where It: Source<Item = Result<T, E>> {
    type Item = T;

    /// The adaptor is exact where the source of the results is.
    open spec fn is_exact(&self) -> bool {
        match self.inner() {
            Some(iter) => iter.is_exact(),
            None => true,
        }
    }

    /// The values that the source of the results holds before its first
    /// error.
    open spec fn pending(&self) -> Seq<T> {
        match self.inner() {
            Some(iter) => values_before_error(iter.pending()),
            None => Seq::empty(),
        }
    }

    /// The adaptor has ended when it has let go of the source of the
    /// results.
    open spec fn is_done(&self) -> bool {
        self.inner() is None
    }

    open spec fn budget(&self) -> nat {
        match self.inner() {
            Some(iter) => iter.budget() + 1,
            None => 0,
        }
    }

    open spec fn is_terminal(item: T) -> bool {
        false
    }

    proof fn lemma_done_is_empty(&self) {
    }

    /// Returns the next value.  At the end of the source of results, and at
    /// its first error, the adaptor stops and sets the trap: to the error, or
    /// to `Ok` where there was none.  It lets go of the source then, and does
    /// not ask it again.
    ///
    /// A value is the first item of the source of the results, which then
    /// holds the items behind it.  So the trap holds at last what
    /// `trap_of` says of the items that the source held at first.
    fn next(&mut self) -> (item: Option<T>)
        ensures
            match item {
                Some(value) => {
                    &&& final(self).trapped() == old(self).trapped()
                    &&& old(self).inner() matches Some(before)
                    &&& final(self).inner() matches Some(after)
                    &&& before.is_exact() ==> {
                        &&& after.is_exact()
                        &&& before.pending().len() > 0
                        &&& before.pending()[0] == Ok::<T, E>(value)
                        &&& after.pending() == before.pending().skip(1)
                        &&& trap_of(after.pending()) == trap_of(before.pending())
                    }
                },
                None => {
                    &&& final(self).inner() is None
                    &&& match old(self).inner() {
                        Some(before) => before.is_exact() ==> {
                            &&& final(self).trapped() == trap_of(before.pending())
                            &&& values_before_error(before.pending()).len() == 0
                        },
                        None => final(self).trapped() == old(self).trapped(),
                    }
                },
            },
    {
        let trapped = match &mut self.iter {
            None => {
                return None;
            },
            Some(iter) => {
                match iter.next() {
                    Some(Ok(e)) => {
                        return Some(e);
                    },
                    Some(Err(err)) => Err(err),
                    None => Ok(()),
                }
            },
        };
        self.iter = None;
        self.trap = trapped;
        None
    }
}

/// Collects the items of a source, to its end.
pub fn gather<It: Source>(iter: &mut It) -> (items: Vec<It::Item>)
    ensures
        old(iter).is_exact() ==> items@ == old(iter).pending(),
        items@.len() <= old(iter).budget(),
        final(iter).is_done(),
{
    let mut items: Vec<It::Item> = Vec::new();
    loop
        invariant
            items@.len() + iter.budget() <= old(iter).budget(),
            old(iter).is_exact() ==> iter.is_exact(),
            old(iter).is_exact() ==> old(iter).pending() == items@ + iter.pending(),
        ensures
            old(iter).is_exact() ==> items@ == old(iter).pending(),
            items@.len() <= old(iter).budget(),
            iter.is_done(),
        decreases iter.budget(),
    {
        match iter.next() {
            Some(item) => {
                items.push(item);
            },
            None => {
                break ;
            },
        }
    }
    items
}

/// What collecting the given items gives: their values, or the first error
/// among them.
pub open spec fn collected<T, E>(items: Seq<Result<T, E>>) -> Result<Seq<T>, E> {
    match first_error(items) {
        Some(e) => Err(e),
        None => Ok(values_before_error(items)),
    }
}

/// Collects the values of a source of results, up to its first error, with
/// which it fails.
///
/// Where the source is not exact, all that is certain is that the values
/// came before any error, and that an error ended the source.
pub fn collect<It, T, E>(iter: &mut It) -> (values: Result<Vec<T>, E>) where
    It: Source<Item = Result<T, E>>,

    ensures
        old(iter).is_exact() ==> match values {
            Ok(v) => collected(old(iter).pending()) matches Ok(all) && all == v@,
            Err(e) => collected(old(iter).pending()) matches Err(first) && first == e,
        },
        values is Ok ==> final(iter).is_done(),
        values matches Ok(v) ==> v@.len() <= old(iter).budget(),
        old(iter).is_done() ==> (values matches Ok(v) && v@.len() == 0),
{
    let mut values: Vec<T> = Vec::new();
    loop
        invariant
            values@.len() + iter.budget() <= old(iter).budget(),
            old(iter).is_done() ==> iter.is_done() && values@.len() == 0,
            old(iter).is_exact() ==> iter.is_exact(),
            old(iter).is_exact() ==> first_error(old(iter).pending()) == first_error(
                iter.pending(),
            ),
            old(iter).is_exact() ==> values_before_error(old(iter).pending()) == values@
                + values_before_error(iter.pending()),
        decreases iter.budget(),
    {
        match iter.next() {
            None => {
                return Ok(values);
            },
            Some(Ok(value)) => {
                values.push(value);
            },
            Some(Err(e)) => {
                return Err(e);
            },
        }
    }
}

/// `String::from_utf8`: the string whose bytes are the given bytes, which
/// must be valid UTF-8.
#[verifier::external_body]
pub(crate) fn string_from_utf8(bytes: Vec<u8>) -> (string: String)
    requires
        vstd::utf8::valid_utf8(bytes@),
    ensures
        string@ == vstd::utf8::decode_utf8(bytes@),
{
    String::from_utf8(bytes).unwrap()
}

/// The string of the given characters: they are encoded as UTF-8, and the
/// bytes are made a string.
pub fn string_of(chars: &[char]) -> (string: String)
    ensures
        string@ == chars@,
{
    let mut encoder = SliceIter::new(chars).encode_utf8();
    let bytes = gather(&mut encoder);
    proof {
        vstd::utf8::encode_utf8_valid_utf8(chars@);
        vstd::utf8::encode_utf8_decode_utf8(chars@);
    }
    string_from_utf8(bytes)
}

/// The characters of a host string.
pub fn chars_of(string: &str) -> (chars: Vec<char>)
    ensures
        chars@ == string@,
{
    let mut chars: Vec<char> = Vec::new();
    for c in it: string.chars()
        invariant
            chars@ == it.seq().take(it.index() as int),
            it.seq() == string@,
    {
        chars.push(c);
    }
    chars
}

/// Each value as an item of a source of results.
pub open spec fn all_ok<T, E>(values: Seq<T>) -> Seq<Result<T, E>> {
    Seq::new(values.len(), |i: int| Ok(values[i]))
}

/// Items without an error collect to their values.
pub proof fn lemma_collected_all_ok<T, E>(values: Seq<T>)
    ensures
        first_error(all_ok::<T, E>(values)) is None,
        values_before_error(all_ok::<T, E>(values)) == values,
        collected(all_ok::<T, E>(values)) == Ok::<Seq<T>, E>(values),
    decreases values.len(),
{
    let items = all_ok::<T, E>(values);
    if values.len() > 0 {
        lemma_collected_all_ok::<T, E>(values.skip(1));
        assert(items.skip(1) =~= all_ok::<T, E>(values.skip(1)));
    }
}

/// Whether the units `a` order before the units `b`: at the first place
/// where the two differ `a` has the lesser unit, or `a` ends there and `b`
/// does not.
pub open spec fn lex_less<U: Unit>(a: Seq<U>, b: Seq<U>) -> bool
    decreases a.len(),
{
    if b.len() == 0 {
        false
    } else if a.len() == 0 {
        true
    } else if a[0].code() != b[0].code() {
        a[0].code() < b[0].code()
    } else {
        lex_less(a.skip(1), b.skip(1))
    }
}

/// What is known of two strings at the first place where they differ.
pub open spec fn differ_at<U: Unit>(a: Seq<U>, b: Seq<U>, at: usize) -> bool {
    &&& at <= a.len()
    &&& at <= b.len()
    &&& a.take(at as int) == b.take(at as int)
    &&& at < a.len() && at < b.len() ==> a[at as int].code() != b[at as int].code()
}

/// The unit at an offset.
pub open spec fn unit_at<U: Unit>(units: Seq<U>, at: usize) -> U {
    units[at as int]
}

/// The first place where two strings differ: the offset of the first unit
/// that is not the same in both, or the length of the shorter string.
pub fn mismatch<U: Unit>(a: &[U], b: &[U]) -> (at: usize)
    ensures
        differ_at(a@, b@, at),
{
    let mut i: usize = 0;
    while i < a.len() && i < b.len() && a[i].eq_unit(&b[i])
        invariant
            i <= a@.len(),
            i <= b@.len(),
            a@.take(i as int) == b@.take(i as int),
        decreases a@.len() - i,
    {
        proof {
            U::code_is_injective(a@[i as int], b@[i as int]);
        }
        i = i + 1;
    }
    i
}

/// The order of two strings is decided at the first place where they
/// differ.
pub proof fn lemma_lex_at<U: Unit>(a: Seq<U>, b: Seq<U>, at: usize)
    requires
        differ_at(a, b, at),
    ensures
        at == a.len() && at == b.len() ==> a == b && !lex_less(a, b) && !lex_less(b, a),
        at == a.len() && at < b.len() ==> a != b && lex_less(a, b) && !lex_less(b, a),
        at < a.len() && at == b.len() ==> a != b && !lex_less(a, b) && lex_less(b, a),
        at < a.len() && at < b.len() ==> a != b && lex_less(a, b) == (unit_at(a, at).code()
            < unit_at(b, at).code()) && lex_less(b, a) == (unit_at(b, at).code() < unit_at(
            a,
            at,
        ).code()),
    decreases at,
{
    if at > 0 {
        // The first units are the same, and the rest differs one unit earlier.
        assert(a[0] == a.take(at as int)[0]);
        assert(b[0] == b.take(at as int)[0]);
        assert(a.skip(1).take(at - 1) =~= a.take(at as int).skip(1));
        assert(b.skip(1).take(at - 1) =~= b.take(at as int).skip(1));
        lemma_lex_at(a.skip(1), b.skip(1), (at - 1) as usize);
        if at == a.len() && at == b.len() {
            assert(a =~= seq![a[0]] + a.skip(1));
            assert(b =~= seq![b[0]] + b.skip(1));
        }
    }
}

} // verus!

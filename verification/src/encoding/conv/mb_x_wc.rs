//! Transcoding between the host's multibyte and wide encodings.
use crate::encoding::{MbUnit, WUnit};
use crate::encoding::conv::WcToUniError;
use crate::encoding::conv::linux::{is_scalar_unit, scalar_of};
use crate::ffi::{mbstate_t, Host, MbToWc, WcToMb, MB_LEN_MAX};
use crate::iter::{is_error, SliceIter, Source};
use crate::text::{decimal, push_decimal};
use vstd::prelude::*;
use vstd::std_specs::convert::{FromSpec, FromSpecImpl};
use vstd::string::StringExecFns;

verus! {

/// Why multibyte units could not be transcoded to wide units.
#[derive(Clone, Copy, Debug, PartialEq, Eq, Structural)]
pub enum MbsToWcError {
    /// The units from this offset on start no character.
    InvalidAt(usize),
    /// The source ended inside a character.
    Incomplete,
    /// The character that starts at this offset has more than `MB_LEN_MAX`
    /// units.
    OutOfBufferAt(usize),
}

impl MbsToWcError {
    /// What the error says, with the offset where it has one.
    pub open spec fn message(&self) -> Seq<char> {
        match *self {
            MbsToWcError::InvalidAt(at) => "invalid unit at offset "@ + decimal(at as int),
            MbsToWcError::Incomplete => "incomplete unit"@,
            MbsToWcError::OutOfBufferAt(at) => "character too large to transcode at offset "@
                + decimal(at as int),
        }
    }

    /// Appends what the error says to `out`.
    pub fn fmt(&self, out: &mut String)
        ensures
            final(out)@ == old(out)@ + self.message(),
    {
        match *self {
            MbsToWcError::InvalidAt(at) => {
                out.append("invalid unit at offset ");
                push_decimal(out, at);
            },
            MbsToWcError::Incomplete => {
                out.append("incomplete unit");
            },
            MbsToWcError::OutOfBufferAt(at) => {
                out.append("character too large to transcode at offset ");
                push_decimal(out, at);
            },
        }
    }

    /// What the error says, as a string.
    pub fn to_string(&self) -> (text: String)
        ensures
            text@ == self.message(),
    {
        let mut text = String::new();
        self.fmt(&mut text);
        text
    }

    /// What kind of error this is, in words.
    pub fn description(&self) -> (text: &'static str)
        ensures
            text@ == match *self {
                MbsToWcError::InvalidAt(_) => "invalid unit"@,
                MbsToWcError::Incomplete => "incomplete unit"@,
                MbsToWcError::OutOfBufferAt(_) => "character too large to transcode"@,
            },
    {
        match *self {
            MbsToWcError::InvalidAt(_) => "invalid unit",
            MbsToWcError::Incomplete => "incomplete unit",
            MbsToWcError::OutOfBufferAt(_) => "character too large to transcode",
        }
    }
}

/// What an answer of the host to the units read so far means for the
/// character that starts at offset `at`: its wide unit, an error, or nothing
/// yet.
pub open spec fn judged(answer: MbToWc, at: usize) -> Option<Result<WUnit, MbsToWcError>> {
    match answer {
        MbToWc::Illegal => Some(Err(MbsToWcError::InvalidAt(at))),
        MbToWc::Incomplete => None,
        MbToWc::Complete(wc) => Some(Ok(wc)),
    }
}

/// Computes `judged`.
pub fn judge(answer: MbToWc, at: usize) -> (item: Option<Result<WUnit, MbsToWcError>>)
    ensures
        item == judged(answer, at),
{
    match answer {
        MbToWc::Illegal => Some(Err(MbsToWcError::InvalidAt(at))),
        MbToWc::Incomplete => None,
        MbToWc::Complete(wc) => Some(Ok(wc)),
    }
}

/// What a transcoder that rests on the host does next: it hands out an item,
/// or it has a question for the host, whose answer it takes with `settle`.
#[derive(Debug)]
pub enum Step<Q, T, E> {
    /// The host is to be asked.
    Ask(Q),
    /// The next item of the transcoding, or `None` at its end.
    Item(Option<Result<T, E>>),
}

/// Transcodes multibyte units to wide units, one character at a time.
///
/// For each character the transcoder reads units into a buffer of
/// `MB_LEN_MAX` units and asks the host after each one, until the host
/// knows the character.  The conversion state moves on only when a character
/// is complete.
///
/// `next` does all of this.  It rests on two steps that can also be taken by
/// hand: `pull` reads one unit, and `settle` takes what the host answers to
/// the units read so far.
pub struct MbsToWcIter2<It: Source<Item = MbUnit>, H: Host> {
    iter: Option<It>,
    at: usize,
    buf: [MbUnit; 16],
    buf_len: usize,
    state: mbstate_t,
    host: H,
}

impl<It: Source<Item = MbUnit>, H: Host> MbsToWcIter2<It, H> {
    #[verifier::type_invariant]
    spec fn inv(self) -> bool {
        &&& self.buf_len <= MB_LEN_MAX
        &&& match self.iter {
            Some(iter) => self.at + self.buf_len + iter.budget() <= usize::MAX,
            None => self.buf_len == 0,
        }
    }

    /// The number of source units that complete characters have taken.
    pub closed spec fn offset(&self) -> usize {
        self.at
    }

    /// Whether the transcoder has stopped at an error.
    pub closed spec fn is_fused(&self) -> bool {
        self.iter is None
    }

    /// The units of the character that is being read.
    pub closed spec fn buffered(&self) -> Seq<MbUnit> {
        self.buf@.take(self.buf_len as int)
    }

    /// The conversion state behind the characters that are complete.
    pub closed spec fn conversion_state(&self) -> mbstate_t {
        self.state
    }

    /// The units that the source still holds, where it is exact and the
    /// transcoder has not stopped.
    pub closed spec fn source_pending(&self) -> Seq<MbUnit> {
        match self.iter {
            Some(iter) => iter.pending(),
            None => Seq::empty(),
        }
    }

    /// Whether the source is exact.
    pub closed spec fn source_is_exact(&self) -> bool {
        self.iter matches Some(iter) && iter.is_exact()
    }

    /// A transcoder of the units of `iter`, which asks `host` and starts in
    /// the initial conversion state.
    pub fn new(iter: It, host: H) -> (transcoder: Self)
        requires
            iter.budget() <= usize::MAX,
        ensures
            transcoder.offset() == 0,
            !transcoder.is_fused(),
            transcoder.buffered().len() == 0,
            transcoder.source_pending() == iter.pending(),
            transcoder.source_is_exact() == iter.is_exact(),
            transcoder.budget() == iter.budget(),
            transcoder.is_done() == iter.is_done(),
    {
        MbsToWcIter2 {
            iter: Some(iter),
            at: 0,
            buf: [MbUnit(0); 16],
            buf_len: 0,
            state: mbstate_t::zeroed(),
            host,
        }
    }

    /// Reads one more unit of the character that is being read, after which
    /// the host is to be asked about the units in the buffer; or hands out
    /// the item that is due without asking.
    ///
    /// Where the buffer is full, the item is `OutOfBufferAt` with the offset
    /// of the character.  Where the source has ended, the transcoding ends
    /// if the buffer is empty, and else the item is `Incomplete`.  An error
    /// stops the transcoder and empties the buffer.
    pub fn pull(&mut self) -> (step: Step<(), WUnit, MbsToWcError>)
        ensures
            final(self).offset() == old(self).offset(),
            final(self).conversion_state() == old(self).conversion_state(),
            old(self).is_fused() ==> (step matches Step::Item(None) && final(self).is_fused()),
            !old(self).is_fused() && old(self).buffered().len() == MB_LEN_MAX ==> {
                &&& step == Step::<(), WUnit, MbsToWcError>::Item(
                    Some(Err(MbsToWcError::OutOfBufferAt(old(self).offset()))),
                )
                &&& final(self).is_fused()
            },
            !old(self).is_fused() && old(self).buffered().len() < MB_LEN_MAX ==> match step {
                Step::Ask(_) => {
                    &&& !final(self).is_fused()
                    &&& final(self).buffered().len() == old(self).buffered().len() + 1
                    &&& final(self).buffered().drop_last() == old(self).buffered()
                    &&& old(self).source_is_exact() ==> final(self).source_is_exact()
                    &&& old(self).source_is_exact() ==> {
                        &&& old(self).source_pending().len() > 0
                        &&& final(self).buffered().last() == old(self).source_pending()[0]
                        &&& final(self).source_pending() == old(self).source_pending().skip(1)
                    }
                },
                Step::Item(None) => {
                    &&& !final(self).is_fused()
                    &&& old(self).buffered().len() == 0
                    &&& final(self).buffered().len() == 0
                    &&& old(self).source_is_exact() ==> final(self).source_is_exact()
                    &&& old(self).source_is_exact() ==> old(self).source_pending().len() == 0
                },
                Step::Item(Some(item)) => {
                    &&& item == Err::<WUnit, MbsToWcError>(MbsToWcError::Incomplete)
                    &&& final(self).is_fused()
                    &&& old(self).buffered().len() > 0
                    &&& old(self).source_is_exact() ==> old(self).source_pending().len() == 0
                },
            },
            old(self).source_is_exact() && old(self).buffered().len() < MB_LEN_MAX ==> (step
                is Ask <==> old(self).source_pending().len() > 0),
            final(self).is_fused() ==> final(self).buffered().len() == 0,
            final(self).budget() <= old(self).budget(),
            step is Ask ==> final(self).budget() <= old(self).budget(),
            step matches Step::Item(Some(_)) ==> final(self).budget() < old(self).budget(),
            step matches Step::Item(None) ==> final(self).is_done(),
            old(self).is_done() ==> step matches Step::Item(None),
    {
        proof {
            use_type_invariant(&*self);
        }
        let buf_len = self.buf_len;
        self.buf_len = 0;
        let mut taken: Option<It> = None;
        core::mem::swap(&mut self.iter, &mut taken);
        let mut iter = match taken {
            Some(iter) => iter,
            None => {
                return Step::Item(None);
            },
        };
        if buf_len == MB_LEN_MAX {
            return Step::Item(Some(Err(MbsToWcError::OutOfBufferAt(self.at))));
        }
        match iter.next() {
            Some(mbu) => {
                self.buf[buf_len] = mbu;
                self.iter = Some(iter);
                self.buf_len = buf_len + 1;
                Step::Ask(())
            },
            None => {
                if buf_len == 0 {
                    self.iter = Some(iter);
                    Step::Item(None)
                } else {
                    Step::Item(Some(Err(MbsToWcError::Incomplete)))
                }
            },
        }
    }

    /// The units about which the host is to be asked: those of the character
    /// that is being read.
    pub fn asked(&self) -> (units: &[MbUnit])
        ensures
            units@ == self.buffered(),
            units@.len() <= MB_LEN_MAX,
    {
        proof {
            use_type_invariant(self);
        }
        vstd::slice::slice_subrange(self.buf.as_slice(), 0, self.buf_len)
    }

    /// The conversion state from which the host is to convert the units.
    pub fn state(&self) -> (state: mbstate_t)
        ensures
            state == self.conversion_state(),
    {
        self.state
    }

    /// Takes what the host answers to the units in the buffer, and the
    /// conversion state in which the host is after them.
    ///
    /// A wide unit is handed out: the offset moves past the units of the
    /// character, the buffer is empty again, and the conversion state is the
    /// one given.  An illegal sequence is handed out as `InvalidAt` with the
    /// offset of the character, and stops the transcoder.  Where the host
    /// needs more units, nothing is handed out and nothing changes.
    pub fn settle(&mut self, answer: MbToWc, state: mbstate_t) -> (item: Option<
        Result<WUnit, MbsToWcError>,
    >)
        requires
            !old(self).is_fused(),
            old(self).buffered().len() > 0,
        ensures
            item == judged(answer, old(self).offset()),
            old(self).source_is_exact() ==> final(self).is_fused() || final(self).source_is_exact(),
            match answer {
                MbToWc::Complete(_) => {
                    &&& !final(self).is_fused()
                    &&& final(self).offset() == old(self).offset() + old(self).buffered().len()
                    &&& final(self).buffered().len() == 0
                    &&& final(self).conversion_state() == state
                    &&& final(self).source_pending() == old(self).source_pending()
                },
                MbToWc::Illegal => {
                    &&& final(self).is_fused()
                    &&& final(self).offset() == old(self).offset()
                    &&& final(self).buffered().len() == 0
                    &&& final(self).conversion_state() == old(self).conversion_state()
                },
                MbToWc::Incomplete => {
                    &&& !final(self).is_fused()
                    &&& final(self).offset() == old(self).offset()
                    &&& final(self).buffered() == old(self).buffered()
                    &&& final(self).conversion_state() == old(self).conversion_state()
                    &&& final(self).source_pending() == old(self).source_pending()
                },
            },
            item is Some ==> final(self).budget() < old(self).budget(),
            item is None ==> final(self).budget() == old(self).budget(),
    {
        proof {
            use_type_invariant(&*self);
        }
        let item = judge(answer, self.at);
        match item {
            None => {
                // The host needs more units to tell the character.
            },
            Some(Ok(_)) => {
                let buf_len = self.buf_len;
                self.buf_len = 0;
                self.at = self.at + buf_len;
                self.state = state;
            },
            Some(Err(_)) => {
                self.buf_len = 0;
                self.iter = None;
            },
        }
        item
    }
}

impl<It: Source<Item = MbUnit>, H: Host> Source for MbsToWcIter2<It, H> {
    type Item = Result<WUnit, MbsToWcError>;

    open spec fn is_exact(&self) -> bool {
        false
    }

    open spec fn pending(&self) -> Seq<Self::Item> {
        Seq::empty()
    }

    closed spec fn is_done(&self) -> bool {
        match self.iter {
            Some(iter) => iter.is_done() && self.buf_len == 0,
            None => true,
        }
    }

    closed spec fn budget(&self) -> nat {
        match self.iter {
            Some(iter) => if self.buf_len > 0 {
                iter.budget() + 1
            } else {
                iter.budget()
            },
            None => 0,
        }
    }

    open spec fn is_terminal(item: Self::Item) -> bool {
        is_error(item)
    }

    proof fn lemma_done_is_empty(&self) {
    }

    /// Returns the wide unit of the next character, or where transcoding
    /// failed: it pulls units and asks the host about them until an item is
    /// due.
    ///
    /// Whatever the host answers: an item takes at least one source unit and
    /// at most `MB_LEN_MAX`; a wide unit moves the offset past the
    /// units of its character; an error names the offset at which its
    /// character started, and stops the transcoder.  `Incomplete` comes only
    /// when the source ends inside a character, and `OutOfBufferAt` only
    /// after `MB_LEN_MAX` units did not complete one.
    fn next(&mut self) -> (item: Option<Result<WUnit, MbsToWcError>>)
        ensures
            old(self).is_fused() ==> item is None,
            !(item matches Some(Ok(_))) ==> final(self).conversion_state()
                == old(self).conversion_state(),
            final(self).buffered().len() == 0 || (item is None && final(self).buffered()
                == old(self).buffered()),
            old(self).buffered().len() == 0 ==> {
                &&& old(self).source_is_exact() && old(self).source_pending().len() == 0 ==> item
                    is None
                &&& match item {
                    None => {
                        &&& final(self).offset() == old(self).offset()
                        &&& final(self).is_fused() == old(self).is_fused()
                        &&& old(self).source_is_exact() ==> {
                            &&& old(self).source_pending().len() == 0
                            &&& final(self).source_is_exact()
                        }
                    },
                    Some(Ok(_)) => {
                        &&& !final(self).is_fused()
                        &&& old(self).offset() < final(self).offset() <= old(self).offset()
                            + MB_LEN_MAX
                        &&& old(self).source_is_exact() ==> {
                            &&& final(self).source_is_exact()
                            &&& final(self).offset() - old(self).offset()
                                <= old(self).source_pending().len()
                            &&& final(self).source_pending() == old(self).source_pending().skip(
                                final(self).offset() - old(self).offset(),
                            )
                        }
                    },
                    Some(Err(MbsToWcError::InvalidAt(at))) => {
                        &&& at == old(self).offset()
                        &&& final(self).is_fused()
                        &&& old(self).source_is_exact() ==> old(self).source_pending().len() >= 1
                    },
                    Some(Err(MbsToWcError::Incomplete)) => {
                        &&& final(self).is_fused()
                        &&& old(self).source_is_exact() ==> 1 <= old(self).source_pending().len()
                            < MB_LEN_MAX
                    },
                    Some(Err(MbsToWcError::OutOfBufferAt(at))) => {
                        &&& at == old(self).offset()
                        &&& final(self).is_fused()
                        &&& old(self).source_is_exact() ==> old(self).source_pending().len()
                            >= MB_LEN_MAX
                    },
                }
            },
    {
        proof {
            use_type_invariant(&*self);
        }
        loop
            invariant
                self.offset() == old(self).offset(),
                self.is_fused() == old(self).is_fused(),
                self.conversion_state() == old(self).conversion_state(),
                self.budget() <= old(self).budget(),
                self.buffered().len() <= MB_LEN_MAX,
                old(self).buffered().len() <= self.buffered().len(),
                self.buffered().len() > old(self).buffered().len() ==> !old(self).is_done(),
                self.buffered().len() == old(self).buffered().len() ==> {
                    &&& self.is_done() == old(self).is_done()
                    &&& self.buffered() == old(self).buffered()
                },
                old(self).source_is_exact() ==> self.source_is_exact(),
                old(self).source_is_exact() ==> {
                    let read = self.buffered().len() - old(self).buffered().len();
                    &&& read <= old(self).source_pending().len()
                    &&& self.source_pending() == old(self).source_pending().skip(read)
                },
            decreases MB_LEN_MAX - self.buffered().len(),
        {
            match self.pull() {
                Step::Item(item) => {
                    return item;
                },
                Step::Ask(_) => {
                    let mut state = self.state();
                    let answer = self.host.mbrtowc(self.asked(), &mut state);
                    match self.settle(answer, state) {
                        Some(item) => {
                            return Some(item);
                        },
                        None => {
                            // The host needs more units to tell the character.
                        },
                    }
                },
            }
        }
    }
}

/// Why wide units could not be transcoded to multibyte units.
#[derive(Clone, Copy, Debug, PartialEq, Eq, Structural)]
pub enum WcsToMbError {
    /// The wide unit at this offset is no character of the multibyte
    /// encoding.
    InvalidAt(usize),
}

impl WcsToMbError {
    /// What the error says, with the offset where it has one.
    pub open spec fn message(&self) -> Seq<char> {
        match *self {
            WcsToMbError::InvalidAt(at) => "invalid unit at offset "@ + decimal(at as int),
        }
    }

    /// Appends what the error says to `out`.
    pub fn fmt(&self, out: &mut String)
        ensures
            final(out)@ == old(out)@ + self.message(),
    {
        match *self {
            WcsToMbError::InvalidAt(at) => {
                out.append("invalid unit at offset ");
                push_decimal(out, at);
            },
        }
    }

    /// What the error says, as a string.
    pub fn to_string(&self) -> (text: String)
        ensures
            text@ == self.message(),
    {
        let mut text = String::new();
        self.fmt(&mut text);
        text
    }

    /// What kind of error this is, in words.
    pub fn description(&self) -> (text: &'static str)
        ensures
            text@ == match *self {
                WcsToMbError::InvalidAt(_) => "invalid unit"@,
            },
    {
        match *self {
            WcsToMbError::InvalidAt(_) => "invalid unit",
        }
    }
}

/// Transcodes wide units to multibyte units.
///
/// The host turns each wide unit into the multibyte units of its character,
/// between one and `MB_LEN_MAX` of them.  The transcoder keeps them in a
/// buffer and hands them out one by one before it reads the next wide unit.
///
/// `next` does all of this.  It rests on two steps that can also be taken by
/// hand: `pull` hands out a unit of the buffer or reads a wide unit, and
/// `settle` takes what the host answers to that wide unit.
pub struct WcsToMbIter<It: Source<Item = WUnit>, H: Host> {
    iter: Option<It>,
    at: usize,
    buf: [MbUnit; 16],
    buf_at: usize,
    buf_len: usize,
    asked: Option<WUnit>,
    state: mbstate_t,
    host: H,
}

impl<It: Source<Item = WUnit>, H: Host> WcsToMbIter<It, H> {
    #[verifier::type_invariant]
    spec fn inv(self) -> bool {
        &&& self.buf_at <= self.buf_len <= MB_LEN_MAX
        &&& self.asked is Some ==> self.buf_at == self.buf_len
        &&& match self.iter {
            Some(iter) => self.at + iter.budget() + (if self.asked is Some {
                1nat
            } else {
                0nat
            }) <= usize::MAX,
            None => self.asked is None,
        }
    }

    /// The number of wide units that have been transcoded.
    pub closed spec fn offset(&self) -> usize {
        self.at
    }

    /// Whether the transcoder has stopped at an error.
    pub closed spec fn is_fused(&self) -> bool {
        self.iter is None
    }

    /// The multibyte units of the last character that have not been handed
    /// out yet.
    pub closed spec fn buffered(&self) -> Seq<MbUnit> {
        self.buf@.subrange(self.buf_at as int, self.buf_len as int)
    }

    /// The wide unit that has been read and that the host has not converted
    /// yet, if there is one.
    pub closed spec fn asking(&self) -> Option<WUnit> {
        self.asked
    }

    /// The conversion state behind the wide units that have been transcoded.
    pub closed spec fn conversion_state(&self) -> mbstate_t {
        self.state
    }

    /// The wide units that the source still holds, where it is exact and the
    /// transcoder has not stopped.
    pub closed spec fn source_pending(&self) -> Seq<WUnit> {
        match self.iter {
            Some(iter) => iter.pending(),
            None => Seq::empty(),
        }
    }

    /// Whether the source is exact.
    pub closed spec fn source_is_exact(&self) -> bool {
        self.iter matches Some(iter) && iter.is_exact()
    }

    /// A transcoder of the units of `iter`, which asks `host` and starts in
    /// the initial conversion state.
    pub fn new(iter: It, host: H) -> (transcoder: Self)
        requires
            iter.budget() <= usize::MAX,
        ensures
            transcoder.offset() == 0,
            !transcoder.is_fused(),
            transcoder.buffered().len() == 0,
            transcoder.asking() is None,
            transcoder.source_pending() == iter.pending(),
            transcoder.source_is_exact() == iter.is_exact(),
            transcoder.budget() == MB_LEN_MAX * iter.budget(),
            transcoder.is_done() == iter.is_done(),
    {
        WcsToMbIter {
            iter: Some(iter),
            at: 0,
            buf: [MbUnit(0); 16],
            buf_at: 0,
            buf_len: 0,
            asked: None,
            state: mbstate_t::zeroed(),
            host,
        }
    }

    /// Hands out the next unit of the buffer; or, where the buffer is empty,
    /// reads a wide unit, which the host is to convert.
    ///
    /// A wide unit that has been read stays the question until `settle` has
    /// taken the answer to it.  Where the source has ended, and where the
    /// transcoder has stopped, the transcoding ends.
    pub fn pull(&mut self) -> (step: Step<WUnit, MbUnit, WcsToMbError>)
        ensures
            final(self).offset() == old(self).offset(),
            final(self).is_fused() == old(self).is_fused(),
            final(self).conversion_state() == old(self).conversion_state(),
            old(self).source_is_exact() ==> final(self).source_is_exact(),
            old(self).buffered().len() > 0 ==> {
                &&& step == Step::<WUnit, MbUnit, WcsToMbError>::Item(
                    Some(Ok(old(self).buffered()[0])),
                )
                &&& final(self).buffered() == old(self).buffered().skip(1)
                &&& final(self).asking() == old(self).asking()
                &&& final(self).source_pending() == old(self).source_pending()
            },
            old(self).buffered().len() == 0 ==> final(self).buffered().len() == 0,
            old(self).buffered().len() == 0 ==> match old(self).asking() {
                Some(wc) => {
                    &&& step == Step::<WUnit, MbUnit, WcsToMbError>::Ask(wc)
                    &&& final(self).asking() == old(self).asking()
                    &&& final(self).source_pending() == old(self).source_pending()
                },
                None => match step {
                    Step::Ask(wc) => {
                        &&& final(self).asking() == Some(wc)
                        &&& old(self).source_is_exact() ==> {
                            &&& old(self).source_pending().len() > 0
                            &&& wc == old(self).source_pending()[0]
                            &&& final(self).source_pending() == old(self).source_pending().skip(
                                1,
                            )
                        }
                    },
                    Step::Item(item) => {
                        &&& item is None
                        &&& final(self).asking() is None
                        &&& old(self).source_is_exact() ==> old(self).source_pending().len() == 0
                    },
                },
            },
            old(self).source_is_exact() && old(self).buffered().len() == 0 && old(self).asking()
                is None ==> (step is Ask <==> old(self).source_pending().len() > 0),
            final(self).budget() <= old(self).budget(),
            step matches Step::Item(Some(_)) ==> final(self).budget() < old(self).budget(),
            step matches Step::Item(None) ==> final(self).is_done(),
            old(self).is_done() ==> step matches Step::Item(None),
    {
        proof {
            use_type_invariant(&*self);
        }
        if self.buf_at < self.buf_len {
            let mbu = self.buf[self.buf_at];
            self.buf_at = self.buf_at + 1;
            return Step::Item(Some(Ok(mbu)));
        }
        if let Some(wc) = self.asked {
            return Step::Ask(wc);
        }
        let mut taken: Option<It> = None;
        core::mem::swap(&mut self.iter, &mut taken);
        let mut iter = match taken {
            Some(iter) => iter,
            None => {
                return Step::Item(None);
            },
        };
        match iter.next() {
            None => {
                self.iter = Some(iter);
                Step::Item(None)
            },
            Some(wc) => {
                self.iter = Some(iter);
                self.asked = Some(wc);
                Step::Ask(wc)
            },
        }
    }

    /// The conversion state from which the host is to convert the wide unit.
    pub fn state(&self) -> (state: mbstate_t)
        ensures
            state == self.conversion_state(),
    {
        self.state
    }

    /// Takes what the host answers to the wide unit that has been read, and
    /// the conversion state in which the host is after it.
    ///
    /// Of the multibyte units of the character the first is handed out and
    /// the others are buffered; the offset moves by one, and the conversion
    /// state is the one given.  A wide unit that is no character is handed
    /// out as `InvalidAt` with its offset, and stops the transcoder.
    pub fn settle(&mut self, answer: WcToMb, state: mbstate_t) -> (item: Result<
        MbUnit,
        WcsToMbError,
    >)
        requires
            old(self).asking() is Some,
        ensures
            final(self).asking() is None,
            match answer {
                WcToMb::Written(group) => {
                    &&& item == Ok::<MbUnit, WcsToMbError>(group.units()[0])
                    &&& final(self).buffered() == group.units().skip(1)
                    &&& final(self).buffered().len() < MB_LEN_MAX
                    &&& final(self).offset() == old(self).offset() + 1
                    &&& final(self).conversion_state() == state
                    &&& !final(self).is_fused()
                    &&& final(self).source_pending() == old(self).source_pending()
                    &&& old(self).source_is_exact() ==> final(self).source_is_exact()
                },
                WcToMb::Illegal => {
                    &&& item == Err::<MbUnit, WcsToMbError>(
                        WcsToMbError::InvalidAt(old(self).offset()),
                    )
                    &&& final(self).buffered().len() == 0
                    &&& final(self).offset() == old(self).offset()
                    &&& final(self).conversion_state() == old(self).conversion_state()
                    &&& final(self).is_fused()
                },
            },
            final(self).budget() < old(self).budget(),
            item is Err ==> final(self).is_done(),
    {
        proof {
            use_type_invariant(&*self);
        }
        match answer {
            WcToMb::Illegal => {
                self.asked = None;
                let at = self.at;
                self.iter = None;
                Err(WcsToMbError::InvalidAt(at))
            },
            WcToMb::Written(group) => {
                let len = group.len();
                self.asked = None;
                self.buf_at = 0;
                self.buf_len = 0;
                let mut i: usize = 0;
                while i < len
                    invariant
                        i <= len == group.units().len(),
                        len <= MB_LEN_MAX,
                        self.iter == old(self).iter,
                        self.iter matches Some(iter) ==> self.at + iter.budget() + 1
                            <= usize::MAX,
                        self.at == old(self).at,
                        self.asked is None,
                        self.state == old(self).state,
                        self.buf_at == 0,
                        self.buf_len == 0,
                        self.buf@.take(i as int) == group.units().take(i as int),
                    decreases len - i,
                {
                    self.buf[i] = group.get(i);
                    i = i + 1;
                }
                self.at = self.at + 1;
                self.state = state;
                self.buf_len = len;
                self.buf_at = 1;
                assert(group.units().take(len as int) =~= group.units());
                Ok(self.buf[0])
            },
        }
    }
}

impl<It: Source<Item = WUnit>, H: Host> Source for WcsToMbIter<It, H> {
    type Item = Result<MbUnit, WcsToMbError>;

    open spec fn is_exact(&self) -> bool {
        false
    }

    open spec fn pending(&self) -> Seq<Self::Item> {
        Seq::empty()
    }

    closed spec fn is_done(&self) -> bool {
        &&& self.buf_at >= self.buf_len
        &&& self.asked is None
        &&& match self.iter {
            Some(iter) => iter.is_done(),
            None => true,
        }
    }

    closed spec fn budget(&self) -> nat {
        let ahead: nat = match self.iter {
            Some(iter) => iter.budget(),
            None => 0,
        };
        let asked: nat = if self.asked is Some {
            1
        } else {
            0
        };
        (MB_LEN_MAX * (ahead + asked) + (self.buf_len - self.buf_at)) as nat
    }

    open spec fn is_terminal(item: Self::Item) -> bool {
        is_error(item)
    }

    proof fn lemma_done_is_empty(&self) {
    }

    /// Returns the next multibyte unit, or where transcoding failed: it
    /// pulls, and where a wide unit has been read it asks the host about it.
    ///
    /// While units of the last character are buffered, the next of them is
    /// returned and nothing else changes.  Else, whatever the host answers:
    /// multibyte units move the offset by one, the first of them is returned
    /// and fewer than `MB_LEN_MAX` are buffered; an error names the offset of
    /// the wide unit and stops the transcoder.
    fn next(&mut self) -> (item: Option<Result<MbUnit, WcsToMbError>>)
        ensures
            final(self).asking() is None,
            !(item matches Some(Ok(_))) ==> final(self).conversion_state()
                == old(self).conversion_state(),
            old(self).buffered().len() > 0 ==> {
                &&& item == Some(Ok::<MbUnit, WcsToMbError>(old(self).buffered()[0]))
                &&& final(self).buffered() == old(self).buffered().skip(1)
                &&& final(self).offset() == old(self).offset()
                &&& final(self).is_fused() == old(self).is_fused()
                &&& final(self).conversion_state() == old(self).conversion_state()
                &&& final(self).source_pending() == old(self).source_pending()
                &&& old(self).source_is_exact() ==> final(self).source_is_exact()
            },
            ({
                &&& old(self).buffered().len() == 0
                &&& old(self).asking() is None
                &&& old(self).source_is_exact()
                &&& old(self).source_pending().len() == 0
            }) ==> item is None,
            old(self).buffered().len() == 0 && old(self).asking() is None ==> match item {
                None => {
                    &&& final(self).offset() == old(self).offset()
                    &&& final(self).is_fused() == old(self).is_fused()
                    &&& final(self).buffered().len() == 0
                    &&& old(self).source_is_exact() ==> {
                        &&& old(self).source_pending().len() == 0
                        &&& final(self).source_is_exact()
                    }
                },
                Some(Ok(_)) => {
                    &&& !final(self).is_fused()
                    &&& final(self).offset() == old(self).offset() + 1
                    &&& final(self).buffered().len() < MB_LEN_MAX
                    &&& old(self).source_is_exact() ==> {
                        &&& final(self).source_is_exact()
                        &&& old(self).source_pending().len() >= 1
                        &&& final(self).source_pending() == old(self).source_pending().skip(1)
                    }
                },
                Some(Err(WcsToMbError::InvalidAt(at))) => {
                    &&& at == old(self).offset()
                    &&& final(self).is_fused()
                    &&& final(self).buffered().len() == 0
                    &&& old(self).source_is_exact() ==> old(self).source_pending().len() >= 1
                },
            },
    {
        proof {
            use_type_invariant(&*self);
        }
        match self.pull() {
            Step::Item(item) => item,
            Step::Ask(wc) => {
                let mut state = self.state();
                let answer = self.host.wcrtomb(wc, &mut state);
                Some(self.settle(answer, state))
            },
        }
    }
}

/// Why multibyte units could not be transcoded to Unicode: one of the errors
/// of the two steps, to wide units and from them to Unicode.
#[derive(Clone, Copy, Debug, PartialEq, Eq, Structural)]
pub enum MbsToUniError {
    /// The multibyte units from this offset on start no character; or the
    /// wide unit at this offset, counted in wide units, stands for no
    /// character.
    InvalidAt(usize),
    /// The source ended inside a character.
    Incomplete,
    /// The character that starts at this offset has more than `MB_LEN_MAX`
    /// units.
    OutOfBufferAt(usize),
}

impl MbsToUniError {
    /// What the error says, with the offset where it has one.
    pub open spec fn message(&self) -> Seq<char> {
        match *self {
            MbsToUniError::InvalidAt(at) => "invalid unit at offset "@ + decimal(at as int),
            MbsToUniError::Incomplete => "incomplete unit"@,
            MbsToUniError::OutOfBufferAt(at) => "character too large to transcode at offset "@
                + decimal(at as int),
        }
    }

    /// Appends what the error says to `out`.
    pub fn fmt(&self, out: &mut String)
        ensures
            final(out)@ == old(out)@ + self.message(),
    {
        match *self {
            MbsToUniError::InvalidAt(at) => {
                out.append("invalid unit at offset ");
                push_decimal(out, at);
            },
            MbsToUniError::Incomplete => {
                out.append("incomplete unit");
            },
            MbsToUniError::OutOfBufferAt(at) => {
                out.append("character too large to transcode at offset ");
                push_decimal(out, at);
            },
        }
    }

    /// What the error says, as a string.
    pub fn to_string(&self) -> (text: String)
        ensures
            text@ == self.message(),
    {
        let mut text = String::new();
        self.fmt(&mut text);
        text
    }

    /// What kind of error this is, in words.
    pub fn description(&self) -> (text: &'static str)
        ensures
            text@ == match *self {
                MbsToUniError::InvalidAt(_) => "invalid unit"@,
                MbsToUniError::Incomplete => "incomplete unit"@,
                MbsToUniError::OutOfBufferAt(_) => "character too large to transcode"@,
            },
    {
        match *self {
            MbsToUniError::InvalidAt(_) => "invalid unit",
            MbsToUniError::Incomplete => "incomplete unit",
            MbsToUniError::OutOfBufferAt(_) => "character too large to transcode",
        }
    }
}

/// The error of the transcoding to Unicode that stands for an error of the
/// transcoding to wide units: the one of the same name.
pub open spec fn unified(e: MbsToWcError) -> MbsToUniError {
    match e {
        MbsToWcError::InvalidAt(at) => MbsToUniError::InvalidAt(at),
        MbsToWcError::Incomplete => MbsToUniError::Incomplete,
        MbsToWcError::OutOfBufferAt(at) => MbsToUniError::OutOfBufferAt(at),
    }
}

impl From<MbsToWcError> for MbsToUniError {
    fn from(v: MbsToWcError) -> (e: Self) {
        match v {
            MbsToWcError::InvalidAt(at) => MbsToUniError::InvalidAt(at),
            MbsToWcError::Incomplete => MbsToUniError::Incomplete,
            MbsToWcError::OutOfBufferAt(at) => MbsToUniError::OutOfBufferAt(at),
        }
    }
}

impl FromSpecImpl<MbsToWcError> for MbsToUniError {
    open spec fn obeys_from_spec() -> bool {
        true
    }

    open spec fn from_spec(v: MbsToWcError) -> Self {
        unified(v)
    }
}

impl From<WcToUniError> for MbsToUniError {
    fn from(v: WcToUniError) -> (e: Self) {
        match v {
            WcToUniError::InvalidAt(at) => MbsToUniError::InvalidAt(at),
            WcToUniError::Incomplete => MbsToUniError::Incomplete,
        }
    }
}

impl FromSpecImpl<WcToUniError> for MbsToUniError {
    open spec fn obeys_from_spec() -> bool {
        true
    }

    open spec fn from_spec(v: WcToUniError) -> Self {
        match v {
            WcToUniError::InvalidAt(at) => MbsToUniError::InvalidAt(at),
            WcToUniError::Incomplete => MbsToUniError::Incomplete,
        }
    }
}

/// Converts the error of a result.
pub fn map_err<T, E, F: From<E>>(v: Result<T, E>) -> (mapped: Result<T, F>)
    ensures
        match v {
            Ok(value) => mapped matches Ok(m) && m == value,
            Err(e) => mapped matches Err(f) && (F::obeys_from_spec() ==> f == F::from_spec(e)),
        },
{
    match v {
        Ok(value) => Ok(value),
        Err(e) => Err(F::from(e)),
    }
}

/// What an item of the transcoding to wide units becomes in the transcoding
/// to Unicode, where `at` characters came before it: a wide unit becomes its
/// character, or `InvalidAt` with the number `at` where it holds no scalar
/// value; an error becomes the error of the same name.
pub open spec fn lifted(item: Result<WUnit, MbsToWcError>, at: usize) -> Result<
    char,
    MbsToUniError,
> {
    match item {
        Ok(wc) => if is_scalar_unit(wc) {
            Ok(wc.0 as char)
        } else {
            Err(MbsToUniError::InvalidAt(at))
        },
        Err(e) => Err(unified(e)),
    }
}

/// Computes `lifted`.
pub fn lift(item: Result<WUnit, MbsToWcError>, at: usize) -> (lifted_item: Result<
    char,
    MbsToUniError,
>)
    ensures
        lifted_item == lifted(item, at),
{
    match item {
        Ok(wc) => match scalar_of(wc) {
            Some(c) => Ok(c),
            None => map_err::<char, WcToUniError, MbsToUniError>(
                Err(WcToUniError::InvalidAt(at)),
            ),
        },
        Err(e) => map_err::<char, MbsToWcError, MbsToUniError>(Err(e)),
    }
}

/// Transcodes multibyte units to Unicode: to wide units as `MbsToWcIter2`
/// does, and each wide unit to its character.  The errors of the two steps
/// become one kind.
pub struct MbsToUniIter<It: Source<Item = MbUnit>, H: Host> {
    iter: Option<MbsToWcIter2<It, H>>,
    at: usize,
}

impl<It: Source<Item = MbUnit>, H: Host> MbsToUniIter<It, H> {
    #[verifier::type_invariant]
    spec fn inv(self) -> bool {
        self.iter matches Some(iter) ==> iter.buffered().len() == 0 && self.at + iter.budget()
            <= usize::MAX
    }

    /// The number of characters that have been handed out.
    pub closed spec fn offset(&self) -> usize {
        self.at
    }

    /// Whether the transcoder has stopped at an error.
    pub closed spec fn is_fused(&self) -> bool {
        self.iter is None
    }

    /// The number of multibyte units that complete characters have taken,
    /// until the transcoder stops.
    pub closed spec fn source_offset(&self) -> usize {
        match self.iter {
            Some(iter) => iter.offset(),
            None => 0,
        }
    }

    /// The units that the source still holds, where it is exact and the
    /// transcoder has not stopped.
    pub closed spec fn source_pending(&self) -> Seq<MbUnit> {
        match self.iter {
            Some(iter) => iter.source_pending(),
            None => Seq::empty(),
        }
    }

    /// Whether the source is exact.
    pub closed spec fn source_is_exact(&self) -> bool {
        self.iter matches Some(iter) && iter.source_is_exact()
    }

    /// A transcoder of the units of `iter`, which asks `host` and starts in
    /// the initial conversion state.
    pub fn new(iter: It, host: H) -> (transcoder: Self)
        requires
            iter.budget() <= usize::MAX,
        ensures
            transcoder.offset() == 0,
            transcoder.source_offset() == 0,
            !transcoder.is_fused(),
            transcoder.budget() == iter.budget(),
            transcoder.is_done() == iter.is_done(),
            transcoder.source_pending() == iter.pending(),
            transcoder.source_is_exact() == iter.is_exact(),
    {
        MbsToUniIter { iter: Some(MbsToWcIter2::new(iter, host)), at: 0 }
    }
}

impl<It: Source<Item = MbUnit>, H: Host> Source for MbsToUniIter<It, H> {
    type Item = Result<char, MbsToUniError>;

    open spec fn is_exact(&self) -> bool {
        false
    }

    open spec fn pending(&self) -> Seq<Self::Item> {
        Seq::empty()
    }

    closed spec fn is_done(&self) -> bool {
        match self.iter {
            Some(iter) => iter.is_done(),
            None => true,
        }
    }

    closed spec fn budget(&self) -> nat {
        match self.iter {
            Some(iter) => iter.budget(),
            None => 0,
        }
    }

    open spec fn is_terminal(item: Self::Item) -> bool {
        is_error(item)
    }

    proof fn lemma_done_is_empty(&self) {
    }

    /// Returns the next character, or where transcoding failed.
    ///
    /// Whatever the host answers: a character takes between one and
    /// `MB_LEN_MAX` multibyte units and moves the offset by one; an error
    /// stops the transcoder.  The error of a wide unit that holds no scalar
    /// value is `InvalidAt` with the number of characters before it.
    fn next(&mut self) -> (item: Option<Result<char, MbsToUniError>>)
        ensures
            old(self).is_fused() ==> item is None,
            old(self).source_is_exact() && old(self).source_pending().len() == 0 ==> item
                is None,
            match item {
                None => {
                    &&& final(self).offset() == old(self).offset()
                    &&& final(self).is_fused() == old(self).is_fused()
                    &&& final(self).source_offset() == old(self).source_offset()
                    &&& old(self).source_is_exact() ==> {
                        &&& old(self).source_pending().len() == 0
                        &&& final(self).source_is_exact()
                    }
                },
                Some(Ok(_)) => {
                    &&& !final(self).is_fused()
                    &&& final(self).offset() == old(self).offset() + 1
                    &&& old(self).source_offset() < final(self).source_offset()
                    &&& final(self).source_offset() <= old(self).source_offset() + MB_LEN_MAX
                    &&& old(self).source_is_exact() ==> {
                        &&& final(self).source_is_exact()
                        &&& final(self).source_offset() - old(self).source_offset()
                            <= old(self).source_pending().len()
                        &&& final(self).source_pending() == old(self).source_pending().skip(
                            final(self).source_offset() - old(self).source_offset(),
                        )
                    }
                },
                Some(Err(MbsToUniError::InvalidAt(at))) => {
                    &&& final(self).is_fused()
                    &&& at == old(self).source_offset() || at == old(self).offset()
                    &&& old(self).source_is_exact() ==> old(self).source_pending().len() >= 1
                },
                Some(Err(MbsToUniError::Incomplete)) => {
                    &&& final(self).is_fused()
                    &&& old(self).source_is_exact() ==> 1 <= old(self).source_pending().len()
                        < MB_LEN_MAX
                },
                Some(Err(MbsToUniError::OutOfBufferAt(at))) => {
                    &&& final(self).is_fused()
                    &&& at == old(self).source_offset()
                    &&& old(self).source_is_exact() ==> old(self).source_pending().len()
                        >= MB_LEN_MAX
                },
            },
    {
        proof {
            use_type_invariant(&*self);
        }
        let mut taken: Option<MbsToWcIter2<It, H>> = None;
        core::mem::swap(&mut self.iter, &mut taken);
        let mut iter = match taken {
            Some(iter) => iter,
            None => {
                return None;
            },
        };
        match iter.next() {
            None => {
                self.iter = Some(iter);
                None
            },
            Some(item) => {
                let lifted_item = lift(item, self.at);
                if lifted_item.is_ok() {
                    self.at = self.at + 1;
                    self.iter = Some(iter);
                }
                Some(lifted_item)
            },
        }
    }
}

/// Transcodes multibyte units to wide units, all of them: it asks `host`
/// for each character, and fails with the first error.
///
/// Whatever the host answers: there is a wide unit for every one to
/// `MB_LEN_MAX` multibyte units, and an error names an offset inside the
/// units: `InvalidAt` that of a unit, `OutOfBufferAt` that of `MB_LEN_MAX`
/// units that complete no character; and `Incomplete` comes of units at the
/// end.
pub fn mbs_to_wcs<H: Host>(units: &[MbUnit], host: H) -> (wide: Result<Vec<WUnit>, MbsToWcError>)
    ensures
        match wide {
            Ok(w) => w@.len() <= units@.len() <= MB_LEN_MAX * w@.len(),
            Err(MbsToWcError::InvalidAt(at)) => at < units@.len(),
            Err(MbsToWcError::Incomplete) => units@.len() > 0,
            Err(MbsToWcError::OutOfBufferAt(at)) => at + MB_LEN_MAX <= units@.len(),
        },
{
    let mut iter = MbsToWcIter2::new(SliceIter::new(units), host);
    let mut wide: Vec<WUnit> = Vec::new();
    loop
        invariant
            !iter.is_fused(),
            iter.source_is_exact(),
            iter.buffered().len() == 0,
            wide@.len() <= iter.offset() <= MB_LEN_MAX * wide@.len(),
            iter.offset() + iter.source_pending().len() == units@.len(),
        decreases iter.budget(),
    {
        match iter.next() {
            None => {
                return Ok(wide);
            },
            Some(Ok(wc)) => {
                wide.push(wc);
            },
            Some(Err(e)) => {
                return Err(e);
            },
        }
    }
}

/// Transcodes wide units to multibyte units, all of them: it asks `host` for
/// each wide unit, and fails with the first error.
///
/// Whatever the host answers: there are one to `MB_LEN_MAX` multibyte units
/// for every wide unit, and `InvalidAt` names the offset of a wide unit.
pub fn wcs_to_mbs<H: Host>(wide: &[WUnit], host: H) -> (units: Result<Vec<MbUnit>, WcsToMbError>)
    ensures
        match units {
            Ok(m) => wide@.len() <= m@.len() <= MB_LEN_MAX * wide@.len(),
            Err(WcsToMbError::InvalidAt(at)) => at < wide@.len(),
        },
{
    let mut iter = WcsToMbIter::new(SliceIter::new(wide), host);
    let mut units: Vec<MbUnit> = Vec::new();
    loop
        invariant
            !iter.is_fused(),
            iter.source_is_exact(),
            iter.asking() is None,
            iter.offset() <= units@.len(),
            units@.len() + iter.buffered().len() <= MB_LEN_MAX * iter.offset(),
            iter.offset() + iter.source_pending().len() == wide@.len(),
        decreases iter.budget(),
    {
        match iter.next() {
            None => {
                return Ok(units);
            },
            Some(Ok(unit)) => {
                units.push(unit);
            },
            Some(Err(e)) => {
                return Err(e);
            },
        }
    }
}

} // verus!

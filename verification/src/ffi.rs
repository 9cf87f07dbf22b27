//! What the library needs from the host's C runtime.
//!
//! The multibyte and the wide encoding are whatever the locale of the calling
//! thread says they are.  Only the host can convert between them, one
//! character at a time; the library buffers around that.  It reaches the host
//! through `Host`, and keeps the conversion state of each transcoding itself.
//! What the library does with an answer of the host is a step of its own,
//! `settle`, of the transcoders in `encoding::conv::mb_x_wc`.
use crate::encoding::{MbUnit, WUnit};
use vstd::prelude::*;

verus! {

/// An upper bound on the number of units of one multibyte character.
///
/// No encoding in use needs more than twelve bytes for a character; sixteen
/// leaves room.
pub const MB_LEN_MAX: usize = 16;

/// The host's conversion state: where a transcoding stands inside a
/// multibyte sequence, and in which shift state.  The library copies and
/// keeps it, and reads nothing in it.
#[allow(non_camel_case_types)]
#[derive(Clone, Copy, Debug)]
pub struct mbstate_t {
    _data: [u32; 2],
}

impl mbstate_t {
    /// The initial conversion state: all bits zero.
    pub fn zeroed() -> (state: Self)
        ensures
            state.data()@ == seq![0u32, 0u32],
    {
        let state = mbstate_t { _data: [0, 0] };
        state
    }

    /// The words of the state.
    pub closed spec fn data(&self) -> [u32; 2] {
        self._data
    }

    /// The words of the state, for the host's routines.
    pub fn to_data(&self) -> (data: [u32; 2])
        ensures
            data == self.data(),
    {
        self._data
    }

    /// The state that the host's routines left in `data`.
    pub fn from_data(data: [u32; 2]) -> (state: Self)
        ensures
            state.data() == data,
    {
        mbstate_t { _data: data }
    }
}

/// What the host answers when asked to convert the start of a multibyte
/// sequence to a wide unit.
#[derive(Clone, Copy, Debug, PartialEq, Eq, Structural)]
pub enum MbToWc {
    /// The units cannot start any character.
    Illegal,
    /// The units start a character and more are needed to tell which.
    Incomplete,
    /// The units are the character with this wide unit.
    Complete(WUnit),
}

/// The multibyte units of one character: between one and `MB_LEN_MAX` of
/// them.
#[derive(Clone, Copy, Debug)]
pub struct MbGroup {
    buf: [MbUnit; 16],
    len: usize,
}

impl MbGroup {
    #[verifier::type_invariant]
    spec fn inv(self) -> bool {
        1 <= self.len <= MB_LEN_MAX
    }

    /// The units of the group.
    pub closed spec fn units(&self) -> Seq<MbUnit> {
        self.buf@.take(self.len as int)
    }

    /// The group of the given units, if they are between one and
    /// `MB_LEN_MAX`.
    pub fn new(units: &[MbUnit]) -> (group: Option<Self>)
        ensures
            group is Some <==> 1 <= units@.len() <= MB_LEN_MAX,
            group matches Some(g) ==> g.units() == units@,
    {
        let n = units.len();
        if n == 0 || n > MB_LEN_MAX {
            return None;
        }
        let mut buf = [MbUnit(0); 16];
        let mut i: usize = 0;
        while i < n
            invariant
                i <= n <= MB_LEN_MAX,
                n == units@.len(),
                buf@.take(i as int) == units@.take(i as int),
            decreases n - i,
        {
            buf[i] = units[i];
            i = i + 1;
        }
        let group = MbGroup { buf, len: n };
        Some(group)
    }

    /// The number of units of the group.
    pub fn len(&self) -> (n: usize)
        ensures
            n == self.units().len(),
            1 <= n <= MB_LEN_MAX,
    {
        proof {
            use_type_invariant(self);
        }
        self.len
    }

    /// The `i`-th unit of the group.
    pub fn get(&self, i: usize) -> (unit: MbUnit)
        requires
            i < self.units().len(),
        ensures
            unit == self.units()[i as int],
    {
        proof {
            use_type_invariant(self);
        }
        self.buf[i]
    }
}

/// What the host answers when asked to convert a wide unit to multibyte
/// units.
#[derive(Clone, Copy, Debug)]
pub enum WcToMb {
    /// The wide unit is no character of the multibyte encoding.
    Illegal,
    /// The wide unit is the character with these multibyte units.
    Written(MbGroup),
}

/// The host's stateful converters between the multibyte and the wide
/// encoding.
///
/// Nothing is assumed of what an implementation answers: whatever the
/// library does with an answer, it does for every answer.
pub trait Host {
    /// Converts the multibyte units `src`, which continue from `state`, to
    /// one wide unit, and moves `state` past them.  The library hands over
    /// between one and `MB_LEN_MAX` units.
    fn mbrtowc(&self, src: &[MbUnit], state: &mut mbstate_t) -> MbToWc
        requires
            1 <= src@.len() <= MB_LEN_MAX,
    ;

    /// Converts the wide unit `wc` to multibyte units, which continue from
    /// `state`, and moves `state` past them.
    fn wcrtomb(&self, wc: WUnit, state: &mut mbstate_t) -> WcToMb;
}

} // verus!

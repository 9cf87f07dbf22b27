//! Encoding conversion support.
use crate::text::{decimal, push_decimal};
use vstd::prelude::*;
use vstd::string::StringExecFns;

pub mod linux;
pub mod mb_x_wc;
pub mod windows;

verus! {

/// Why wide units could not be transcoded to Unicode.
#[derive(Clone, Copy, Debug, PartialEq, Eq, Structural)]
pub enum WcToUniError {
    /// The unit at this offset, counted in source units, stands for no
    /// character.
    InvalidAt(usize),
    /// The source ended inside a character.
    Incomplete,
}

impl WcToUniError {
    /// What the error says, with the offset where it has one.
    pub open spec fn message(&self) -> Seq<char> {
        match *self {
            WcToUniError::InvalidAt(at) => "invalid unit at offset "@ + decimal(at as int),
            WcToUniError::Incomplete => "incomplete unit"@,
        }
    }

    /// Appends what the error says to `out`.
    pub fn fmt(&self, out: &mut String)
        ensures
            final(out)@ == old(out)@ + self.message(),
    {
        match *self {
            WcToUniError::InvalidAt(at) => {
                out.append("invalid unit at offset ");
                push_decimal(out, at);
            },
            WcToUniError::Incomplete => {
                out.append("incomplete unit");
            },
        }
    }

    /// What the error says, as a string.
    pub fn to_string(&self) -> (text: String)
        ensures
            text@ == self.message(),
    {
        let mut text = String::new();
        self.fmt(&mut text);
        text
    }

    /// What kind of error this is, in words.
    pub fn description(&self) -> (text: &'static str)
        ensures
            text@ == match *self {
                WcToUniError::InvalidAt(_) => "invalid unit"@,
                WcToUniError::Incomplete => "incomplete unit"@,
            },
    {
        match *self {
            WcToUniError::InvalidAt(_) => "invalid unit",
            WcToUniError::Incomplete => "incomplete unit",
        }
    }
}

/// The error of a transcoding that cannot fail.  No value of this type
/// exists, so a `Result` with this error is always `Ok`.
#[derive(Clone, Copy, Debug)]
pub enum NoError {
    /// The one variant, which holds what cannot be made.
    Never(Absurd),
}

/// A type without values: its invariant is false, and nothing outside this
/// module can write its field.
#[derive(Clone, Copy, Debug)]
pub struct Absurd {
    _private: (),
}

impl Absurd {
    #[verifier::type_invariant]
    spec fn inv(self) -> bool {
        false
    }
}

impl NoError {
    /// What the error says: nothing, since there is no such error.
    pub fn description(&self) -> &'static str {
        (*self).coerce()
    }

    /// Turns the error that does not exist into a value of any type.
    pub fn coerce<T>(self) -> T {
        match self {
            NoError::Never(absurd) => {
                proof {
                    use_type_invariant(&absurd);
                }
                vstd::pervasive::unreached()
            },
        }
    }
}

/// A result whose error is `NoError` is `Ok`.
pub fn always_ok<T>(result: Result<T, NoError>) -> (value: T)
    ensures
        result matches Ok(v) && v == value,
{
    match result {
        Ok(value) => value,
        Err(NoError::Never(absurd)) => {
            proof {
                use_type_invariant(&absurd);
            }
            vstd::pervasive::unreached()
        },
    }
}

} // verus!

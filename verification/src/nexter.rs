//! The kinds of traversing, and their names.
use vstd::prelude::*;

use crate::dirs::{opt_int, step_fits};
use crate::error::{Error, Result};
use crate::text::{lowercase_spec, same_text, to_lowercase};

verus! {

/// The way to find the next directory.
#[derive(Debug, Clone, Copy, PartialEq, Eq, Structural)]
pub enum NexterType {
    /// the first directory of the list.
    First,
    /// the last directory of the list.
    Last,
    /// the directory `step` entries backward.
    Previous,
    /// the directory `step` entries forward.
    Next,
    /// a directory chosen at random.
    Random,
    /// the current directory.
    Keep,
}

/// The kind that a name in lower case names.
pub open spec fn kind_named(name: Seq<char>) -> Option<NexterType> {
    if name == "first"@ {
        Some(NexterType::First)
    } else if name == "last"@ {
        Some(NexterType::Last)
    } else if name == "previous"@ {
        Some(NexterType::Previous)
    } else if name == "next"@ {
        Some(NexterType::Next)
    } else if name == "random"@ {
        Some(NexterType::Random)
    } else if name == "keep"@ {
        Some(NexterType::Keep)
    } else {
        None
    }
}

/// What parsing `s` gives: the kind named by `s` in lower case, or the error
/// that holds `s` itself.
pub open spec fn parsed_kind(s: Seq<char>) -> core::result::Result<NexterType, Seq<char>> {
    match kind_named(lowercase_spec(s)) {
        Some(kind) => Ok(kind),
        None => Err(s),
    }
}

impl NexterType {
    /// Parse the name of a kind, in any case, such as `next` or `Previous`.
    ///
    /// # Errors
    ///
    /// Returns [`Error::UnknownNexterType`] with `s` if it names no kind.
    pub fn parse(s: &str) -> (r: Result<NexterType>)
        ensures
            match parsed_kind(s@) {
                Ok(kind) => r == Ok::<NexterType, Error>(kind),
                Err(name) => r matches Err(Error::UnknownNexterType(t)) && t@ == name,
            },
    {
        let lower = to_lowercase(s);
        let name = lower.as_str();
        if same_text(name, "first") {
            Ok(NexterType::First)
        } else if same_text(name, "last") {
            Ok(NexterType::Last)
        } else if same_text(name, "previous") {
            Ok(NexterType::Previous)
        } else if same_text(name, "next") {
            Ok(NexterType::Next)
        } else if same_text(name, "random") {
            Ok(NexterType::Random)
        } else if same_text(name, "keep") {
            Ok(NexterType::Keep)
        } else {
            Err(Error::UnknownNexterType(String::from_str(s)))
        }
    }

    /// Whether the traversing of this kind from `current` in a list of `len`
    /// entries by `step` can be made: the list of `Next` and `Previous` must be
    /// no longer than `i32::MAX`; see [`step_fits`].
    pub fn fits(&self, len: usize, current: Option<usize>, step: i32) -> (r: bool)
        ensures
            r == step_fits(*self, len as int, opt_int(current), step as int),
    {
        match self {
            NexterType::Next => len <= i32::MAX as usize,
            NexterType::Previous => len <= i32::MAX as usize,
            _ => true,
        }
    }
}

impl core::str::FromStr for NexterType {
    type Err = Error;

    /// Parse the name of a kind, in any case; see [`NexterType::parse`].
    fn from_str(s: &str) -> (r: Result<Self>)
        ensures
            match parsed_kind(s@) {
                Ok(kind) => r == Ok::<NexterType, Error>(kind),
                Err(name) => r matches Err(Error::UnknownNexterType(t)) && t@ == name,
            },
    {
        NexterType::parse(s)
    }
}

} // verus!

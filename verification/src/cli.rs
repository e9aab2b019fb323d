//! The choices a run is configured with.

use crate::text::{parse_usize, parsed_usize};
use std::num::ParseIntError;
use vstd::prelude::*;

verus! {

/// Whether the user confirms renames, and how many at a time.
#[derive(Debug, Copy, Clone, PartialEq, Eq, Structural)]
pub enum ConfirmMode {
    Never,
    Batch,
    Each,
}

/// What becomes of a file's extension, as selected before any static
/// extension is known.
#[derive(Debug, Copy, Clone, PartialEq, Eq, Structural)]
pub enum ExtensionModeSelection {
    KeepAll,
    KeepLast,
    Static,
    Discard,
}

/// What a run does when an operation on one file fails.
#[derive(Debug, Copy, Clone, PartialEq, Eq, Structural)]
pub enum ErrorHandlingMode {
    Ignore,
    Warn,
    Halt,
}

/// The two ways of generating names.
#[derive(Debug, Copy, Clone, PartialEq, Eq, Structural)]
pub enum NameGenerationStrategy {
    /// Draw each name on its own and draw again on a collision.
    OnDemand,
    /// Enumerate every name, then hand them out at random.
    Match,
}

/// The family of symbols to draw names from.
#[derive(Debug, Copy, Clone, PartialEq, Eq, Structural)]
pub enum CharSetSelection {
    Custom,
    Letters,
    Numbers,
    AlphaNumeric,
    Base16,
    Base64,
}

/// Letter case, for the families that have one.
#[derive(Debug, Copy, Clone, PartialEq, Eq, Structural)]
pub enum Casing {
    Upper,
    Lower,
    Mixed,
}

impl CharSetSelection {
    /// The name of the selection.
    pub open spec fn name(self) -> Seq<char> {
        match self {
            CharSetSelection::Custom => "Custom"@,
            CharSetSelection::Letters => "Letters"@,
            CharSetSelection::Numbers => "Numbers"@,
            CharSetSelection::AlphaNumeric => "AlphaNumeric"@,
            CharSetSelection::Base16 => "Base16"@,
            CharSetSelection::Base64 => "Base64"@,
        }
    }

    /// The name of the selection.
    pub fn to_name(self) -> (name: &'static str)
        ensures
            name@ == self.name(),
    {
        match self {
            CharSetSelection::Custom => "Custom",
            CharSetSelection::Letters => "Letters",
            CharSetSelection::Numbers => "Numbers",
            CharSetSelection::AlphaNumeric => "AlphaNumeric",
            CharSetSelection::Base16 => "Base16",
            CharSetSelection::Base64 => "Base64",
        }
    }
}

impl Casing {
    /// The name of the case.
    pub open spec fn name(self) -> Seq<char> {
        match self {
            Casing::Upper => "Upper"@,
            Casing::Lower => "Lower"@,
            Casing::Mixed => "Mixed"@,
        }
    }

    /// The name of the case.
    pub fn to_name(self) -> (name: &'static str)
        ensures
            name@ == self.name(),
    {
        match self {
            Casing::Upper => "Upper",
            Casing::Lower => "Lower",
            Casing::Mixed => "Mixed",
        }
    }
}

/// The size of a batch that a text stands for: the number it holds, where 0
/// stands for no limit, that is for the largest size there is.
pub open spec fn batch_size_of(text: Seq<char>) -> Option<nat> {
    match parsed_usize(text) {
        Some(n) => Some(
            if n == 0 {
                usize::MAX as nat
            } else {
                n
            },
        ),
        None => None,
    }
}

/// Reads the size of a batch. The size is never 0.
pub fn parse_batch_size(s: &str) -> (res: Result<usize, ParseIntError>)
    ensures
        match res {
            Ok(size) => batch_size_of(s@) == Some(size as nat) && size >= 1,
            Err(_) => batch_size_of(s@) is None,
        },
{
    match parse_usize(s) {
        Ok(raw) => if raw == 0 {
            Ok(usize::MAX)
        } else {
            Ok(raw)
        },
        Err(reason) => Err(reason),
    }
}

} // verus!

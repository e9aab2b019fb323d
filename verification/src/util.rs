//! What becomes of a file's extension, and what the user may answer when an
//! operation on a file has failed.

use crate::cli::ExtensionModeSelection;
use crate::text::{lowercase_of, quote_then, quoted_then, same_text, to_lowercase};
use std::str::FromStr;
use vstd::prelude::*;
use vstd::string::StringExecFns;

verus! {

/// What becomes of a file's extension.
#[derive(Debug, Clone, PartialEq, Eq)]
pub enum ExtensionMode {
    /// Everything after the first dot that does not start the name is kept.
    KeepAll,
    /// What follows the last dot is kept.
    KeepLast,
    /// Every file gets this extension.
    Static(String),
    /// No file keeps an extension.
    Discard,
}

impl ExtensionMode {
    /// The mode for a selection, with the static extension where the
    /// selection asks for one; refused where it asks for one and none is
    /// given.
    pub fn try_from(value: (ExtensionModeSelection, Option<String>)) -> (res: Result<
        ExtensionMode,
        String,
    >)
        ensures
            match value {
                (ExtensionModeSelection::KeepAll, _) => res == Ok::<ExtensionMode, String>(
                    ExtensionMode::KeepAll,
                ),
                (ExtensionModeSelection::KeepLast, _) => res == Ok::<ExtensionMode, String>(
                    ExtensionMode::KeepLast,
                ),
                (ExtensionModeSelection::Static, Some(ext)) => res == Ok::<ExtensionMode, String>(
                    ExtensionMode::Static(ext),
                ),
                (ExtensionModeSelection::Static, None) => res matches Err(message) && message@
                    == "`--static-ext` should be required by clap"@,
                (ExtensionModeSelection::Discard, _) => res == Ok::<ExtensionMode, String>(
                    ExtensionMode::Discard,
                ),
            },
    {
        match value {
            (ExtensionModeSelection::KeepAll, _) => Ok(ExtensionMode::KeepAll),
            (ExtensionModeSelection::KeepLast, _) => Ok(ExtensionMode::KeepLast),
            (ExtensionModeSelection::Static, Some(ext)) => Ok(ExtensionMode::Static(ext)),
            (ExtensionModeSelection::Static, None) => Err(
                "`--static-ext` should be required by clap".to_owned(),
            ),
            (ExtensionModeSelection::Discard, _) => Ok(ExtensionMode::Discard),
        }
    }

    /// The mode as it is shown to the user.
    pub open spec fn text(&self) -> Seq<char> {
        match self {
            ExtensionMode::KeepAll => "KeepAll"@,
            ExtensionMode::KeepLast => "KeepLast"@,
            ExtensionMode::Static(ext) => "Static("@ + quoted_then(ext@, ")"@),
            ExtensionMode::Discard => "Discard"@,
        }
    }

    /// The mode as it is shown to the user.
    pub fn to_string(&self) -> (text: String)
        ensures
            text@ == self.text(),
    {
        match self {
            ExtensionMode::KeepAll => "KeepAll".to_owned(),
            ExtensionMode::KeepLast => "KeepLast".to_owned(),
            ExtensionMode::Static(ext) => {
                let mut text = "Static(".to_owned();
                let quoted = quote_then(ext.as_str(), ")");
                text.append(quoted.as_str());
                text
            },
            ExtensionMode::Discard => "Discard".to_owned(),
        }
    }
}

/// What the user may answer when an operation on one file has failed.
#[derive(Debug, Copy, Clone, PartialEq, Eq, Structural)]
pub enum OnErrorResponse {
    Skip,
    Retry,
    Halt,
}

/// The answer that a text in lower case stands for, if any: each answer by
/// its name or by the first letter of its name.
pub open spec fn on_error_response_named(lower: Seq<char>) -> Option<OnErrorResponse> {
    if lower == "s"@ || lower == "skip"@ {
        Some(OnErrorResponse::Skip)
    } else if lower == "r"@ || lower == "retry"@ {
        Some(OnErrorResponse::Retry)
    } else if lower == "h"@ || lower == "halt"@ {
        Some(OnErrorResponse::Halt)
    } else {
        None
    }
}

/// What is said of a text that stands for no answer.
pub open spec fn invalid_response_message(lower: Seq<char>) -> Seq<char> {
    quoted_then(lower, " is not a valid response"@)
}

impl OnErrorResponse {
    /// Reads an answer that is in lower case already.
    pub fn from_lowercase(lower: &str) -> (res: Result<OnErrorResponse, String>)
        ensures
            match res {
                Ok(response) => on_error_response_named(lower@) == Some(response),
                Err(message) => on_error_response_named(lower@) is None && message@
                    == invalid_response_message(lower@),
            },
    {
        if same_text(lower, "s") || same_text(lower, "skip") {
            Ok(OnErrorResponse::Skip)
        } else if same_text(lower, "r") || same_text(lower, "retry") {
            Ok(OnErrorResponse::Retry)
        } else if same_text(lower, "h") || same_text(lower, "halt") {
            Ok(OnErrorResponse::Halt)
        } else {
            Err(quote_then(lower, " is not a valid response"))
        }
    }

    /// Reads an answer, whatever the case of its letters.
    pub fn parse(s: &str) -> (res: Result<OnErrorResponse, String>)
        ensures
            match res {
                Ok(response) => on_error_response_named(lowercase_of(s@)) == Some(response),
                Err(message) => on_error_response_named(lowercase_of(s@)) is None && message@
                    == invalid_response_message(lowercase_of(s@)),
            },
    {
        let lower = to_lowercase(s);
        OnErrorResponse::from_lowercase(lower.as_str())
    }

    /// The answer as it is shown to the user.
    pub open spec fn text(&self) -> Seq<char> {
        match self {
            OnErrorResponse::Skip => "skip"@,
            OnErrorResponse::Retry => "retry"@,
            OnErrorResponse::Halt => "halt"@,
        }
    }

    /// The answer as it is shown to the user.
    pub fn to_string(&self) -> (text: String)
        ensures
            text@ == self.text(),
    {
        match self {
            OnErrorResponse::Skip => "skip".to_owned(),
            OnErrorResponse::Retry => "retry".to_owned(),
            OnErrorResponse::Halt => "halt".to_owned(),
        }
    }
}

impl FromStr for OnErrorResponse {
    type Err = String;

    /// Reads an answer, whatever the case of its letters, as `parse` does.
    fn from_str(s: &str) -> (res: Result<Self, Self::Err>)
        ensures
            match res {
                Ok(response) => on_error_response_named(lowercase_of(s@)) == Some(response),
                Err(message) => on_error_response_named(lowercase_of(s@)) is None && message@
                    == invalid_response_message(lowercase_of(s@)),
            },
    {
        OnErrorResponse::parse(s)
    }
}

} // verus!

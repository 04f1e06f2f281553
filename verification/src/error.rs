//! The errors of the library.

use vstd::prelude::*;

use crate::text;
use crate::text::decimal_text;

verus! {

/// Why an operation was refused or failed.
#[derive(Debug)]
pub enum Error {
    InvalidArgument(&'static str),
    UnsupportedPlatform(&'static str),
    UnsupportedOsVersion,
    PermissionDenied,
    ProcessNotFound(u32),
    /// No running audio application matches this selector.
    ApplicationNotFound(String),
    /// More than one running audio application matches this selector.
    ApplicationAmbiguous { query: String, matches: String },
    Native(String),
    AudioConversion(String),
    Network(String),
    Protocol(String),
    AudioQueueFull,
    /// An input or output operation failed; holds its message.
    Io(String),
}

/// The value of an [`Error`], with each text as its characters.
#[verifier::ext_equal]
pub enum ErrorView {
    InvalidArgument(Seq<char>),
    UnsupportedPlatform(Seq<char>),
    UnsupportedOsVersion,
    PermissionDenied,
    ProcessNotFound(u32),
    ApplicationNotFound(Seq<char>),
    ApplicationAmbiguous { query: Seq<char>, matches: Seq<char> },
    Native(Seq<char>),
    AudioConversion(Seq<char>),
    Network(Seq<char>),
    Protocol(Seq<char>),
    AudioQueueFull,
    Io(Seq<char>),
}

impl View for Error {
    type V = ErrorView;

    open spec fn view(&self) -> ErrorView {
        match self {
            Error::InvalidArgument(text) => ErrorView::InvalidArgument(text@),
            Error::UnsupportedPlatform(text) => ErrorView::UnsupportedPlatform(text@),
            Error::UnsupportedOsVersion => ErrorView::UnsupportedOsVersion,
            Error::PermissionDenied => ErrorView::PermissionDenied,
            Error::ProcessNotFound(pid) => ErrorView::ProcessNotFound(*pid),
            Error::ApplicationNotFound(query) => ErrorView::ApplicationNotFound(query@),
            Error::ApplicationAmbiguous { query, matches } => ErrorView::ApplicationAmbiguous {
                query: query@,
                matches: matches@,
            },
            Error::Native(text) => ErrorView::Native(text@),
            Error::AudioConversion(text) => ErrorView::AudioConversion(text@),
            Error::Network(text) => ErrorView::Network(text@),
            Error::Protocol(text) => ErrorView::Protocol(text@),
            Error::AudioQueueFull => ErrorView::AudioQueueFull,
            Error::Io(text) => ErrorView::Io(text@),
        }
    }
}

/// A result with its error taken by its view.
pub open spec fn outcome<T>(result: Result<T, Error>) -> Result<T, ErrorView> {
    match result {
        Ok(value) => Ok(value),
        Err(error) => Err(error@),
    }
}

impl ErrorView {
    /// What a user is told about the error.
    pub open spec fn message(self) -> Seq<char> {
        match self {
            ErrorView::InvalidArgument(text) => "invalid argument: "@ + text,
            ErrorView::UnsupportedPlatform(text) => "unsupported operating system: "@ + text,
            ErrorView::UnsupportedOsVersion =>
                "the operating system version does not support the requested audio capture mode"@,
            ErrorView::PermissionDenied => "audio capture permission was denied"@,
            ErrorView::ProcessNotFound(pid) => "target process "@ + text::decimal(pid as nat)
                + " has no active audio object"@,
            ErrorView::ApplicationNotFound(query) => "no running audio application matches: "@
                + query,
            ErrorView::ApplicationAmbiguous { query, matches } =>
                "more than one running audio application matches "@ + query + ": "@ + matches,
            ErrorView::Native(text) => "native audio operation failed: "@ + text,
            ErrorView::AudioConversion(text) => "audio conversion failed: "@ + text,
            ErrorView::Network(text) => "FunASR network operation failed: "@ + text,
            ErrorView::Protocol(text) => "invalid FunASR protocol message: "@ + text,
            ErrorView::AudioQueueFull => "FunASR audio queue is full; audio continuity was lost"@,
            ErrorView::Io(text) => text,
        }
    }
}

impl Error {
    /// Says what went wrong, for a user to read.
    pub fn message(&self) -> (text: String)
        ensures
            text@ == self@.message(),
    {
        match self {
            Error::InvalidArgument(text) => "invalid argument: ".to_owned().concat(text),
            Error::UnsupportedPlatform(text) => "unsupported operating system: ".to_owned().concat(
                text,
            ),
            Error::UnsupportedOsVersion =>
                "the operating system version does not support the requested audio capture mode".to_owned(),
            Error::PermissionDenied => "audio capture permission was denied".to_owned(),
            Error::ProcessNotFound(pid) => "target process ".to_owned().concat(
                decimal_text(*pid).as_str(),
            ).concat(" has no active audio object"),
            Error::ApplicationNotFound(query) =>
                "no running audio application matches: ".to_owned().concat(query.as_str()),
            Error::ApplicationAmbiguous { query, matches } =>
                "more than one running audio application matches ".to_owned().concat(
                query.as_str(),
            ).concat(": ").concat(matches.as_str()),
            Error::Native(text) => "native audio operation failed: ".to_owned().concat(
                text.as_str(),
            ),
            Error::AudioConversion(text) => "audio conversion failed: ".to_owned().concat(
                text.as_str(),
            ),
            Error::Network(text) => "FunASR network operation failed: ".to_owned().concat(
                text.as_str(),
            ),
            Error::Protocol(text) => "invalid FunASR protocol message: ".to_owned().concat(
                text.as_str(),
            ),
            Error::AudioQueueFull =>
                "FunASR audio queue is full; audio continuity was lost".to_owned(),
            Error::Io(text) => text.clone(),
        }
    }
}

/// An error is seen whole, and so is a result that may be one.
pub proof fn law_errors_are_seen_whole<T>(error: Error, value: T)
    ensures
        error@ == match error {
            Error::InvalidArgument(text) => ErrorView::InvalidArgument(text@),
            Error::UnsupportedPlatform(text) => ErrorView::UnsupportedPlatform(text@),
            Error::UnsupportedOsVersion => ErrorView::UnsupportedOsVersion,
            Error::PermissionDenied => ErrorView::PermissionDenied,
            Error::ProcessNotFound(pid) => ErrorView::ProcessNotFound(pid),
            Error::ApplicationNotFound(query) => ErrorView::ApplicationNotFound(query@),
            Error::ApplicationAmbiguous { query, matches } => ErrorView::ApplicationAmbiguous {
                query: query@,
                matches: matches@,
            },
            Error::Native(text) => ErrorView::Native(text@),
            Error::AudioConversion(text) => ErrorView::AudioConversion(text@),
            Error::Network(text) => ErrorView::Network(text@),
            Error::Protocol(text) => ErrorView::Protocol(text@),
            Error::AudioQueueFull => ErrorView::AudioQueueFull,
            Error::Io(text) => ErrorView::Io(text@),
        },
        outcome(Ok::<T, Error>(value)) == Ok::<T, ErrorView>(value),
        outcome(Err::<T, Error>(error)) == Err::<T, ErrorView>(error@),
{
}

/// What a user is told ends with the details of the error, behind words that say
/// what kind of error it is.
pub proof fn law_messages_give_the_details(text: Seq<char>, other: Seq<char>, pid: u32)
    ensures
        ErrorView::InvalidArgument(text).message() == "invalid argument: "@ + text,
        ErrorView::UnsupportedPlatform(text).message() == "unsupported operating system: "@ + text,
        ErrorView::UnsupportedOsVersion.message()
            == "the operating system version does not support the requested audio capture mode"@,
        ErrorView::PermissionDenied.message() == "audio capture permission was denied"@,
        ErrorView::ProcessNotFound(pid).message() == "target process "@ + text::decimal(pid as nat)
            + " has no active audio object"@,
        ErrorView::ApplicationNotFound(text).message() == "no running audio application matches: "@
            + text,
        (ErrorView::ApplicationAmbiguous { query: text, matches: other }).message()
            == "more than one running audio application matches "@ + text + ": "@ + other,
        ErrorView::Native(text).message() == "native audio operation failed: "@ + text,
        ErrorView::AudioConversion(text).message() == "audio conversion failed: "@ + text,
        ErrorView::Network(text).message() == "FunASR network operation failed: "@ + text,
        ErrorView::Protocol(text).message() == "invalid FunASR protocol message: "@ + text,
        ErrorView::AudioQueueFull.message()
            == "FunASR audio queue is full; audio continuity was lost"@,
        ErrorView::Io(text).message() == text,
{
}

} // verus!

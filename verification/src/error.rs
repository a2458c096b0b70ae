//! What can go wrong when a plug is asked something.
use crate::text::{decimal_text, signed_decimal_text};
use std::io::Error as IoError;
use vstd::prelude::*;
use vstd::string::*;

verus! {

/// The error of an input or output operation.
#[verifier::external_type_specification]
#[verifier::external_body]
pub struct ExIoError(IoError);

/// Why a request to a plug failed.
#[derive(Debug)]
pub enum Error {
    /// The connection failed.
    Io(std::io::Error),
    /// A document could not be read or written.
    Json(serde_json::Error),
    /// The plug answered with an error of its own.
    Protocol { module: String, command: String, code: i64, message: Option<String> },
    /// The request makes no sense.
    InvalidInput(String),
    /// The answer lacks something that it should hold.
    InvalidResponse(String),
    /// A message is longer than the protocol allows.
    ResponseTooLarge(usize),
}

/// Whether this is the error of an invalid input with that text.
pub open spec fn invalid_input(error: Error, text: Seq<char>) -> bool {
    error matches Error::InvalidInput(message) && message@ == text
}

/// Whether this is the error of an invalid response with that text.
pub open spec fn invalid_response(error: Error, text: Seq<char>) -> bool {
    error matches Error::InvalidResponse(message) && message@ == text
}

/// What a message adds behind an error's code.
pub open spec fn details(message: Option<String>) -> Seq<char> {
    match message {
        Some(message) => ": "@ + message@,
        None => seq![],
    }
}

/// The wording of an error that is this library's own.
pub open spec fn worded(error: Error) -> Seq<char> {
    match error {
        Error::Protocol { module, command, code, message } => module@ + "."@ + command@
            + " failed with error "@ + crate::text::signed_decimal(code as int) + details(message),
        Error::InvalidInput(message) => "invalid input: "@ + message@,
        Error::InvalidResponse(message) => "invalid response: "@ + message@,
        Error::ResponseTooLarge(length) => "response length "@ + crate::text::decimal(
            length as nat,
        ) + " exceeds protocol limit"@,
        _ => seq![],
    }
}

/// Calls `Display` of `std::io::Error`. What it says is the operating system's affair, so
/// nothing is claimed of it.
#[verifier::external_body]
fn io_error_text(error: &std::io::Error) -> (text: String) {
    error.to_string()
}

/// Calls `Display` of `serde_json::Error`. Nothing is claimed of its wording.
#[verifier::external_body]
fn json_error_text(error: &serde_json::Error) -> (text: String) {
    error.to_string()
}

impl Error {
    /// The error in words. Those of an outside error are its own, and not stated here.
    pub fn message(&self) -> (text: String)
        ensures
            !(self is Io) && !(self is Json) ==> text@ == worded(*self),
    {
        match self {
            Error::Io(error) => io_error_text(error),
            Error::Json(error) => json_error_text(error),
            Error::Protocol { module, command, code, message } => {
                let mut text = module.clone();
                text.append(".");
                text.append(command.as_str());
                text.append(" failed with error ");
                text.append(signed_decimal_text(*code).as_str());
                match message {
                    Some(message) => {
                        let mut details = ": ".to_owned();
                        details.append(message.as_str());
                        text.append(details.as_str());
                    },
                    None => {
                        assert(text@ + seq![] =~= text@);
                    },
                }
                text
            },
            Error::InvalidInput(message) => {
                let mut text = "invalid input: ".to_owned();
                text.append(message.as_str());
                text
            },
            Error::InvalidResponse(message) => {
                let mut text = "invalid response: ".to_owned();
                text.append(message.as_str());
                text
            },
            Error::ResponseTooLarge(length) => {
                let mut text = "response length ".to_owned();
                text.append(decimal_text(*length as u64).as_str());
                text.append(" exceeds protocol limit");
                text
            },
        }
    }
}

impl From<std::io::Error> for Error {
    fn from(error: std::io::Error) -> (result: Error) {
        Error::Io(error)
    }
}

impl vstd::std_specs::convert::FromSpecImpl<std::io::Error> for Error {
    open spec fn obeys_from_spec() -> bool {
        true
    }

    open spec fn from_spec(error: std::io::Error) -> Error {
        Error::Io(error)
    }
}

impl From<serde_json::Error> for Error {
    fn from(error: serde_json::Error) -> (result: Error) {
        Error::Json(error)
    }
}

impl vstd::std_specs::convert::FromSpecImpl<serde_json::Error> for Error {
    open spec fn obeys_from_spec() -> bool {
        true
    }

    open spec fn from_spec(error: serde_json::Error) -> Error {
        Error::Json(error)
    }
}

/// An error of a plug names the module, the command and the code, with the text of the plug behind
/// a colon where there is one. Errors of input and of answers say which they are.
pub proof fn law_errors_are_worded(error: Error, length: usize)
    ensures
        error matches Error::Protocol { module, command, code, message: None } ==> worded(error)
            == module@ + "."@ + command@ + " failed with error "@ + crate::text::signed_decimal(
            code as int,
        ),
        error matches Error::Protocol { module, command, code, message: Some(text) } ==> worded(
            error,
        ) == module@ + "."@ + command@ + " failed with error "@ + crate::text::signed_decimal(
            code as int,
        ) + (": "@ + text@),
        error matches Error::InvalidInput(text) ==> worded(error) == "invalid input: "@ + text@,
        error matches Error::InvalidResponse(text) ==> worded(error) == "invalid response: "@
            + text@,
        worded(Error::ResponseTooLarge(length)) == "response length "@ + crate::text::decimal(
            length as nat,
        ) + " exceeds protocol limit"@,
{
    match error {
        Error::Protocol { module, command, code, message: None } => {
            let said = module@ + "."@ + command@ + " failed with error "@
                + crate::text::signed_decimal(code as int);
            assert(said + seq![] =~= said);
        },
        _ => {},
    }
}

} // verus!

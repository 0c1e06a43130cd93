//! The library's error type.
use vstd::prelude::*;
use vstd::string::*;

use crate::command::ParseError;
use crate::session::parse_error_text;
use crate::text::{decimal_text, push_decimal_text};

verus! {

/// What went wrong, on the server or on the client side.
#[derive(Debug)]
pub enum Error {
    /// A control line that is not a well-formed command.
    Parse(ParseError),
    /// A path that would leave the server root.
    PathViolation,
    /// The data connection could not be opened, or there is none.
    DataChannel,
    /// A transfer broke off in the middle.
    TransferIo,
    /// A reply lacked the status code that the request expects.
    ProtocolExpectation(u16),
    /// An input or output failure.
    Io(std::io::Error),
    /// Any other failure, with its description.
    Msg(String),
    /// The last failure of an operation that used up its attempts.
    ExhaustedRetries(Box<Error>),
}

#[verifier::external_type_specification]
pub struct ExIoErrorKind(std::io::ErrorKind);

/// The kind of `std::io::Error` that an error other than `Io` turns into.
pub open spec fn io_kind_of(e: Error) -> std::io::ErrorKind {
    match e {
        Error::Parse(_) => std::io::ErrorKind::InvalidInput,
        Error::PathViolation => std::io::ErrorKind::PermissionDenied,
        Error::DataChannel => std::io::ErrorKind::NotConnected,
        _ => std::io::ErrorKind::Other,
    }
}

/// Whether an error, or the failure it carries, is no input/output error:
/// the text of those comes from the system and is not stated here.
pub open spec fn described(e: Error) -> bool
    decreases e,
{
    match e {
        Error::Io(_) => false,
        Error::ExhaustedRetries(b) => described(*b),
        _ => true,
    }
}

/// A description of an error, for people (for an error that is
/// `described`).
pub open spec fn error_text(e: Error) -> Seq<char>
    decreases e,
{
    match e {
        Error::Parse(k) => "Invalid command: "@ + parse_error_text(k),
        Error::PathViolation => "Permission denied"@,
        Error::DataChannel => "Can't open data connection"@,
        Error::TransferIo => "Transfer aborted"@,
        Error::ProtocolExpectation(c) => "Expected reply "@ + decimal_text(c as nat),
        Error::Io(_) => Seq::empty(),
        Error::Msg(m) => m@,
        Error::ExhaustedRetries(b) => "Retries exhausted: "@ + error_text(*b),
    }
}

#[verifier::external_type_specification]
#[verifier::external_body]
pub struct ExIoError(std::io::Error);

/// Relies on `std::io::Error::new`: an error of the given kind carrying the
/// given message.
#[verifier::external_body]
fn new_io_error(kind: std::io::ErrorKind, message: String) -> std::io::Error {
    std::io::Error::new(kind, message)
}

/// Relies on `std::io::Error::kind`: the kind of the error.
#[verifier::external_body]
fn kind_of_io_error(e: &std::io::Error) -> std::io::ErrorKind {
    e.kind()
}

/// Relies on `Display` for `std::io::Error`: its description.
#[verifier::external_body]
fn io_error_text(e: &std::io::Error) -> String {
    e.to_string()
}

impl Error {
    /// The kind of input/output error this error corresponds to: for `Io`,
    /// the kind of the error it carries.
    pub fn io_kind(&self) -> (r: std::io::ErrorKind)
        ensures
            !(self is Io) ==> r == io_kind_of(*self),
    {
        match self {
            Error::Io(e) => kind_of_io_error(e),
            Error::Parse(_) => std::io::ErrorKind::InvalidInput,
            Error::PathViolation => std::io::ErrorKind::PermissionDenied,
            Error::DataChannel => std::io::ErrorKind::NotConnected,
            _ => std::io::ErrorKind::Other,
        }
    }

    /// A description of the error, for people.
    pub fn message(&self) -> (r: String)
        ensures
            described(*self) ==> r@ == error_text(*self),
        decreases self,
    {
        match self {
            Error::Parse(k) => {
                let mut m = String::from_str("Invalid command: ");
                m.append(parse_error_message(*k).as_str());
                m
            },
            Error::PathViolation => String::from_str("Permission denied"),
            Error::DataChannel => String::from_str("Can't open data connection"),
            Error::TransferIo => String::from_str("Transfer aborted"),
            Error::ProtocolExpectation(c) => {
                let mut m = String::from_str("Expected reply ");
                push_decimal_text(&mut m, *c as u64);
                m
            },
            Error::Io(e) => io_error_text(e),
            Error::Msg(m) => String::from_str(m.as_str()),
            Error::ExhaustedRetries(b) => {
                let mut m = String::from_str("Retries exhausted: ");
                let inner = b.message();
                m.append(inner.as_str());
                m
            },
        }
    }

    /// The error as a `std::io::Error`: the one it carries, for `Io`;
    /// otherwise a new one of kind `io_kind()` whose message is
    /// `message()`.
    pub fn to_io_error(self) -> (r: std::io::Error)
        ensures
            match self {
                Error::Io(e) => r == e,
                _ => true,
            },
    {
        match self {
            Error::Io(e) => e,
            other => {
                let kind = other.io_kind();
                let message = other.message();
                new_io_error(kind, message)
            },
        }
    }
}

/// The diagnostic of a malformed command.
pub fn parse_error_message(e: ParseError) -> (r: String)
    ensures
        r@ == parse_error_text(e),
{
    String::from_str(
        match e {
            ParseError::MissingArgument => "Missing argument",
            ParseError::InvalidUtf8 => "Argument is not valid UTF-8",
            ParseError::BadAddress => "Invalid address",
            ParseError::ReservedPort => "Port must be above 1024",
            ParseError::UnknownType => "Unknown transfer type",
        },
    )
}

} // verus!

//! Status replies on the control channel.
use vstd::prelude::*;
use vstd::string::*;

use crate::text::{decimal, push_bytes, push_decimal};

verus! {

/// The status codes of the protocol.
#[derive(Clone, Copy, Debug, PartialEq, Eq, Structural)]
pub enum ResultCode {
    RestartMarkerReply,
    ServiceReadyInMinutes,
    DataConnectionAlreadyOpen,
    OpeningDataConnection,
    CommandOkay,
    CommandNotImplementedSuperfluousAtThisSite,
    SystemStatus,
    DirectoryStatus,
    FileStatus,
    HelpMessage,
    SystemType,
    ServiceReadyForNewUser,
    ServiceClosingControlConnection,
    DataConnectionOpen,
    ClosingDataConnection,
    EnteringPassiveMode,
    UserLoggedIn,
    RequestedFileActionOkay,
    PathnameCreated,
    NeedPassword,
    NeedAccountForLogin,
    RequestFurtherInformation,
    ServiceNotAvailable,
    CantOpenDataConnection,
    ConnectionClosed,
    FileActionNotTaken,
    LocalErrorInProcessing,
    InsufficientStorageSpace,
    UnknownCommand,
    InvalidParameterOrArgument,
    CommandNotImplemented,
    BadSequenceOfCommands,
    CommandNotImplementedForThatParameter,
    NotLoggedIn,
    NeedAccountForStoringFiles,
    FileUnavailable,
    PageTypeUnknown,
    FileNameNotAllowed,
}

impl ResultCode {
    /// The three-digit number of the code.
    pub open spec fn number(self) -> u16 {
        match self {
            ResultCode::RestartMarkerReply => 110,
            ResultCode::ServiceReadyInMinutes => 120,
            ResultCode::DataConnectionAlreadyOpen => 125,
            ResultCode::OpeningDataConnection => 150,
            ResultCode::CommandOkay => 200,
            ResultCode::CommandNotImplementedSuperfluousAtThisSite => 202,
            ResultCode::SystemStatus => 211,
            ResultCode::DirectoryStatus => 212,
            ResultCode::FileStatus => 213,
            ResultCode::HelpMessage => 214,
            ResultCode::SystemType => 215,
            ResultCode::ServiceReadyForNewUser => 220,
            ResultCode::ServiceClosingControlConnection => 221,
            ResultCode::DataConnectionOpen => 225,
            ResultCode::ClosingDataConnection => 226,
            ResultCode::EnteringPassiveMode => 227,
            ResultCode::UserLoggedIn => 230,
            ResultCode::RequestedFileActionOkay => 250,
            ResultCode::PathnameCreated => 257,
            ResultCode::NeedPassword => 331,
            ResultCode::NeedAccountForLogin => 332,
            ResultCode::RequestFurtherInformation => 350,
            ResultCode::ServiceNotAvailable => 421,
            ResultCode::CantOpenDataConnection => 425,
            ResultCode::ConnectionClosed => 426,
            ResultCode::FileActionNotTaken => 450,
            ResultCode::LocalErrorInProcessing => 451,
            ResultCode::InsufficientStorageSpace => 452,
            ResultCode::UnknownCommand => 500,
            ResultCode::InvalidParameterOrArgument => 501,
            ResultCode::CommandNotImplemented => 502,
            ResultCode::BadSequenceOfCommands => 503,
            ResultCode::CommandNotImplementedForThatParameter => 504,
            ResultCode::NotLoggedIn => 530,
            ResultCode::NeedAccountForStoringFiles => 532,
            ResultCode::FileUnavailable => 550,
            ResultCode::PageTypeUnknown => 551,
            ResultCode::FileNameNotAllowed => 553,
        }
    }

    /// The three-digit number of the code.
    pub fn code(&self) -> (r: u16)
        ensures
            r == self.number(),
    {
        match self {
            ResultCode::RestartMarkerReply => 110,
            ResultCode::ServiceReadyInMinutes => 120,
            ResultCode::DataConnectionAlreadyOpen => 125,
            ResultCode::OpeningDataConnection => 150,
            ResultCode::CommandOkay => 200,
            ResultCode::CommandNotImplementedSuperfluousAtThisSite => 202,
            ResultCode::SystemStatus => 211,
            ResultCode::DirectoryStatus => 212,
            ResultCode::FileStatus => 213,
            ResultCode::HelpMessage => 214,
            ResultCode::SystemType => 215,
            ResultCode::ServiceReadyForNewUser => 220,
            ResultCode::ServiceClosingControlConnection => 221,
            ResultCode::DataConnectionOpen => 225,
            ResultCode::ClosingDataConnection => 226,
            ResultCode::EnteringPassiveMode => 227,
            ResultCode::UserLoggedIn => 230,
            ResultCode::RequestedFileActionOkay => 250,
            ResultCode::PathnameCreated => 257,
            ResultCode::NeedPassword => 331,
            ResultCode::NeedAccountForLogin => 332,
            ResultCode::RequestFurtherInformation => 350,
            ResultCode::ServiceNotAvailable => 421,
            ResultCode::CantOpenDataConnection => 425,
            ResultCode::ConnectionClosed => 426,
            ResultCode::FileActionNotTaken => 450,
            ResultCode::LocalErrorInProcessing => 451,
            ResultCode::InsufficientStorageSpace => 452,
            ResultCode::UnknownCommand => 500,
            ResultCode::InvalidParameterOrArgument => 501,
            ResultCode::CommandNotImplemented => 502,
            ResultCode::BadSequenceOfCommands => 503,
            ResultCode::CommandNotImplementedForThatParameter => 504,
            ResultCode::NotLoggedIn => 530,
            ResultCode::NeedAccountForStoringFiles => 532,
            ResultCode::FileUnavailable => 550,
            ResultCode::PageTypeUnknown => 551,
            ResultCode::FileNameNotAllowed => 553,
        }
    }
}

/// A reply: a status code and a human-readable message.
#[derive(Clone, Debug)]
pub struct Response {
    pub code: ResultCode,
    pub message: String,
}

/// The wire line of a reply: the code, a space, the message (which may be
/// empty), and CRLF.
pub open spec fn reply_line(code: u16, message: Seq<char>) -> Seq<u8> {
    decimal(code as nat) + seq![32u8] + vstd::utf8::encode_utf8(message) + seq![13u8, 10]
}

impl Response {
    pub fn new(code: ResultCode, message: String) -> (r: Response)
        ensures
            r.code == code,
            r.message@ == message@,
    {
        Response { code, message }
    }

    /// The reply as one CRLF-terminated wire line.
    pub fn encode(&self) -> (r: Vec<u8>)
        ensures
            r@ == reply_line(self.code.number(), self.message@),
    {
        let mut out: Vec<u8> = Vec::new();
        push_decimal(&mut out, self.code.code() as u64);
        out.push(32);
        push_bytes(&mut out, self.message.as_str().as_bytes());
        out.push(13);
        out.push(10);
        assert(out@ =~= reply_line(self.code.number(), self.message@));
        out
    }
}

} // verus!

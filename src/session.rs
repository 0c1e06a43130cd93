//! The per-connection session: it maps each command to one reply and, for
//! commands that touch the filesystem or the data channel, to one action
//! that the caller performs and then reports back through `complete`.
use vstd::prelude::*;
use vstd::string::*;

use crate::channel::{ChannelState, DataChannel};
use crate::command::{Command, CommandSpec, ParseError, TransferType};
use crate::error::parse_error_message;
use crate::path::{
    all_names, copy_names, lemma_resolve_names, logical_path, logical_text, render_under, resolve,
    resolve_path, texts, under,
};
use crate::reply::{Response, ResultCode};
use crate::text::{decimal_text, push_decimal_text};

verus! {

/// How the caller's part of an action ended.
#[derive(Clone, Copy, Debug, PartialEq, Eq, Structural)]
pub enum Outcome {
    /// It was carried out.
    Done,
    /// The target, once its links were followed, lies outside the root.
    Escaped,
    /// The target could not be created, opened, read or removed.
    Unavailable,
    /// A transfer broke off in the middle.
    Interrupted,
}

/// What the caller has to do after a command, besides sending the reply.
#[derive(Debug)]
pub enum Action {
    /// Nothing more.
    Respond,
    /// Close the control connection.
    Close,
    /// Bind a passive listener, then report through `passive_ready` or
    /// `passive_failed`, and `data_connected` once its connection arrives.
    Bind,
    /// Connect out to this port of the client (active mode), then report
    /// through `data_connected` or `passive_failed`.
    Connect(u16),
    /// Check that this physical directory exists.
    ChangeDir(String),
    /// Create this physical directory.
    MakeDir(String),
    /// Remove this physical directory.
    RemoveDir(String),
    /// Store the data connection's bytes into this physical file.
    Store(String),
    /// Send this physical file over the data connection.
    Retrieve(String),
    /// Send the listing of this physical directory over the data connection.
    List(String),
}

/// The answer to one command. For a transfer the reply is the preliminary
/// one, to be sent once the target is open.
#[derive(Debug)]
pub struct Step {
    pub reply: Option<Response>,
    pub action: Action,
}

/// The action a session waits to hear the outcome of.
#[derive(Debug)]
pub enum Pending {
    Nothing,
    ChangeDir(Vec<String>),
    MakeDir,
    RemoveDir,
    Store,
    Retrieve,
    List,
}

/// State of one control connection.
#[derive(Debug)]
pub struct Session {
    root: String,
    cwd: Vec<String>,
    transfer_type: TransferType,
    user_name: Option<String>,
    data_port: Option<u16>,
    channel: DataChannel,
    pending: Pending,
}

pub enum PendingSpec {
    Nothing,
    ChangeDir(Seq<Seq<char>>),
    MakeDir,
    RemoveDir,
    Store,
    Retrieve,
    List,
}

pub struct SessionView {
    pub root: Seq<char>,
    pub cwd: Seq<Seq<char>>,
    pub transfer_type: TransferType,
    pub user_name: Option<Seq<char>>,
    pub data_port: Option<u16>,
    pub channel: ChannelState,
    pub pending: PendingSpec,
}

pub enum ActionSpec {
    Respond,
    Close,
    Bind,
    Connect(u16),
    ChangeDir(Seq<char>),
    MakeDir(Seq<char>),
    RemoveDir(Seq<char>),
    Store(Seq<char>),
    Retrieve(Seq<char>),
    List(Seq<char>),
}

pub struct StepSpec {
    pub reply: Option<(u16, Seq<char>)>,
    pub action: ActionSpec,
}

pub open spec fn reply_of(r: Response) -> (u16, Seq<char>) {
    (r.code.number(), r.message@)
}

pub open spec fn action_of(a: Action) -> ActionSpec {
    match a {
        Action::Respond => ActionSpec::Respond,
        Action::Close => ActionSpec::Close,
        Action::Bind => ActionSpec::Bind,
        Action::Connect(p) => ActionSpec::Connect(p),
        Action::ChangeDir(p) => ActionSpec::ChangeDir(p@),
        Action::MakeDir(p) => ActionSpec::MakeDir(p@),
        Action::RemoveDir(p) => ActionSpec::RemoveDir(p@),
        Action::Store(p) => ActionSpec::Store(p@),
        Action::Retrieve(p) => ActionSpec::Retrieve(p@),
        Action::List(p) => ActionSpec::List(p@),
    }
}

pub open spec fn step_of(s: Step) -> StepSpec {
    StepSpec {
        reply: match s.reply {
            Some(r) => Some(reply_of(r)),
            None => None,
        },
        action: action_of(s.action),
    }
}

pub open spec fn pending_of(p: Pending) -> PendingSpec {
    match p {
        Pending::Nothing => PendingSpec::Nothing,
        Pending::ChangeDir(v) => PendingSpec::ChangeDir(texts(v@)),
        Pending::MakeDir => PendingSpec::MakeDir,
        Pending::RemoveDir => PendingSpec::RemoveDir,
        Pending::Store => PendingSpec::Store,
        Pending::Retrieve => PendingSpec::Retrieve,
        Pending::List => PendingSpec::List,
    }
}

impl View for Session {
    type V = SessionView;

    closed spec fn view(&self) -> SessionView {
        SessionView {
            root: self.root@,
            cwd: texts(self.cwd@),
            transfer_type: self.transfer_type,
            user_name: match self.user_name {
                Some(n) => Some(n@),
                None => None,
            },
            data_port: self.data_port,
            channel: self.channel.state,
            pending: pending_of(self.pending),
        }
    }
}

/// A step that only answers.
pub open spec fn answer(code: ResultCode, message: Seq<char>) -> StepSpec {
    StepSpec { reply: Some((code.number(), message)), action: ActionSpec::Respond }
}

/// A step that leaves the answer to `complete`.
pub open spec fn act(action: ActionSpec) -> StepSpec {
    StepSpec { reply: None, action }
}

/// A step that starts a transfer.
pub open spec fn transfer(action: ActionSpec) -> StepSpec {
    StepSpec {
        reply: Some((ResultCode::OpeningDataConnection.number(), "Opening data connection"@)),
        action,
    }
}

/// The session after its data channel went back to idle.
pub open spec fn released(s: SessionView) -> SessionView {
    SessionView { channel: ChannelState::Idle, ..s }
}

/// The session after its passive connection arrived.
pub open spec fn with_connection(s: SessionView) -> SessionView {
    SessionView { channel: ChannelState::Connected, ..s }
}

/// A pending change of directory names a directory of names only.
pub open spec fn pending_wf(p: PendingSpec) -> bool {
    match p {
        PendingSpec::ChangeDir(v) => all_names(v),
        _ => true,
    }
}

/// What a session does with a command: its next state and its step.
pub open spec fn step_spec(s: SessionView, c: CommandSpec) -> (SessionView, StepSpec) {
    match c {
        CommandSpec::Auth => (s, answer(ResultCode::CommandNotImplemented, "Not implemented"@)),
        CommandSpec::Syst => (s, answer(ResultCode::SystemType, "UNIX Type: L8"@)),
        CommandSpec::NoOp => (s, answer(ResultCode::CommandOkay, "Doing nothing"@)),
        CommandSpec::Pwd => (
            s,
            answer(ResultCode::PathnameCreated, "\""@ + logical_text(s.cwd) + "\""@),
        ),
        CommandSpec::Type(t) => (
            SessionView { transfer_type: t, ..s },
            answer(ResultCode::CommandOkay, "Transfer type changed successfully"@),
        ),
        CommandSpec::User(n) => if n.len() == 0 {
            (s, answer(ResultCode::InvalidParameterOrArgument, "Invalid username"@))
        } else {
            (
                SessionView { user_name: Some(n), ..s },
                answer(ResultCode::UserLoggedIn, "Welcome "@ + n + "!"@),
            )
        },
        CommandSpec::Port(p) => if s.channel == ChannelState::Idle {
            (
                SessionView { data_port: Some(p), channel: ChannelState::Listening, ..s },
                StepSpec {
                    reply: Some(
                        (
                            ResultCode::CommandOkay.number(),
                            "Data port is now "@ + decimal_text(p as nat),
                        ),
                    ),
                    action: ActionSpec::Connect(p),
                },
            )
        } else {
            (
                SessionView { data_port: Some(p), ..s },
                answer(ResultCode::CommandOkay, "Data port is now "@ + decimal_text(p as nat)),
            )
        },
        CommandSpec::Quit => (
            released(s),
            StepSpec {
                reply: Some(
                    (ResultCode::ServiceClosingControlConnection.number(), "Closing connection"@),
                ),
                action: ActionSpec::Close,
            },
        ),
        CommandSpec::Unknown(v) => (
            s,
            answer(ResultCode::UnknownCommand, "\""@ + v + "\": Not implemented"@),
        ),
        CommandSpec::CdUp => (
            SessionView {
                cwd: if s.cwd.len() == 0 {
                    s.cwd
                } else {
                    s.cwd.drop_last()
                },
                ..s
            },
            answer(ResultCode::CommandOkay, "Done"@),
        ),
        CommandSpec::Pasv => if s.channel != ChannelState::Idle {
            (s, answer(ResultCode::DataConnectionAlreadyOpen, "Already listening"@))
        } else {
            (SessionView { channel: ChannelState::Listening, ..s }, act(ActionSpec::Bind))
        },
        CommandSpec::Cwd(p) => match resolve_path(s.cwd, p) {
            None => (s, answer(ResultCode::FileUnavailable, "No such file or directory"@)),
            Some(v) => (
                SessionView { pending: PendingSpec::ChangeDir(v), ..s },
                act(ActionSpec::ChangeDir(under(s.root, v))),
            ),
        },
        CommandSpec::Mkd(p) => match resolve_path(s.cwd, p) {
            None => (s, answer(ResultCode::FileNameNotAllowed, "Permission denied"@)),
            Some(v) => (
                SessionView { pending: PendingSpec::MakeDir, ..s },
                act(ActionSpec::MakeDir(under(s.root, v))),
            ),
        },
        CommandSpec::Rmd(p) => match resolve_path(s.cwd, p) {
            None => (s, answer(ResultCode::FileNameNotAllowed, "Permission denied"@)),
            Some(v) => (
                SessionView { pending: PendingSpec::RemoveDir, ..s },
                act(ActionSpec::RemoveDir(under(s.root, v))),
            ),
        },
        CommandSpec::Stor(p) => match resolve_path(s.cwd, p) {
            None => (released(s), answer(ResultCode::FileUnavailable, "Invalid path"@)),
            Some(v) => if s.channel != ChannelState::Connected {
                (released(s), answer(ResultCode::CantOpenDataConnection, "No data connection"@))
            } else {
                (
                    SessionView { pending: PendingSpec::Store, ..released(s) },
                    transfer(ActionSpec::Store(under(s.root, v))),
                )
            },
        },
        CommandSpec::Retr(p) => match resolve_path(s.cwd, p) {
            None => (released(s), answer(ResultCode::FileUnavailable, "Invalid path"@)),
            Some(v) => if s.channel != ChannelState::Connected {
                (released(s), answer(ResultCode::CantOpenDataConnection, "No data connection"@))
            } else {
                (
                    SessionView { pending: PendingSpec::Retrieve, ..released(s) },
                    transfer(ActionSpec::Retrieve(under(s.root, v))),
                )
            },
        },
        CommandSpec::List(arg) => match (match arg {
            Some(p) => resolve_path(s.cwd, p),
            None => Some(s.cwd),
        }) {
            None => (
                released(s),
                answer(ResultCode::InvalidParameterOrArgument, "Permission denied"@),
            ),
            Some(v) => if s.channel != ChannelState::Connected {
                (released(s), answer(ResultCode::CantOpenDataConnection, "No data connection"@))
            } else {
                (
                    SessionView { pending: PendingSpec::List, ..released(s) },
                    transfer(ActionSpec::List(under(s.root, v))),
                )
            },
        },
    }
}

/// What a session answers when told how its pending action ended.
pub open spec fn complete_spec(s: SessionView, o: Outcome) -> (SessionView, (u16, Seq<char>)) {
    let done = SessionView { pending: PendingSpec::Nothing, ..s };
    match s.pending {
        PendingSpec::Nothing => (
            s,
            (ResultCode::BadSequenceOfCommands.number(), "Bad sequence of commands"@),
        ),
        PendingSpec::ChangeDir(v) => if o == Outcome::Done {
            (
                SessionView { cwd: v, ..done },
                (
                    ResultCode::RequestedFileActionOkay.number(),
                    "Directory changed to \""@ + logical_text(v) + "\""@,
                ),
            )
        } else {
            (done, (ResultCode::FileUnavailable.number(), "No such file or directory"@))
        },
        PendingSpec::MakeDir => (
            done,
            match o {
                Outcome::Done => (ResultCode::PathnameCreated.number(), "Folder created"@),
                Outcome::Escaped => (ResultCode::FileNameNotAllowed.number(), "Permission denied"@),
                _ => (ResultCode::FileUnavailable.number(), "Couldn't create folder"@),
            },
        ),
        PendingSpec::RemoveDir => (
            done,
            match o {
                Outcome::Done => (
                    ResultCode::RequestedFileActionOkay.number(),
                    "Folder removed"@,
                ),
                Outcome::Escaped => (ResultCode::FileNameNotAllowed.number(), "Permission denied"@),
                _ => (ResultCode::FileUnavailable.number(), "Couldn't remove folder"@),
            },
        ),
        PendingSpec::Store | PendingSpec::Retrieve => (
            done,
            match o {
                Outcome::Done => (ResultCode::ClosingDataConnection.number(), "Transfer complete"@),
                Outcome::Interrupted => (
                    ResultCode::FileActionNotTaken.number(),
                    "Transfer aborted"@,
                ),
                _ => (ResultCode::FileUnavailable.number(), "File unavailable"@),
            },
        ),
        PendingSpec::List => (
            done,
            match o {
                Outcome::Done => (ResultCode::ClosingDataConnection.number(), "Directory send OK"@),
                Outcome::Interrupted => (
                    ResultCode::FileActionNotTaken.number(),
                    "Transfer aborted"@,
                ),
                _ => (
                    ResultCode::InvalidParameterOrArgument.number(),
                    "Failed to list directory"@,
                ),
            },
        ),
    }
}

/// The `h1,h2,h3,h4,hi,lo` text of a passive address.
pub open spec fn address_text(ip: Seq<u8>, port: u16) -> Seq<char> {
    decimal_text(ip[0] as nat) + ","@ + decimal_text(ip[1] as nat) + ","@ + decimal_text(
        ip[2] as nat,
    ) + ","@ + decimal_text(ip[3] as nat) + ","@ + decimal_text(port as nat / 256) + ","@
        + decimal_text(port as nat % 256)
}

/// The diagnostic of a malformed command.
pub open spec fn parse_error_text(e: ParseError) -> Seq<char> {
    match e {
        ParseError::MissingArgument => "Missing argument"@,
        ParseError::InvalidUtf8 => "Argument is not valid UTF-8"@,
        ParseError::BadAddress => "Invalid address"@,
        ParseError::ReservedPort => "Port must be above 1024"@,
        ParseError::UnknownType => "Unknown transfer type"@,
    }
}

/// The path that a command names, for the commands that name one.
pub open spec fn command_path(c: CommandSpec) -> Option<Seq<char>> {
    match c {
        CommandSpec::Cwd(p) => Some(p),
        CommandSpec::Mkd(p) => Some(p),
        CommandSpec::Rmd(p) => Some(p),
        CommandSpec::Stor(p) => Some(p),
        CommandSpec::Retr(p) => Some(p),
        CommandSpec::List(Some(p)) => Some(p),
        _ => None,
    }
}

/// A command whose path would leave the root is refused with a failure
/// code and no filesystem action at all; the current directory and the
/// pending action stay as they were.
pub proof fn lemma_escape_refused(s: SessionView, c: CommandSpec, p: Seq<char>)
    requires
        command_path(c) == Some(p),
        resolve_path(s.cwd, p).is_none(),
    ensures
        step_spec(s, c).1.action == ActionSpec::Respond,
        step_spec(s, c).0.cwd == s.cwd,
        step_spec(s, c).0.pending == s.pending,
        step_spec(s, c).1.reply matches Some(r) && (r.0 == 550 || r.0 == 553 || r.0 == 501),
{
}

/// A second `PASV` while the first channel is open answers "already
/// listening" and changes nothing; the channel then serves exactly one
/// transfer, after which a further transfer finds no connection.
pub proof fn lemma_pasv_twice(s: SessionView, p: Seq<char>)
    requires
        s.channel == ChannelState::Idle,
        resolve_path(s.cwd, p).is_some(),
    ensures
        ({
            let (listening, first) = step_spec(s, CommandSpec::Pasv);
            let connected = with_connection(listening);
            let (again, second) = step_spec(connected, CommandSpec::Pasv);
            let (used, stored) = step_spec(again, CommandSpec::Stor(p));
            let (_, next) = step_spec(used, CommandSpec::Stor(p));
            &&& first.action == ActionSpec::Bind
            &&& listening.channel == ChannelState::Listening
            &&& again == connected
            &&& second == answer(ResultCode::DataConnectionAlreadyOpen, "Already listening"@)
            &&& stored.action == ActionSpec::Store(under(s.root, resolve_path(s.cwd, p).unwrap()))
            &&& used.channel == ChannelState::Idle
            &&& next == answer(ResultCode::CantOpenDataConnection, "No data connection"@)
        }),
{
}

/// `MKD` answers success exactly when the caller created the directory; a
/// directory that exists already, or cannot be made, gets a failure code.
pub proof fn lemma_mkd_reply(s: SessionView, o: Outcome)
    requires
        s.pending == PendingSpec::MakeDir,
    ensures
        (complete_spec(s, o).1.0 == 257) == (o == Outcome::Done),
        o != Outcome::Done ==> complete_spec(s, o).1.0 == 550 || complete_spec(s, o).1.0 == 553,
{
}

fn reply(code: ResultCode, message: &str) -> (r: Response)
    ensures
        reply_of(r) == (code.number(), message@),
{
    Response::new(code, String::from_str(message))
}

fn answer_step(code: ResultCode, message: &str) -> (r: Step)
    ensures
        step_of(r) == answer(code, message@),
{
    Step { reply: Some(reply(code, message)), action: Action::Respond }
}

impl Session {
    /// The current directory, and the one a pending `CWD` would enter, hold
    /// names only: never `.`, `..` or an empty name.
    pub open spec fn wf(&self) -> bool {
        &&& all_names(self@.cwd)
        &&& pending_wf(self@.pending)
    }

    /// A fresh session at the root directory `root`, a canonical physical
    /// path.
    pub fn new(root: String) -> (r: Session)
        ensures
            r.wf(),
            r@.root == root@,
            r@.cwd.len() == 0,
            r@.transfer_type == TransferType::Ascii,
            r@.user_name.is_none(),
            r@.data_port.is_none(),
            r@.channel == ChannelState::Idle,
            r@.pending == PendingSpec::Nothing,
    {
        let r = Session {
            root,
            cwd: Vec::new(),
            transfer_type: TransferType::Ascii,
            user_name: None,
            data_port: None,
            channel: DataChannel::new(),
            pending: Pending::Nothing,
        };
        assert(r@.cwd =~= Seq::<Seq<char>>::empty());
        r
    }

    /// The greeting sent when a connection is accepted.
    pub fn greeting() -> (r: Response)
        ensures
            reply_of(r) == (
                ResultCode::ServiceReadyForNewUser.number(),
                "Welcome to this FTP server!"@,
            ),
    {
        reply(ResultCode::ServiceReadyForNewUser, "Welcome to this FTP server!")
    }

    /// The reply to a line that did not parse; the session is unchanged.
    pub fn reject(&self, e: ParseError) -> (r: Response)
        ensures
            reply_of(r) == (ResultCode::InvalidParameterOrArgument.number(), parse_error_text(e)),
    {
        Response::new(ResultCode::InvalidParameterOrArgument, parse_error_message(e))
    }

    /// The logical current directory, as `PWD` shows it.
    pub fn current_dir(&self) -> (r: String)
        ensures
            r@ == logical_text(self@.cwd),
    {
        logical_path(&self.cwd)
    }

    pub fn channel_state(&self) -> (r: ChannelState)
        ensures
            r == self@.channel,
    {
        self.channel.state
    }

    fn physical(&self, v: &Vec<String>) -> (r: String)
        ensures
            r@ == under(self@.root, texts(v@)),
    {
        render_under(self.root.as_str(), v)
    }

    /// Answers one command.
    pub fn handle(&mut self, cmd: Command) -> (r: Step)
        requires
            old(self).wf(),
        ensures
            final(self).wf(),
            (final(self)@, step_of(r)) == step_spec(old(self)@, cmd@),
    {
        proof {
            reveal_strlit("\"");
        }
        match cmd {
            Command::Auth => answer_step(ResultCode::CommandNotImplemented, "Not implemented"),
            Command::Syst => answer_step(ResultCode::SystemType, "UNIX Type: L8"),
            Command::NoOp => answer_step(ResultCode::CommandOkay, "Doing nothing"),
            Command::Pwd => {
                let mut m = String::from_str("\"");
                let dir = logical_path(&self.cwd);
                m.append(dir.as_str());
                m.append("\"");
                Step { reply: Some(Response::new(ResultCode::PathnameCreated, m)), action: Action::Respond }
            },
            Command::Type(t) => {
                self.transfer_type = t;
                answer_step(ResultCode::CommandOkay, "Transfer type changed successfully")
            },
            Command::User(n) => {
                if n.as_str().is_empty() {
                    answer_step(ResultCode::InvalidParameterOrArgument, "Invalid username")
                } else {
                    let mut m = String::from_str("Welcome ");
                    m.append(n.as_str());
                    m.append("!");
                    self.user_name = Some(n);
                    Step { reply: Some(Response::new(ResultCode::UserLoggedIn, m)), action: Action::Respond }
                }
            },
            Command::Port(p) => {
                self.data_port = Some(p);
                let mut m = String::from_str("Data port is now ");
                push_decimal_text(&mut m, p as u64);
                let action = if self.channel.request_passive() {
                    Action::Connect(p)
                } else {
                    Action::Respond
                };
                Step { reply: Some(Response::new(ResultCode::CommandOkay, m)), action }
            },
            Command::Quit => {
                self.channel.reset();
                Step {
                    reply: Some(reply(ResultCode::ServiceClosingControlConnection, "Closing connection")),
                    action: Action::Close,
                }
            },
            Command::Unknown(v) => {
                let mut m = String::from_str("\"");
                m.append(v.as_str());
                m.append("\": Not implemented");
                Step { reply: Some(Response::new(ResultCode::UnknownCommand, m)), action: Action::Respond }
            },
            Command::CdUp => {
                if self.cwd.len() > 0 {
                    let ghost before = texts(self.cwd@);
                    self.cwd.pop();
                    assert(texts(self.cwd@) =~= before.drop_last());
                }
                answer_step(ResultCode::CommandOkay, "Done")
            },
            Command::Pasv => {
                if self.channel.request_passive() {
                    Step { reply: None, action: Action::Bind }
                } else {
                    answer_step(ResultCode::DataConnectionAlreadyOpen, "Already listening")
                }
            },
            Command::Cwd(p) => {
                proof {
                    lemma_resolve_names(texts(self.cwd@), p@);
                }
                match resolve(&self.cwd, p.as_str()) {
                    Err(_) => answer_step(ResultCode::FileUnavailable, "No such file or directory"),
                    Ok(v) => {
                        let target = self.physical(&v);
                        self.pending = Pending::ChangeDir(v);
                        Step { reply: None, action: Action::ChangeDir(target) }
                    },
                }
            },
            Command::Mkd(p) => {
                match resolve(&self.cwd, p.as_str()) {
                    Err(_) => answer_step(ResultCode::FileNameNotAllowed, "Permission denied"),
                    Ok(v) => {
                        let target = self.physical(&v);
                        self.pending = Pending::MakeDir;
                        Step { reply: None, action: Action::MakeDir(target) }
                    },
                }
            },
            Command::Rmd(p) => {
                match resolve(&self.cwd, p.as_str()) {
                    Err(_) => answer_step(ResultCode::FileNameNotAllowed, "Permission denied"),
                    Ok(v) => {
                        let target = self.physical(&v);
                        self.pending = Pending::RemoveDir;
                        Step { reply: None, action: Action::RemoveDir(target) }
                    },
                }
            },
            Command::Stor(p) => {
                let resolved = resolve(&self.cwd, p.as_str());
                let connected = self.channel.take();
                match resolved {
                    Err(_) => answer_step(ResultCode::FileUnavailable, "Invalid path"),
                    Ok(v) => {
                        if !connected {
                            answer_step(ResultCode::CantOpenDataConnection, "No data connection")
                        } else {
                            let target = self.physical(&v);
                            self.pending = Pending::Store;
                            Step {
                                reply: Some(reply(ResultCode::OpeningDataConnection, "Opening data connection")),
                                action: Action::Store(target),
                            }
                        }
                    },
                }
            },
            Command::Retr(p) => {
                let resolved = resolve(&self.cwd, p.as_str());
                let connected = self.channel.take();
                match resolved {
                    Err(_) => answer_step(ResultCode::FileUnavailable, "Invalid path"),
                    Ok(v) => {
                        if !connected {
                            answer_step(ResultCode::CantOpenDataConnection, "No data connection")
                        } else {
                            let target = self.physical(&v);
                            self.pending = Pending::Retrieve;
                            Step {
                                reply: Some(reply(ResultCode::OpeningDataConnection, "Opening data connection")),
                                action: Action::Retrieve(target),
                            }
                        }
                    },
                }
            },
            Command::List(arg) => {
                let resolved = match arg {
                    Some(p) => resolve(&self.cwd, p.as_str()),
                    None => Ok(copy_names(&self.cwd)),
                };
                let connected = self.channel.take();
                match resolved {
                    Err(_) => answer_step(ResultCode::InvalidParameterOrArgument, "Permission denied"),
                    Ok(v) => {
                        if !connected {
                            answer_step(ResultCode::CantOpenDataConnection, "No data connection")
                        } else {
                            let target = self.physical(&v);
                            self.pending = Pending::List;
                            Step {
                                reply: Some(reply(ResultCode::OpeningDataConnection, "Opening data connection")),
                                action: Action::List(target),
                            }
                        }
                    },
                }
            },
        }
    }

    /// Reports how the pending action ended and gives the final reply.
    pub fn complete(&mut self, outcome: Outcome) -> (r: Response)
        requires
            old(self).wf(),
        ensures
            final(self).wf(),
            (final(self)@, reply_of(r)) == complete_spec(old(self)@, outcome),
    {
        proof {
            reveal_strlit("\"");
        }
        let r = match &self.pending {
            Pending::Nothing => {
                return reply(ResultCode::BadSequenceOfCommands, "Bad sequence of commands");
            },
            Pending::ChangeDir(names) => {
                let v = copy_names(names);
                if outcome == Outcome::Done {
                    let mut m = String::from_str("Directory changed to \"");
                    let dir = logical_path(&v);
                    m.append(dir.as_str());
                    m.append("\"");
                    self.cwd = v;
                    Response::new(ResultCode::RequestedFileActionOkay, m)
                } else {
                    reply(ResultCode::FileUnavailable, "No such file or directory")
                }
            },
            Pending::MakeDir => match outcome {
                Outcome::Done => reply(ResultCode::PathnameCreated, "Folder created"),
                Outcome::Escaped => reply(ResultCode::FileNameNotAllowed, "Permission denied"),
                _ => reply(ResultCode::FileUnavailable, "Couldn't create folder"),
            },
            Pending::RemoveDir => match outcome {
                Outcome::Done => reply(ResultCode::RequestedFileActionOkay, "Folder removed"),
                Outcome::Escaped => reply(ResultCode::FileNameNotAllowed, "Permission denied"),
                _ => reply(ResultCode::FileUnavailable, "Couldn't remove folder"),
            },
            Pending::Store | Pending::Retrieve => match outcome {
                Outcome::Done => reply(ResultCode::ClosingDataConnection, "Transfer complete"),
                Outcome::Interrupted => reply(ResultCode::FileActionNotTaken, "Transfer aborted"),
                _ => reply(ResultCode::FileUnavailable, "File unavailable"),
            },
            Pending::List => match outcome {
                Outcome::Done => reply(ResultCode::ClosingDataConnection, "Directory send OK"),
                Outcome::Interrupted => reply(ResultCode::FileActionNotTaken, "Transfer aborted"),
                _ => reply(ResultCode::InvalidParameterOrArgument, "Failed to list directory"),
            },
        };
        self.pending = Pending::Nothing;
        r
    }

    /// The passive listener is bound at `ip`:`port`: the `227` reply that
    /// announces it. Out of turn (no listener was asked for) the reply is
    /// `503` and nothing changes.
    pub fn passive_ready(&self, ip: [u8; 4], port: u16) -> (r: Response)
        ensures
            self@.channel == ChannelState::Listening ==> reply_of(r) == (
                ResultCode::EnteringPassiveMode.number(),
                "Entering Passive Mode ("@ + address_text(ip@, port) + ")"@,
            ),
            self@.channel != ChannelState::Listening ==> reply_of(r) == (
                ResultCode::BadSequenceOfCommands.number(),
                "Bad sequence of commands"@,
            ),
    {
        if self.channel.state != ChannelState::Listening {
            return reply(ResultCode::BadSequenceOfCommands, "Bad sequence of commands");
        }
        let mut m = String::from_str("Entering Passive Mode (");
        push_decimal_text(&mut m, ip[0] as u64);
        m.append(",");
        push_decimal_text(&mut m, ip[1] as u64);
        m.append(",");
        push_decimal_text(&mut m, ip[2] as u64);
        m.append(",");
        push_decimal_text(&mut m, ip[3] as u64);
        m.append(",");
        push_decimal_text(&mut m, (port / 256) as u64);
        m.append(",");
        push_decimal_text(&mut m, (port % 256) as u64);
        m.append(")");
        Response::new(ResultCode::EnteringPassiveMode, m)
    }

    /// Binding, accepting or connecting the data connection failed: the
    /// channel is idle again and the reply is `425`.
    pub fn passive_failed(&mut self) -> (r: Response)
        requires
            old(self).wf(),
        ensures
            final(self).wf(),
            final(self)@ == released(old(self)@),
            reply_of(r) == (
                ResultCode::CantOpenDataConnection.number(),
                "Can't open data connection"@,
            ),
    {
        self.channel.reset();
        reply(ResultCode::CantOpenDataConnection, "Can't open data connection")
    }

    /// The data connection is there (accepted, or connected out). Returns
    /// whether one was awaited; if not, nothing changes.
    pub fn data_connected(&mut self) -> (r: bool)
        requires
            old(self).wf(),
        ensures
            final(self).wf(),
            r == (old(self)@.channel == ChannelState::Listening),
            r ==> final(self)@ == with_connection(old(self)@),
            !r ==> final(self)@ == old(self)@,
    {
        self.channel.accept()
    }

    pub fn transfer_type(&self) -> (r: TransferType)
        ensures
            r == self@.transfer_type,
    {
        self.transfer_type
    }
}

} // verus!

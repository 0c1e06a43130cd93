//! The control-channel command grammar.
use vstd::prelude::*;
use vstd::utf8::{decode_utf8, valid_utf8};

use crate::text::{
    copy_range, find_byte_from, find_item, lemma_find_item_bounds, octets, parse_octets,
    same_bytes, to_uppercase, upper_bytes, utf8_text,
};

verus! {

/// How file contents are to be read on the data channel.
#[derive(Clone, Copy, Debug, PartialEq, Eq, Structural)]
pub enum TransferType {
    Ascii,
    Image,
}

/// The transfer type that a `TYPE` argument byte names: `A` or `I`.
pub open spec fn transfer_type_of(c: u8) -> Option<TransferType> {
    if c == 65 {
        Some(TransferType::Ascii)
    } else if c == 73 {
        Some(TransferType::Image)
    } else {
        None
    }
}

impl TransferType {
    /// The transfer type that a `TYPE` argument byte names: `A` or `I`.
    pub fn from_byte(c: u8) -> (r: Option<TransferType>)
        ensures
            r == transfer_type_of(c),
    {
        if c == 65 {
            Some(TransferType::Ascii)
        } else if c == 73 {
            Some(TransferType::Image)
        } else {
            None
        }
    }
}

/// Why a control line could not be read as a command.
#[derive(Clone, Copy, Debug, PartialEq, Eq, Structural)]
pub enum ParseError {
    /// The verb needs an argument and the line has none (or an empty one).
    MissingArgument,
    /// The argument is not valid UTF-8.
    InvalidUtf8,
    /// A `PORT` argument that is not six comma-separated octets.
    BadAddress,
    /// A `PORT` argument naming a port of the reserved range (1024 or less).
    ReservedPort,
    /// A `TYPE` argument other than `A` or `I`.
    UnknownType,
}

/// One parsed control command.
#[derive(Clone, Debug)]
pub enum Command {
    Auth,
    Cwd(String),
    List(Option<String>),
    Mkd(String),
    NoOp,
    Port(u16),
    Pasv,
    Pwd,
    Quit,
    Retr(String),
    Rmd(String),
    Stor(String),
    Syst,
    Type(TransferType),
    CdUp,
    Unknown(String),
    User(String),
}

/// What a command means, with its text as characters.
pub enum CommandSpec {
    Auth,
    Cwd(Seq<char>),
    List(Option<Seq<char>>),
    Mkd(Seq<char>),
    NoOp,
    Port(u16),
    Pasv,
    Pwd,
    Quit,
    Retr(Seq<char>),
    Rmd(Seq<char>),
    Stor(Seq<char>),
    Syst,
    Type(TransferType),
    CdUp,
    Unknown(Seq<char>),
    User(Seq<char>),
}

impl View for Command {
    type V = CommandSpec;

    open spec fn view(&self) -> CommandSpec {
        match self {
            Command::Auth => CommandSpec::Auth,
            Command::Cwd(p) => CommandSpec::Cwd(p@),
            Command::List(p) => CommandSpec::List(
                match p {
                    Some(q) => Some(q@),
                    None => None,
                },
            ),
            Command::Mkd(p) => CommandSpec::Mkd(p@),
            Command::NoOp => CommandSpec::NoOp,
            Command::Port(p) => CommandSpec::Port(*p),
            Command::Pasv => CommandSpec::Pasv,
            Command::Pwd => CommandSpec::Pwd,
            Command::Quit => CommandSpec::Quit,
            Command::Retr(p) => CommandSpec::Retr(p@),
            Command::Rmd(p) => CommandSpec::Rmd(p@),
            Command::Stor(p) => CommandSpec::Stor(p@),
            Command::Syst => CommandSpec::Syst,
            Command::Type(t) => CommandSpec::Type(*t),
            Command::CdUp => CommandSpec::CdUp,
            Command::Unknown(v) => CommandSpec::Unknown(v@),
            Command::User(n) => CommandSpec::User(n@),
        }
    }
}

/// The verbs of the command table.
#[derive(Clone, Copy, PartialEq, Eq, Structural)]
pub enum Verb {
    Auth,
    Cwd,
    List,
    Pasv,
    Port,
    Pwd,
    Quit,
    Retr,
    Stor,
    Mkd,
    Rmd,
    Syst,
    Type,
    CdUp,
    User,
    NoOp,
}

/// The verb that an upper-cased verb token names, if any.
pub open spec fn verb_of(w: Seq<u8>) -> Option<Verb> {
    if w == seq![65u8, 85, 84, 72] {
        Some(Verb::Auth)
    } else if w == seq![67u8, 87, 68] {
        Some(Verb::Cwd)
    } else if w == seq![76u8, 73, 83, 84] {
        Some(Verb::List)
    } else if w == seq![80u8, 65, 83, 86] {
        Some(Verb::Pasv)
    } else if w == seq![80u8, 79, 82, 84] {
        Some(Verb::Port)
    } else if w == seq![80u8, 87, 68] {
        Some(Verb::Pwd)
    } else if w == seq![81u8, 85, 73, 84] {
        Some(Verb::Quit)
    } else if w == seq![82u8, 69, 84, 82] {
        Some(Verb::Retr)
    } else if w == seq![83u8, 84, 79, 82] {
        Some(Verb::Stor)
    } else if w == seq![77u8, 75, 68] {
        Some(Verb::Mkd)
    } else if w == seq![82u8, 77, 68] {
        Some(Verb::Rmd)
    } else if w == seq![83u8, 89, 83, 84] {
        Some(Verb::Syst)
    } else if w == seq![84u8, 89, 80, 69] {
        Some(Verb::Type)
    } else if w == seq![67u8, 68, 85, 80] {
        Some(Verb::CdUp)
    } else if w == seq![85u8, 83, 69, 82] {
        Some(Verb::User)
    } else if w == seq![78u8, 79, 79, 80] {
        Some(Verb::NoOp)
    } else {
        None
    }
}

/// The word of a verb, upper-case.
pub open spec fn verb_word(v: Verb) -> Seq<u8> {
    match v {
        Verb::Auth => seq![65u8, 85, 84, 72],
        Verb::Cwd => seq![67u8, 87, 68],
        Verb::List => seq![76u8, 73, 83, 84],
        Verb::Pasv => seq![80u8, 65, 83, 86],
        Verb::Port => seq![80u8, 79, 82, 84],
        Verb::Pwd => seq![80u8, 87, 68],
        Verb::Quit => seq![81u8, 85, 73, 84],
        Verb::Retr => seq![82u8, 69, 84, 82],
        Verb::Stor => seq![83u8, 84, 79, 82],
        Verb::Mkd => seq![77u8, 75, 68],
        Verb::Rmd => seq![82u8, 77, 68],
        Verb::Syst => seq![83u8, 89, 83, 84],
        Verb::Type => seq![84u8, 89, 80, 69],
        Verb::CdUp => seq![67u8, 68, 85, 80],
        Verb::User => seq![85u8, 83, 69, 82],
        Verb::NoOp => seq![78u8, 79, 79, 80],
    }
}

/// The word of a verb, upper-case.
pub fn verb_bytes(v: Verb) -> (r: Vec<u8>)
    ensures
        r@ == verb_word(v),
{
    match v {
        Verb::Auth => {
            let w: [u8; 4] = [65u8, 85, 84, 72];
            assert(w@ == seq![65u8, 85, 84, 72]);
            copy_range(&w, 0, 4)
        },
        Verb::Cwd => {
            let w: [u8; 3] = [67u8, 87, 68];
            assert(w@ == seq![67u8, 87, 68]);
            copy_range(&w, 0, 3)
        },
        Verb::List => {
            let w: [u8; 4] = [76u8, 73, 83, 84];
            assert(w@ == seq![76u8, 73, 83, 84]);
            copy_range(&w, 0, 4)
        },
        Verb::Pasv => {
            let w: [u8; 4] = [80u8, 65, 83, 86];
            assert(w@ == seq![80u8, 65, 83, 86]);
            copy_range(&w, 0, 4)
        },
        Verb::Port => {
            let w: [u8; 4] = [80u8, 79, 82, 84];
            assert(w@ == seq![80u8, 79, 82, 84]);
            copy_range(&w, 0, 4)
        },
        Verb::Pwd => {
            let w: [u8; 3] = [80u8, 87, 68];
            assert(w@ == seq![80u8, 87, 68]);
            copy_range(&w, 0, 3)
        },
        Verb::Quit => {
            let w: [u8; 4] = [81u8, 85, 73, 84];
            assert(w@ == seq![81u8, 85, 73, 84]);
            copy_range(&w, 0, 4)
        },
        Verb::Retr => {
            let w: [u8; 4] = [82u8, 69, 84, 82];
            assert(w@ == seq![82u8, 69, 84, 82]);
            copy_range(&w, 0, 4)
        },
        Verb::Stor => {
            let w: [u8; 4] = [83u8, 84, 79, 82];
            assert(w@ == seq![83u8, 84, 79, 82]);
            copy_range(&w, 0, 4)
        },
        Verb::Mkd => {
            let w: [u8; 3] = [77u8, 75, 68];
            assert(w@ == seq![77u8, 75, 68]);
            copy_range(&w, 0, 3)
        },
        Verb::Rmd => {
            let w: [u8; 3] = [82u8, 77, 68];
            assert(w@ == seq![82u8, 77, 68]);
            copy_range(&w, 0, 3)
        },
        Verb::Syst => {
            let w: [u8; 4] = [83u8, 89, 83, 84];
            assert(w@ == seq![83u8, 89, 83, 84]);
            copy_range(&w, 0, 4)
        },
        Verb::Type => {
            let w: [u8; 4] = [84u8, 89, 80, 69];
            assert(w@ == seq![84u8, 89, 80, 69]);
            copy_range(&w, 0, 4)
        },
        Verb::CdUp => {
            let w: [u8; 4] = [67u8, 68, 85, 80];
            assert(w@ == seq![67u8, 68, 85, 80]);
            copy_range(&w, 0, 4)
        },
        Verb::User => {
            let w: [u8; 4] = [85u8, 83, 69, 82];
            assert(w@ == seq![85u8, 83, 69, 82]);
            copy_range(&w, 0, 4)
        },
        Verb::NoOp => {
            let w: [u8; 4] = [78u8, 79, 79, 80];
            assert(w@ == seq![78u8, 79, 79, 80]);
            copy_range(&w, 0, 4)
        },
    }
}

/// A verb's word is upper-case, holds no space, and names the verb.
pub proof fn lemma_verb_word(v: Verb)
    ensures
        upper_bytes(verb_word(v)) == verb_word(v),
        verb_of(verb_word(v)) == Some(v),
        forall|j: int| 0 <= j < verb_word(v).len() ==> 65 <= #[trigger] verb_word(v)[j] <= 90,
{
    let w = verb_word(v);
    assert(forall|j: int| 0 <= j < w.len() ==> 65 <= #[trigger] w[j] <= 90);
    assert(upper_bytes(w) =~= w);
}

/// End of the verb token: the first space, or the end of the line.
pub open spec fn verb_end(line: Seq<u8>) -> int {
    find_item(line, 32, 0)
}

/// The verb token, as received.
pub open spec fn verb_token(line: Seq<u8>) -> Seq<u8> {
    line.take(verb_end(line))
}

/// The argument: the rest of the line after the first space, if the line
/// has a space at all.
pub open spec fn arg_token(line: Seq<u8>) -> Option<Seq<u8>> {
    let e = verb_end(line);
    if e < line.len() {
        Some(line.subrange(e + 1, line.len() as int))
    } else {
        None
    }
}

/// A path or name argument: present, not empty, and valid UTF-8.
pub open spec fn text_arg(arg: Option<Seq<u8>>) -> Result<Seq<char>, ParseError> {
    match arg {
        Some(a) => if a.len() == 0 {
            Err(ParseError::MissingArgument)
        } else if valid_utf8(a) {
            Ok(decode_utf8(a))
        } else {
            Err(ParseError::InvalidUtf8)
        },
        None => Err(ParseError::MissingArgument),
    }
}

/// The port that a `PORT` argument `h1,h2,h3,h4,hi,lo` names, before the
/// reserved-range check.
pub open spec fn port_arg(a: Seq<u8>) -> Option<nat> {
    match octets(a) {
        Some(o) => Some(o[4] * 256 + o[5]),
        None => None,
    }
}

/// What the control line `line` (without its CRLF) means.
pub open spec fn parse_line(line: Seq<u8>) -> Result<CommandSpec, ParseError> {
    let arg = arg_token(line);
    match verb_of(upper_bytes(verb_token(line))) {
        None => Ok(
            CommandSpec::Unknown(
                if valid_utf8(verb_token(line)) {
                    decode_utf8(verb_token(line))
                } else {
                    Seq::empty()
                },
            ),
        ),
        Some(v) => match v {
            Verb::Auth => Ok(CommandSpec::Auth),
            Verb::Pasv => Ok(CommandSpec::Pasv),
            Verb::Pwd => Ok(CommandSpec::Pwd),
            Verb::Quit => Ok(CommandSpec::Quit),
            Verb::Syst => Ok(CommandSpec::Syst),
            Verb::CdUp => Ok(CommandSpec::CdUp),
            Verb::NoOp => Ok(CommandSpec::NoOp),
            Verb::List => Ok(
                CommandSpec::List(
                    match text_arg(arg) {
                        Ok(p) => Some(p),
                        Err(_) => None,
                    },
                ),
            ),
            Verb::Cwd => match text_arg(arg) {
                Ok(p) => Ok(CommandSpec::Cwd(p)),
                Err(e) => Err(e),
            },
            Verb::Mkd => match text_arg(arg) {
                Ok(p) => Ok(CommandSpec::Mkd(p)),
                Err(e) => Err(e),
            },
            Verb::Rmd => match text_arg(arg) {
                Ok(p) => Ok(CommandSpec::Rmd(p)),
                Err(e) => Err(e),
            },
            Verb::Stor => match text_arg(arg) {
                Ok(p) => Ok(CommandSpec::Stor(p)),
                Err(e) => Err(e),
            },
            Verb::Retr => match text_arg(arg) {
                Ok(p) => Ok(CommandSpec::Retr(p)),
                Err(e) => Err(e),
            },
            Verb::User => match text_arg(arg) {
                Ok(n) => Ok(CommandSpec::User(n)),
                Err(e) => Err(e),
            },
            Verb::Type => match arg {
                Some(a) => if a.len() == 0 {
                    Err(ParseError::MissingArgument)
                } else if a.len() == 1 && transfer_type_of(a[0]).is_some() {
                    Ok(CommandSpec::Type(transfer_type_of(a[0]).unwrap()))
                } else {
                    Err(ParseError::UnknownType)
                },
                None => Err(ParseError::MissingArgument),
            },
            Verb::Port => match arg {
                Some(a) => if a.len() == 0 {
                    Err(ParseError::MissingArgument)
                } else {
                    match port_arg(a) {
                        None => Err(ParseError::BadAddress),
                        Some(p) => if p <= 1024 {
                            Err(ParseError::ReservedPort)
                        } else {
                            Ok(CommandSpec::Port(p as u16))
                        },
                    }
                },
                None => Err(ParseError::MissingArgument),
            },
        },
    }
}

/// The verb that an upper-cased token names.
fn lookup_verb(w: &[u8]) -> (r: Option<Verb>)
    ensures
        r == verb_of(w@),
{
    let w_auth: [u8; 4] = [65u8, 85, 84, 72];
    assert(w_auth@ == seq![65u8, 85, 84, 72]);
    if same_bytes(w, &w_auth) {
        return Some(Verb::Auth);
    }
    let w_cwd: [u8; 3] = [67u8, 87, 68];
    assert(w_cwd@ == seq![67u8, 87, 68]);
    if same_bytes(w, &w_cwd) {
        return Some(Verb::Cwd);
    }
    let w_list: [u8; 4] = [76u8, 73, 83, 84];
    assert(w_list@ == seq![76u8, 73, 83, 84]);
    if same_bytes(w, &w_list) {
        return Some(Verb::List);
    }
    let w_pasv: [u8; 4] = [80u8, 65, 83, 86];
    assert(w_pasv@ == seq![80u8, 65, 83, 86]);
    if same_bytes(w, &w_pasv) {
        return Some(Verb::Pasv);
    }
    let w_port: [u8; 4] = [80u8, 79, 82, 84];
    assert(w_port@ == seq![80u8, 79, 82, 84]);
    if same_bytes(w, &w_port) {
        return Some(Verb::Port);
    }
    let w_pwd: [u8; 3] = [80u8, 87, 68];
    assert(w_pwd@ == seq![80u8, 87, 68]);
    if same_bytes(w, &w_pwd) {
        return Some(Verb::Pwd);
    }
    let w_quit: [u8; 4] = [81u8, 85, 73, 84];
    assert(w_quit@ == seq![81u8, 85, 73, 84]);
    if same_bytes(w, &w_quit) {
        return Some(Verb::Quit);
    }
    let w_retr: [u8; 4] = [82u8, 69, 84, 82];
    assert(w_retr@ == seq![82u8, 69, 84, 82]);
    if same_bytes(w, &w_retr) {
        return Some(Verb::Retr);
    }
    let w_stor: [u8; 4] = [83u8, 84, 79, 82];
    assert(w_stor@ == seq![83u8, 84, 79, 82]);
    if same_bytes(w, &w_stor) {
        return Some(Verb::Stor);
    }
    let w_mkd: [u8; 3] = [77u8, 75, 68];
    assert(w_mkd@ == seq![77u8, 75, 68]);
    if same_bytes(w, &w_mkd) {
        return Some(Verb::Mkd);
    }
    let w_rmd: [u8; 3] = [82u8, 77, 68];
    assert(w_rmd@ == seq![82u8, 77, 68]);
    if same_bytes(w, &w_rmd) {
        return Some(Verb::Rmd);
    }
    let w_syst: [u8; 4] = [83u8, 89, 83, 84];
    assert(w_syst@ == seq![83u8, 89, 83, 84]);
    if same_bytes(w, &w_syst) {
        return Some(Verb::Syst);
    }
    let w_type: [u8; 4] = [84u8, 89, 80, 69];
    assert(w_type@ == seq![84u8, 89, 80, 69]);
    if same_bytes(w, &w_type) {
        return Some(Verb::Type);
    }
    let w_cdup: [u8; 4] = [67u8, 68, 85, 80];
    assert(w_cdup@ == seq![67u8, 68, 85, 80]);
    if same_bytes(w, &w_cdup) {
        return Some(Verb::CdUp);
    }
    let w_user: [u8; 4] = [85u8, 83, 69, 82];
    assert(w_user@ == seq![85u8, 83, 69, 82]);
    if same_bytes(w, &w_user) {
        return Some(Verb::User);
    }
    let w_noop: [u8; 4] = [78u8, 79, 79, 80];
    assert(w_noop@ == seq![78u8, 79, 79, 80]);
    if same_bytes(w, &w_noop) {
        return Some(Verb::NoOp);
    }
    None
}

pub open spec fn opt_bytes(o: Option<Vec<u8>>) -> Option<Seq<u8>> {
    match o {
        Some(a) => Some(a@),
        None => None,
    }
}

/// Reads a path or name argument.
fn text_argument(arg: &Option<Vec<u8>>) -> (r: Result<String, ParseError>)
    ensures
        match r {
            Ok(s) => text_arg(opt_bytes(*arg)) == Ok::<Seq<char>, ParseError>(s@),
            Err(e) => text_arg(opt_bytes(*arg)) == Err::<Seq<char>, ParseError>(e),
        },
{
    match arg {
        None => Err(ParseError::MissingArgument),
        Some(a) => {
            if a.len() == 0 {
                return Err(ParseError::MissingArgument);
            }
            match utf8_text(a.as_slice()) {
                Some(s) => Ok(s),
                None => Err(ParseError::InvalidUtf8),
            }
        },
    }
}

/// Reads the port of a `PORT` argument, before the reserved-range check.
fn port_argument(a: &Vec<u8>) -> (r: Option<u64>)
    ensures
        r.is_some() == port_arg(a@).is_some(),
        r matches Some(p) ==> port_arg(a@) == Some(p as nat) && p <= 65535,
{
    match parse_octets(a.as_slice()) {
        None => None,
        Some(o) => {
            assert(o@[4] == o[4] && o@[5] == o[5]);
            Some(o[4] as u64 * 256 + o[5] as u64)
        },
    }
}

impl Command {
    /// Parses one control line, without its CRLF.
    ///
    /// The verb is the text before the first space, matched without regard
    /// to ASCII case; the argument is the rest of the line after the first
    /// space. A verb outside the table gives `Unknown` with the verb
    /// as received.
    pub fn new(input: Vec<u8>) -> (r: Result<Command, ParseError>)
        ensures
            match r {
                Ok(c) => parse_line(input@) == Ok::<CommandSpec, ParseError>(c@),
                Err(e) => parse_line(input@) == Err::<CommandSpec, ParseError>(e),
            },
    {
        let e = find_byte_from(input.as_slice(), 32, 0);
        proof {
            lemma_find_item_bounds(input@, 32, 0);
        }
        let token = copy_range(input.as_slice(), 0, e);
        let mut upper = copy_range(input.as_slice(), 0, e);
        assert(token@ == verb_token(input@));
        to_uppercase(&mut upper);
        let arg: Option<Vec<u8>> = if e < input.len() {
            Some(copy_range(input.as_slice(), e + 1, input.len()))
        } else {
            None
        };
        assert(opt_bytes(arg) == arg_token(input@));
        let verb = match lookup_verb(upper.as_slice()) {
            None => {
                let text = match utf8_text(token.as_slice()) {
                    Some(t) => t,
                    None => String::new(),
                };
                return Ok(Command::Unknown(text));
            },
            Some(v) => v,
        };
        match verb {
            Verb::Auth => Ok(Command::Auth),
            Verb::Pasv => Ok(Command::Pasv),
            Verb::Pwd => Ok(Command::Pwd),
            Verb::Quit => Ok(Command::Quit),
            Verb::Syst => Ok(Command::Syst),
            Verb::CdUp => Ok(Command::CdUp),
            Verb::NoOp => Ok(Command::NoOp),
            Verb::List => Ok(
                Command::List(
                    match text_argument(&arg) {
                        Ok(p) => Some(p),
                        Err(_) => None,
                    },
                ),
            ),
            Verb::Cwd => match text_argument(&arg) {
                Ok(p) => Ok(Command::Cwd(p)),
                Err(e) => Err(e),
            },
            Verb::Mkd => match text_argument(&arg) {
                Ok(p) => Ok(Command::Mkd(p)),
                Err(e) => Err(e),
            },
            Verb::Rmd => match text_argument(&arg) {
                Ok(p) => Ok(Command::Rmd(p)),
                Err(e) => Err(e),
            },
            Verb::Stor => match text_argument(&arg) {
                Ok(p) => Ok(Command::Stor(p)),
                Err(e) => Err(e),
            },
            Verb::Retr => match text_argument(&arg) {
                Ok(p) => Ok(Command::Retr(p)),
                Err(e) => Err(e),
            },
            Verb::User => match text_argument(&arg) {
                Ok(n) => Ok(Command::User(n)),
                Err(e) => Err(e),
            },
            Verb::Type => match arg {
                None => Err(ParseError::MissingArgument),
                Some(a) => {
                    if a.len() == 0 {
                        Err(ParseError::MissingArgument)
                    } else if a.len() != 1 {
                        Err(ParseError::UnknownType)
                    } else {
                        match TransferType::from_byte(a[0]) {
                            Some(t) => Ok(Command::Type(t)),
                            None => Err(ParseError::UnknownType),
                        }
                    }
                },
            },
            Verb::Port => match arg {
                None => Err(ParseError::MissingArgument),
                Some(a) => {
                    if a.len() == 0 {
                        Err(ParseError::MissingArgument)
                    } else {
                        match port_argument(&a) {
                            None => Err(ParseError::BadAddress),
                            Some(p) => {
                                if p <= 1024 {
                                    Err(ParseError::ReservedPort)
                                } else {
                                    Ok(Command::Port(p as u16))
                                }
                            },
                        }
                    }
                },
            },
        }
    }
}

/// The verb of a command, upper-case; `UNKN` for an unknown one.
pub open spec fn verb_name(c: CommandSpec) -> Seq<char> {
    match c {
        CommandSpec::Auth => "AUTH"@,
        CommandSpec::Cwd(_) => "CWD"@,
        CommandSpec::List(_) => "LIST"@,
        CommandSpec::Mkd(_) => "MKD"@,
        CommandSpec::NoOp => "NOOP"@,
        CommandSpec::Port(_) => "PORT"@,
        CommandSpec::Pasv => "PASV"@,
        CommandSpec::Pwd => "PWD"@,
        CommandSpec::Quit => "QUIT"@,
        CommandSpec::Retr(_) => "RETR"@,
        CommandSpec::Rmd(_) => "RMD"@,
        CommandSpec::Stor(_) => "STOR"@,
        CommandSpec::Syst => "SYST"@,
        CommandSpec::Type(_) => "TYPE"@,
        CommandSpec::CdUp => "CDUP"@,
        CommandSpec::Unknown(_) => "UNKN"@,
        CommandSpec::User(_) => "USER"@,
    }
}

impl Command {
    /// The verb of the command, upper-case; `UNKN` for an unknown one.
    pub fn as_ref(&self) -> (r: &'static str)
        ensures
            r@ == verb_name(self@),
    {
        match self {
            Command::Auth => "AUTH",
            Command::Cwd(_) => "CWD",
            Command::List(_) => "LIST",
            Command::Mkd(_) => "MKD",
            Command::NoOp => "NOOP",
            Command::Port(_) => "PORT",
            Command::Pasv => "PASV",
            Command::Pwd => "PWD",
            Command::Quit => "QUIT",
            Command::Retr(_) => "RETR",
            Command::Rmd(_) => "RMD",
            Command::Stor(_) => "STOR",
            Command::Syst => "SYST",
            Command::Type(_) => "TYPE",
            Command::CdUp => "CDUP",
            Command::Unknown(_) => "UNKN",
            Command::User(_) => "USER",
        }
    }
}

} // verus!

//! The client side of the control protocol: request lines, and the checks
//! and readings of the server's replies.
use vstd::prelude::*;
use vstd::utf8::{
    char_is_scalar, char_u32_cast, encode_scalar, encode_utf8, encode_utf8_decode_utf8,
    encode_utf8_valid_utf8,
};

use crate::codec::{crlf_from, first_crlf};
use crate::command::{lemma_verb_word, parse_line, verb_bytes, verb_word, CommandSpec, ParseError, Verb};
use crate::error::Error;
use crate::text::{
    copy_range, decimal, find_byte_from, find_item, lemma_encoding_avoids, lemma_find_at,
    lemma_find_item_bounds, octets, parse_octets, push_bytes, push_decimal,
};

verus! {

/// The request line `verb`, or `verb arg`, ending in CRLF.
pub open spec fn request_text(verb: Verb, arg: Option<Seq<char>>) -> Seq<u8> {
    match arg {
        Some(a) => verb_word(verb) + seq![32u8] + encode_utf8(a) + seq![13u8, 10],
        None => verb_word(verb) + seq![13u8, 10],
    }
}

/// Builds a request line.
pub fn request_line(verb: Verb, arg: Option<&str>) -> (r: Vec<u8>)
    ensures
        r@ == request_text(
            verb,
            match arg {
                Some(a) => Some(a@),
                None => None,
            },
        ),
{
    let mut out = verb_bytes(verb);
    match arg {
        Some(a) => {
            out.push(32);
            push_bytes(&mut out, a.as_bytes());
        },
        None => {},
    }
    out.push(13);
    out.push(10);
    assert(out@ =~= request_text(
        verb,
        match arg {
            Some(a) => Some(a@),
            None => None,
        },
    ));
    out
}

/// Whether a reply starts with the status code `code`.
pub open spec fn has_code(reply: Seq<u8>, code: u16) -> bool {
    let d = decimal(code as nat);
    reply.len() >= d.len() && reply.take(d.len() as int) == d
}

/// Whether `reply` starts with the status code `code`.
pub fn reply_has_code(reply: &[u8], code: u16) -> (r: bool)
    ensures
        r == has_code(reply@, code),
{
    let mut d: Vec<u8> = Vec::new();
    push_decimal(&mut d, code as u64);
    assert(d@ =~= decimal(code as nat));
    if reply.len() < d.len() {
        return false;
    }
    let mut i: usize = 0;
    while i < d.len()
        invariant
            d@ == decimal(code as nat),
            d.len() <= reply.len(),
            0 <= i <= d.len(),
            forall|j: int| 0 <= j < i ==> reply@[j] == d@[j],
        decreases d.len() - i,
    {
        if reply[i] != d[i] {
            assert(reply@.take(d.len() as int)[i as int] != d@[i as int]);
            return false;
        }
        i = i + 1;
    }
    assert(reply@.take(d.len() as int) =~= d@);
    true
}

/// Checks that a reply carries the expected status code; a reply without
/// it is a protocol-expectation failure, which is worth retrying.
pub fn expect_reply(reply: &[u8], code: u16) -> (r: Result<(), Error>)
    ensures
        r is Ok <==> has_code(reply@, code),
        r matches Err(e) ==> e == Error::ProtocolExpectation(code),
{
    if reply_has_code(reply, code) {
        Ok(())
    } else {
        Err(Error::ProtocolExpectation(code))
    }
}

/// Whether an `MKD` reply leaves the directory in place: created (`257`),
/// or refused (`550` or `553`), which is how a server answers for a
/// directory that exists already.
pub open spec fn dir_ready(reply: Seq<u8>) -> bool {
    has_code(reply, 257) || has_code(reply, 550) || has_code(reply, 553)
}

/// Whether an `MKD` reply leaves the directory in place.
pub fn remote_dir_ready(reply: &[u8]) -> (r: bool)
    ensures
        r == dir_ready(reply@),
{
    reply_has_code(reply, 257) || reply_has_code(reply, 550) || reply_has_code(reply, 553)
}

/// Where a passive data connection is to be opened.
#[derive(Clone, Copy, Debug)]
pub struct PassiveAddress {
    pub host: [u8; 4],
    pub port: u16,
}

/// The address octets between the first `(` and the next `)` of a reply.
pub open spec fn address_in(reply: Seq<u8>) -> Option<Seq<nat>> {
    let open = find_item(reply, 40u8, 0);
    let close = find_item(reply, 41u8, open + 1);
    if open < reply.len() && close < reply.len() {
        octets(reply.subrange(open + 1, close))
    } else {
        None
    }
}

/// Reads a `227` reply: `... (h1,h2,h3,h4,hi,lo)` names host
/// `h1.h2.h3.h4` and port `hi * 256 + lo`.
pub fn parse_passive_reply(reply: &[u8]) -> (r: Result<PassiveAddress, Error>)
    ensures
        r is Ok <==> has_code(reply@, 227) && address_in(reply@).is_some(),
        r matches Ok(a) ==> ({
            let o = address_in(reply@).unwrap();
            &&& a.host@ == seq![o[0] as u8, o[1] as u8, o[2] as u8, o[3] as u8]
            &&& a.port == o[4] * 256 + o[5]
        }),
        r matches Err(e) ==> e == Error::ProtocolExpectation(227),
{
    if !reply_has_code(reply, 227) {
        return Err(Error::ProtocolExpectation(227));
    }
    let open = find_byte_from(reply, 40, 0);
    proof {
        lemma_find_item_bounds(reply@, 40u8, 0);
    }
    if open >= reply.len() {
        return Err(Error::ProtocolExpectation(227));
    }
    let close = find_byte_from(reply, 41, open + 1);
    proof {
        lemma_find_item_bounds(reply@, 41u8, open + 1);
    }
    if close >= reply.len() {
        return Err(Error::ProtocolExpectation(227));
    }
    let inner = copy_range(reply, open + 1, close);
    match parse_octets(inner.as_slice()) {
        None => Err(Error::ProtocolExpectation(227)),
        Some(o) => {
            let ghost so = address_in(reply@).unwrap();
            assert(o@[0] as nat == so[0] && o@[1] as nat == so[1] && o@[2] as nat == so[2] && o@[3] as nat == so[3]);
            assert(o@[4] as nat == so[4] && o@[5] as nat == so[5]);
            let host: [u8; 4] = [o[0], o[1], o[2], o[3]];
            assert(host@ =~= seq![so[0] as u8, so[1] as u8, so[2] as u8, so[3] as u8]);
            Ok(PassiveAddress { host, port: o[4] as u16 * 256 + o[5] as u16 })
        },
    }
}

/// The host octets and port that a `227` reply names.
pub open spec fn passive_of(reply: Seq<u8>) -> Option<(Seq<u8>, u16)> {
    if has_code(reply, 227) && address_in(reply).is_some() {
        let o = address_in(reply).unwrap();
        Some((seq![o[0] as u8, o[1] as u8, o[2] as u8, o[3] as u8], (o[4] * 256 + o[5]) as u16))
    } else {
        None
    }
}

/// One remote operation, done over its own control connection.
#[derive(Debug)]
pub enum Operation {
    /// Store a file under this remote path.
    Upload(String),
    /// Fetch the file at this remote path.
    Download(String),
    /// List this remote directory.
    List(String),
    /// Make sure this remote directory exists.
    MakeDir(String),
}

pub enum OperationSpec {
    Upload(Seq<char>),
    Download(Seq<char>),
    List(Seq<char>),
    MakeDir(Seq<char>),
}

pub open spec fn operation_of(op: Operation) -> OperationSpec {
    match op {
        Operation::Upload(p) => OperationSpec::Upload(p@),
        Operation::Download(p) => OperationSpec::Download(p@),
        Operation::List(p) => OperationSpec::List(p@),
        Operation::MakeDir(p) => OperationSpec::MakeDir(p@),
    }
}

/// Which reply an exchange waits for.
#[derive(Clone, Copy, Debug, PartialEq, Eq, Structural)]
pub enum Stage {
    /// The server's greeting, `220`.
    Greeting,
    /// The answer to `USER`, `230`.
    Login,
    /// The answer to `CWD`, `250`.
    ChangeDir,
    /// The answer to `PASV`, `227`.
    Passive,
    /// The preliminary answer to the transfer, `150`.
    Opening,
    /// The final answer to the transfer, `226`.
    Streaming,
    /// The answer to `MKD`.
    Made,
    /// Nothing more.
    Finished,
}

/// What the caller does next in an exchange.
#[derive(Debug)]
pub enum Next {
    /// Send this request line, then read the next reply.
    Send(Vec<u8>),
    /// Open the data connection to this address, send this request line,
    /// then read the next reply.
    Connect(PassiveAddress, Vec<u8>),
    /// Move the payload over the data connection (for an upload, close it
    /// afterwards), then read the next reply.
    Stream,
    /// The operation succeeded.
    Finished,
    /// The operation failed.
    Failed(Error),
}

pub enum NextSpec {
    Send(Seq<u8>),
    Connect(Seq<u8>, u16, Seq<u8>),
    Stream,
    Finished,
    Failed(Error),
}

pub open spec fn next_of(n: Next) -> NextSpec {
    match n {
        Next::Send(l) => NextSpec::Send(l@),
        Next::Connect(a, l) => NextSpec::Connect(a.host@, a.port, l@),
        Next::Stream => NextSpec::Stream,
        Next::Finished => NextSpec::Finished,
        Next::Failed(e) => NextSpec::Failed(e),
    }
}

/// The request that starts an operation's transfer.
pub open spec fn transfer_request(op: OperationSpec) -> Seq<u8> {
    match op {
        OperationSpec::Upload(p) => request_text(Verb::Stor, Some(p)),
        OperationSpec::Download(p) => request_text(Verb::Retr, Some(p)),
        OperationSpec::List(_) => request_text(Verb::List, None),
        OperationSpec::MakeDir(d) => request_text(Verb::Mkd, Some(d)),
    }
}

/// A failure for want of the reply `code`.
pub open spec fn missing(code: u16) -> NextSpec {
    NextSpec::Failed(Error::ProtocolExpectation(code))
}

/// How an exchange at `stage` goes on after `reply`: its next stage and
/// what the caller does.
pub open spec fn exchange_step(op: OperationSpec, user: Seq<char>, stage: Stage, reply: Seq<u8>) -> (Stage, NextSpec) {
    match stage {
        Stage::Greeting => if has_code(reply, 220) {
            (Stage::Login, NextSpec::Send(request_text(Verb::User, Some(user))))
        } else {
            (Stage::Finished, missing(220))
        },
        Stage::Login => if !has_code(reply, 230) {
            (Stage::Finished, missing(230))
        } else {
            match op {
                OperationSpec::List(d) => (
                    Stage::ChangeDir,
                    NextSpec::Send(request_text(Verb::Cwd, Some(d))),
                ),
                OperationSpec::MakeDir(d) => (Stage::Made, NextSpec::Send(transfer_request(op))),
                _ => (Stage::Passive, NextSpec::Send(request_text(Verb::Pasv, None))),
            }
        },
        Stage::ChangeDir => if has_code(reply, 250) {
            (Stage::Passive, NextSpec::Send(request_text(Verb::Pasv, None)))
        } else {
            (Stage::Finished, missing(250))
        },
        Stage::Passive => match passive_of(reply) {
            Some((host, port)) => (
                Stage::Opening,
                NextSpec::Connect(host, port, transfer_request(op)),
            ),
            None => (Stage::Finished, missing(227)),
        },
        Stage::Opening => if has_code(reply, 150) {
            (Stage::Streaming, NextSpec::Stream)
        } else {
            (Stage::Finished, missing(150))
        },
        Stage::Streaming => if has_code(reply, 226) {
            (Stage::Finished, NextSpec::Finished)
        } else {
            (Stage::Finished, missing(226))
        },
        Stage::Made => if dir_ready(reply) {
            (Stage::Finished, NextSpec::Finished)
        } else {
            (Stage::Finished, missing(257))
        },
        Stage::Finished => (Stage::Finished, NextSpec::Finished),
    }
}

/// The client's side of one operation: which reply it waits for, and what
/// each reply leads to.
#[derive(Debug)]
pub struct Exchange {
    pub op: Operation,
    pub user: String,
    pub stage: Stage,
}

impl Exchange {
    /// A new exchange, waiting for the server's greeting.
    pub fn new(op: Operation, user: String) -> (r: Exchange)
        ensures
            operation_of(r.op) == operation_of(op),
            r.user@ == user@,
            r.stage == Stage::Greeting,
    {
        Exchange { op, user, stage: Stage::Greeting }
    }

    fn transfer_line(&self) -> (r: Vec<u8>)
        ensures
            r@ == transfer_request(operation_of(self.op)),
    {
        match &self.op {
            Operation::Upload(p) => request_line(Verb::Stor, Some(p.as_str())),
            Operation::Download(p) => request_line(Verb::Retr, Some(p.as_str())),
            Operation::List(_) => request_line(Verb::List, None),
            Operation::MakeDir(d) => request_line(Verb::Mkd, Some(d.as_str())),
        }
    }

    /// Takes the next reply of the server.
    pub fn on_reply(&mut self, reply: &[u8]) -> (r: Next)
        ensures
            operation_of(final(self).op) == operation_of(old(self).op),
            final(self).user@ == old(self).user@,
            (final(self).stage, next_of(r)) == exchange_step(
                operation_of(old(self).op),
                old(self).user@,
                old(self).stage,
                reply@,
            ),
    {
        match self.stage {
            Stage::Greeting => {
                if reply_has_code(reply, 220) {
                    self.stage = Stage::Login;
                    Next::Send(request_line(Verb::User, Some(self.user.as_str())))
                } else {
                    self.stage = Stage::Finished;
                    Next::Failed(Error::ProtocolExpectation(220))
                }
            },
            Stage::Login => {
                if !reply_has_code(reply, 230) {
                    self.stage = Stage::Finished;
                    return Next::Failed(Error::ProtocolExpectation(230));
                }
                match &self.op {
                    Operation::List(d) => {
                        let line = request_line(Verb::Cwd, Some(d.as_str()));
                        self.stage = Stage::ChangeDir;
                        Next::Send(line)
                    },
                    Operation::MakeDir(_) => {
                        let line = self.transfer_line();
                        self.stage = Stage::Made;
                        Next::Send(line)
                    },
                    _ => {
                        self.stage = Stage::Passive;
                        Next::Send(request_line(Verb::Pasv, None))
                    },
                }
            },
            Stage::ChangeDir => {
                if reply_has_code(reply, 250) {
                    self.stage = Stage::Passive;
                    Next::Send(request_line(Verb::Pasv, None))
                } else {
                    self.stage = Stage::Finished;
                    Next::Failed(Error::ProtocolExpectation(250))
                }
            },
            Stage::Passive => {
                match parse_passive_reply(reply) {
                    Ok(a) => {
                        let line = self.transfer_line();
                        self.stage = Stage::Opening;
                        Next::Connect(a, line)
                    },
                    Err(_) => {
                        self.stage = Stage::Finished;
                        Next::Failed(Error::ProtocolExpectation(227))
                    },
                }
            },
            Stage::Opening => {
                if reply_has_code(reply, 150) {
                    self.stage = Stage::Streaming;
                    Next::Stream
                } else {
                    self.stage = Stage::Finished;
                    Next::Failed(Error::ProtocolExpectation(150))
                }
            },
            Stage::Streaming => {
                self.stage = Stage::Finished;
                if reply_has_code(reply, 226) {
                    Next::Finished
                } else {
                    Next::Failed(Error::ProtocolExpectation(226))
                }
            },
            Stage::Made => {
                self.stage = Stage::Finished;
                if remote_dir_ready(reply) {
                    Next::Finished
                } else {
                    Next::Failed(Error::ProtocolExpectation(257))
                }
            },
            Stage::Finished => Next::Finished,
        }
    }
}

/// The verbs whose argument is a path or a name.
pub open spec fn takes_text(v: Verb) -> bool {
    match v {
        Verb::Cwd | Verb::Mkd | Verb::Rmd | Verb::Stor | Verb::Retr | Verb::User | Verb::List => true,
        _ => false,
    }
}

/// The command that a verb taking a path or a name makes with `a`.
pub open spec fn text_command(v: Verb, a: Seq<char>) -> CommandSpec {
    match v {
        Verb::Cwd => CommandSpec::Cwd(a),
        Verb::Mkd => CommandSpec::Mkd(a),
        Verb::Rmd => CommandSpec::Rmd(a),
        Verb::Stor => CommandSpec::Stor(a),
        Verb::Retr => CommandSpec::Retr(a),
        Verb::User => CommandSpec::User(a),
        _ => CommandSpec::List(Some(a)),
    }
}

proof fn lemma_crlf_at(s: Seq<u8>, from: int, m: int)
    requires
        0 <= from <= m,
        m + 1 < s.len(),
        s[m] == 13 && s[m + 1] == 10,
        forall|j: int| from <= j < m ==> s[j] != 13,
    ensures
        crlf_from(s, from) == Some(m),
    decreases m - from,
{
    if from < m {
        lemma_crlf_at(s, from + 1, m);
    }
}

/// A request line that the client builds for a verb taking a path or a
/// name, with a non-empty argument free of line breaks, is one
/// whole line to the server's framing, and the server reads it as that verb
/// with that argument.
pub proof fn lemma_request_parses(v: Verb, a: Seq<char>)
    requires
        takes_text(v),
        a.len() > 0,
        forall|i: int| 0 <= i < a.len() ==> #[trigger] a[i] != '\r' && a[i] != '\n',
    ensures
        ({
            let r = request_text(v, Some(a));
            &&& first_crlf(r) == Some(r.len() - 2)
            &&& parse_line(r.take(r.len() - 2)) == Ok::<CommandSpec, ParseError>(text_command(v, a))
        }),
{
    let w = verb_word(v);
    let e = encode_utf8(a);
    let r = request_text(v, Some(a));
    let line = w + seq![32u8] + e;
    assert(r =~= line + seq![13u8, 10]);
    assert(r.take(r.len() - 2) =~= line);
    lemma_verb_word(v);
    assert forall|i: int| 0 <= i < a.len() implies (#[trigger] a[i]) as u32 != 13u8 as u32 by {
        if a[i] as u32 == 13 {
            char_u32_cast(a[i], 13);
            char_u32_cast('\r', 13);
        }
    }
    lemma_encoding_avoids(a, 13);
    encode_utf8_valid_utf8(a);
    encode_utf8_decode_utf8(a);
    char_is_scalar(a[0]);
    assert(e.len() > 0) by {
        assert(e == encode_scalar(a[0] as u32) + encode_utf8(a.drop_first()));
    }
    // the framing finds the final CRLF
    assert forall|j: int| 0 <= j < r.len() - 2 implies r[j] != 13 by {
        if j < w.len() {
            assert(r[j] == w[j]);
        } else if j > w.len() {
            assert(r[j] == e[j - w.len() - 1]);
        }
    }
    lemma_crlf_at(r, 0, r.len() - 2);
    // the verb ends at the first space
    assert(line[w.len() as int] == 32u8);
    assert forall|j: int| 0 <= j < w.len() implies line[j] != 32u8 by {
        assert(line[j] == w[j]);
    }
    lemma_find_at(line, 32u8, 0, w.len() as int);
    assert(line.take(w.len() as int) =~= w);
    // the argument runs to the end of the line
    assert(line.subrange((w.len() + 1) as int, line.len() as int) =~= e);
}

} // verus!

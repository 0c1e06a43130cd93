use bytes::BytesMut;
use ftpsync::channel::ChannelState;
use ftpsync::codec::{find_crlf, BytesCodec, FtpCodec};
use ftpsync::command::{Command, ParseError, TransferType};
use ftpsync::error::Error;
use ftpsync::path::{join_child, logical_path, resolve, split_path, within_root};
use ftpsync::reply::{Response, ResultCode};
use ftpsync::session::{Action, Outcome, Session};
use ftpsync::text::{parse_unsigned_bytes, push_decimal, to_uppercase};

fn parse(line: &str) -> Result<Command, ParseError> {
    Command::new(line.as_bytes().to_vec())
}

fn names(v: &[&str]) -> Vec<String> {
    v.iter().map(|s| s.to_string()).collect()
}

fn reply_text(r: &Response) -> String {
    String::from_utf8(r.encode()).unwrap()
}

#[test]
fn verbs_match_without_regard_to_case() {
    assert!(matches!(parse("pwd"), Ok(Command::Pwd)));
    assert!(matches!(parse("Syst"), Ok(Command::Syst)));
    assert!(matches!(parse("QUIT"), Ok(Command::Quit)));
    assert!(matches!(parse("cdup"), Ok(Command::CdUp)));
    assert!(matches!(parse("noop"), Ok(Command::NoOp)));
    assert!(matches!(parse("pasv"), Ok(Command::Pasv)));
    assert!(matches!(parse("AUTH TLS"), Ok(Command::Auth)));
}

#[test]
fn path_arguments_are_read() {
    match parse("CWD docs") {
        Ok(Command::Cwd(p)) => assert_eq!(p, "docs"),
        other => panic!("{:?}", other),
    }
    match parse("stor /a/b.txt") {
        Ok(Command::Stor(p)) => assert_eq!(p, "/a/b.txt"),
        other => panic!("{:?}", other),
    }
    match parse("RETR x") {
        Ok(Command::Retr(p)) => assert_eq!(p, "x"),
        other => panic!("{:?}", other),
    }
    match parse("MKD new") {
        Ok(Command::Mkd(p)) => assert_eq!(p, "new"),
        other => panic!("{:?}", other),
    }
    match parse("RMD old") {
        Ok(Command::Rmd(p)) => assert_eq!(p, "old"),
        other => panic!("{:?}", other),
    }
    match parse("USER alice") {
        Ok(Command::User(n)) => assert_eq!(n, "alice"),
        other => panic!("{:?}", other),
    }
}

#[test]
fn argument_is_the_rest_of_the_line() {
    match parse("CWD a b") {
        Ok(Command::Cwd(p)) => assert_eq!(p, "a b"),
        other => panic!("{:?}", other),
    }
    match parse("STOR my file.txt") {
        Ok(Command::Stor(p)) => assert_eq!(p, "my file.txt"),
        other => panic!("{:?}", other),
    }
    assert!(matches!(parse("TYPE A N"), Err(ParseError::UnknownType)));
}

#[test]
fn missing_arguments_fail() {
    for line in ["CWD", "MKD", "RMD", "STOR", "RETR", "USER", "TYPE", "PORT", "CWD "] {
        assert!(matches!(parse(line), Err(ParseError::MissingArgument)), "{}", line);
    }
}

#[test]
fn invalid_utf8_argument_fails() {
    let line = vec![b'C', b'W', b'D', b' ', 0xff, 0xfe];
    assert!(matches!(Command::new(line), Err(ParseError::InvalidUtf8)));
}

#[test]
fn list_takes_an_optional_path() {
    assert!(matches!(parse("LIST"), Ok(Command::List(None))));
    match parse("LIST sub") {
        Ok(Command::List(Some(p))) => assert_eq!(p, "sub"),
        other => panic!("{:?}", other),
    }
}

#[test]
fn type_accepts_a_and_i_only() {
    assert!(matches!(parse("TYPE A"), Ok(Command::Type(TransferType::Ascii))));
    assert!(matches!(parse("type I"), Ok(Command::Type(TransferType::Image))));
    assert!(matches!(parse("TYPE E"), Err(ParseError::UnknownType)));
    assert!(matches!(parse("TYPE AI"), Err(ParseError::UnknownType)));
}

#[test]
fn port_reads_six_octets() {
    assert!(matches!(parse("PORT 127,0,0,1,4,1"), Ok(Command::Port(1025))));
    assert!(matches!(parse("PORT 127,0,0,1,168,202"), Ok(Command::Port(43210))));
    assert!(matches!(parse("PORT 127,0,0,1,4,0"), Err(ParseError::ReservedPort)));
    assert!(matches!(parse("PORT 127,0,0,1,0,21"), Err(ParseError::ReservedPort)));
    assert!(matches!(parse("PORT 127,0,0,1,4"), Err(ParseError::BadAddress)));
    assert!(matches!(parse("PORT 127,0,0,1,4,256"), Err(ParseError::BadAddress)));
    assert!(matches!(parse("PORT 127,0,x,1,4,1"), Err(ParseError::BadAddress)));
}

#[test]
fn unknown_verbs_keep_their_text() {
    match parse("Frob x") {
        Ok(Command::Unknown(v)) => assert_eq!(v, "Frob"),
        other => panic!("{:?}", other),
    }
    match parse("") {
        Ok(Command::Unknown(v)) => assert_eq!(v, ""),
        other => panic!("{:?}", other),
    }
}

#[test]
fn uppercase_folds_ascii_letters_only() {
    let mut v = b"abz-AZ{`".to_vec();
    to_uppercase(&mut v);
    assert_eq!(v, b"ABZ-AZ{`".to_vec());
}

#[test]
fn decimal_numbers() {
    let mut v = Vec::new();
    push_decimal(&mut v, 0);
    assert_eq!(v, b"0".to_vec());
    let mut w = b"x".to_vec();
    push_decimal(&mut w, 18446744073709551615);
    assert_eq!(w, b"x18446744073709551615".to_vec());
    assert_eq!(parse_unsigned_bytes(b"255", 255), Some(255));
    assert_eq!(parse_unsigned_bytes(b"+7", 255), Some(7));
    assert_eq!(parse_unsigned_bytes(b"007", 255), Some(7));
    assert_eq!(parse_unsigned_bytes(b"256", 255), None);
    assert_eq!(parse_unsigned_bytes(b"", 255), None);
    assert_eq!(parse_unsigned_bytes(b"+", 255), None);
    assert_eq!(parse_unsigned_bytes(b"-1", 255), None);
    assert_eq!(parse_unsigned_bytes(b"18446744073709551615", u64::MAX), Some(u64::MAX));
    assert_eq!(parse_unsigned_bytes(b"18446744073709551616", u64::MAX), None);
}

#[test]
fn replies_encode_to_one_line() {
    let r = Response::new(ResultCode::UserLoggedIn, "Welcome bob!".to_string());
    assert_eq!(reply_text(&r), "230 Welcome bob!\r\n");
    let e = Response::new(ResultCode::ServiceClosingControlConnection, String::new());
    assert_eq!(reply_text(&e), "221 \r\n");
    assert_eq!(ResultCode::EnteringPassiveMode.code(), 227);
    assert_eq!(ResultCode::FileNameNotAllowed.code(), 553);
}

#[test]
fn paths_resolve_within_the_root() {
    let cwd = names(&["a", "b"]);
    assert_eq!(resolve(&cwd, "c").unwrap(), names(&["a", "b", "c"]));
    assert_eq!(resolve(&cwd, "../c/./d/").unwrap(), names(&["a", "c", "d"]));
    assert_eq!(resolve(&cwd, "/x").unwrap(), names(&["x"]));
    assert_eq!(resolve(&cwd, "../..").unwrap(), Vec::<String>::new());
    assert!(matches!(resolve(&cwd, "../../.."), Err(Error::PathViolation)));
    assert!(matches!(resolve(&cwd, "/../etc"), Err(Error::PathViolation)));
    assert!(matches!(resolve(&Vec::new(), "../../etc/passwd"), Err(Error::PathViolation)));
    assert!(matches!(resolve(&cwd, "x/../../../../y"), Err(Error::PathViolation)));
}

#[test]
fn path_helpers() {
    assert_eq!(split_path("/a//b"), names(&["", "a", "", "b"]));
    assert_eq!(logical_path(&Vec::new()), "/");
    assert_eq!(logical_path(&names(&["a", "b"])), "/a/b");
    assert!(within_root("/srv", "/srv"));
    assert!(within_root("/srv", "/srv/x"));
    assert!(!within_root("/srv", "/srvx"));
    assert!(!within_root("/srv", "/etc"));
    assert!(within_root("/", "/etc"));
    assert_eq!(join_child("dir", "f"), "dir/f");
    assert_eq!(join_child("dir/", "f"), "dir/f");
}

#[test]
fn crlf_framing() {
    assert_eq!(find_crlf(b"PWD\r\nX"), Some(3));
    assert_eq!(find_crlf(b"PWD\r"), None);
    let mut codec = FtpCodec;
    let mut buf = BytesMut::from(&b"CWD a\r\nPWD\r\nLI"[..]);
    let cmd = codec.decode(&mut buf).unwrap();
    assert!(matches!(cmd, Ok(Command::Cwd(ref p)) if p == "a"));
    assert_eq!(&buf[..], b"PWD\r\nLI");
    assert!(matches!(codec.decode(&mut buf), Some(Ok(Command::Pwd))));
    assert!(codec.decode(&mut buf).is_none());
    assert_eq!(&buf[..], b"LI");
    let mut bad = BytesMut::from(&b"TYPE X\r\n"[..]);
    assert!(matches!(codec.decode(&mut bad), Some(Err(ParseError::UnknownType))));
    assert!(bad.is_empty());
    let mut out = BytesMut::from(&b"x"[..]);
    codec.encode(&Response::new(ResultCode::CommandOkay, "Done".to_string()), &mut out);
    assert_eq!(&out[..], b"x200 Done\r\n");
    let mut bytes = BytesCodec;
    let mut data = BytesMut::from(&b"abc"[..]);
    assert_eq!(bytes.decode(&mut data), Some(b"abc".to_vec()));
    assert!(data.is_empty());
    assert_eq!(bytes.decode(&mut data), None);
    let mut sink = BytesMut::from(&b"1"[..]);
    bytes.encode(b"23".to_vec(), &mut sink);
    assert_eq!(&sink[..], b"123");
}

fn step_reply(s: &mut Session, line: &str) -> (String, Action) {
    let step = s.handle(parse(line).unwrap());
    let text = step.reply.as_ref().map(reply_text).unwrap_or_default();
    (text, step.action)
}

#[test]
fn session_simple_commands() {
    let mut s = Session::new("/srv".to_string());
    assert_eq!(reply_text(&Session::greeting()), "220 Welcome to this FTP server!\r\n");
    assert_eq!(step_reply(&mut s, "USER bob").0, "230 Welcome bob!\r\n");
    assert_eq!(step_reply(&mut s, "PWD").0, "257 \"/\"\r\n");
    assert_eq!(step_reply(&mut s, "SYST").0, "215 UNIX Type: L8\r\n");
    assert_eq!(step_reply(&mut s, "TYPE I").0, "200 Transfer type changed successfully\r\n");
    assert_eq!(s.transfer_type(), TransferType::Image);
    let (text, action) = step_reply(&mut s, "PORT 127,0,0,1,4,1");
    assert_eq!(text, "200 Data port is now 1025\r\n");
    assert!(matches!(action, Action::Connect(1025)));
    assert_eq!(s.channel_state(), ChannelState::Listening);
    assert_eq!(reply_text(&s.passive_failed()), "425 Can't open data connection\r\n");
    assert_eq!(step_reply(&mut s, "NOOP").0, "200 Doing nothing\r\n");
    assert_eq!(step_reply(&mut s, "FOO").0, "500 \"FOO\": Not implemented\r\n");
    assert_eq!(reply_text(&s.reject(ParseError::MissingArgument)), "501 Missing argument\r\n");
    let (text, action) = step_reply(&mut s, "QUIT");
    assert_eq!(text, "221 Closing connection\r\n");
    assert!(matches!(action, Action::Close));
}

#[test]
fn session_changes_directory() {
    let mut s = Session::new("/srv".to_string());
    let (text, action) = step_reply(&mut s, "CWD a/b");
    assert_eq!(text, "");
    assert!(matches!(action, Action::ChangeDir(ref p) if p == "/srv/a/b"));
    assert_eq!(reply_text(&s.complete(Outcome::Done)), "250 Directory changed to \"/a/b\"\r\n");
    assert_eq!(s.current_dir(), "/a/b");
    assert_eq!(step_reply(&mut s, "CDUP").0, "200 Done\r\n");
    assert_eq!(s.current_dir(), "/a");
    let _ = step_reply(&mut s, "CWD missing");
    assert_eq!(reply_text(&s.complete(Outcome::Unavailable)), "550 No such file or directory\r\n");
    assert_eq!(s.current_dir(), "/a");
    assert_eq!(step_reply(&mut s, "CDUP").0, "200 Done\r\n");
    assert_eq!(step_reply(&mut s, "CDUP").0, "200 Done\r\n");
    assert_eq!(s.current_dir(), "/");
    assert_eq!(reply_text(&s.complete(Outcome::Done)), "503 Bad sequence of commands\r\n");
}

#[test]
fn escaping_paths_touch_nothing() {
    let mut s = Session::new("/srv".to_string());
    let (text, action) = step_reply(&mut s, "CWD ../../etc");
    assert_eq!(text, "550 No such file or directory\r\n");
    assert!(matches!(action, Action::Respond));
    let (text, action) = step_reply(&mut s, "MKD ../x");
    assert_eq!(text, "553 Permission denied\r\n");
    assert!(matches!(action, Action::Respond));
    let (text, action) = step_reply(&mut s, "RMD /../x");
    assert_eq!(text, "553 Permission denied\r\n");
    assert!(matches!(action, Action::Respond));
    let (text, action) = step_reply(&mut s, "STOR ../x");
    assert_eq!(text, "550 Invalid path\r\n");
    assert!(matches!(action, Action::Respond));
    let (text, _) = step_reply(&mut s, "LIST ..");
    assert_eq!(text, "501 Permission denied\r\n");
    assert_eq!(s.current_dir(), "/");
}

#[test]
fn mkd_reports_creation_or_failure() {
    let mut s = Session::new("/srv".to_string());
    let (_, action) = step_reply(&mut s, "MKD new");
    assert!(matches!(action, Action::MakeDir(ref p) if p == "/srv/new"));
    assert_eq!(reply_text(&s.complete(Outcome::Done)), "257 Folder created\r\n");
    let _ = step_reply(&mut s, "MKD new");
    assert_eq!(reply_text(&s.complete(Outcome::Unavailable)), "550 Couldn't create folder\r\n");
    let _ = step_reply(&mut s, "MKD link");
    assert_eq!(reply_text(&s.complete(Outcome::Escaped)), "553 Permission denied\r\n");
    let (_, action) = step_reply(&mut s, "RMD new");
    assert!(matches!(action, Action::RemoveDir(ref p) if p == "/srv/new"));
    assert_eq!(reply_text(&s.complete(Outcome::Done)), "250 Folder removed\r\n");
}

#[test]
fn pasv_twice_keeps_the_first_channel() {
    let mut s = Session::new("/srv".to_string());
    let (text, action) = step_reply(&mut s, "PASV");
    assert_eq!(text, "");
    assert!(matches!(action, Action::Bind));
    assert_eq!(s.channel_state(), ChannelState::Listening);
    assert_eq!(
        reply_text(&s.passive_ready([127, 0, 0, 1], 43210)),
        "227 Entering Passive Mode (127,0,0,1,168,202)\r\n"
    );
    assert!(s.data_connected());
    assert_eq!(s.channel_state(), ChannelState::Connected);
    let (text, action) = step_reply(&mut s, "PASV");
    assert_eq!(text, "125 Already listening\r\n");
    assert!(matches!(action, Action::Respond));
    assert_eq!(s.channel_state(), ChannelState::Connected);
    let (text, action) = step_reply(&mut s, "STOR f.bin");
    assert_eq!(text, "150 Opening data connection\r\n");
    assert!(matches!(action, Action::Store(ref p) if p == "/srv/f.bin"));
    assert_eq!(s.channel_state(), ChannelState::Idle);
    assert_eq!(reply_text(&s.complete(Outcome::Done)), "226 Transfer complete\r\n");
    let (text, _) = step_reply(&mut s, "RETR f.bin");
    assert_eq!(text, "425 No data connection\r\n");
}

#[test]
fn passive_failures_reset_the_channel() {
    let mut s = Session::new("/srv".to_string());
    assert_eq!(reply_text(&s.passive_ready([127, 0, 0, 1], 2000)), "503 Bad sequence of commands\r\n");
    assert!(!s.data_connected());
    let _ = step_reply(&mut s, "PASV");
    assert_eq!(reply_text(&s.passive_failed()), "425 Can't open data connection\r\n");
    assert_eq!(s.channel_state(), ChannelState::Idle);
}

#[test]
fn transfers_release_the_channel_whatever_the_outcome() {
    let mut s = Session::new("/srv".to_string());
    let _ = step_reply(&mut s, "PASV");
    assert!(s.data_connected());
    let (_, action) = step_reply(&mut s, "RETR missing");
    assert!(matches!(action, Action::Retrieve(_)));
    assert_eq!(reply_text(&s.complete(Outcome::Unavailable)), "550 File unavailable\r\n");
    assert_eq!(s.channel_state(), ChannelState::Idle);
    let _ = step_reply(&mut s, "PASV");
    assert!(s.data_connected());
    let (_, action) = step_reply(&mut s, "STOR big");
    assert!(matches!(action, Action::Store(_)));
    assert_eq!(reply_text(&s.complete(Outcome::Interrupted)), "450 Transfer aborted\r\n");
    let _ = step_reply(&mut s, "PASV");
    assert!(s.data_connected());
    let (text, action) = step_reply(&mut s, "LIST");
    assert_eq!(text, "150 Opening data connection\r\n");
    assert!(matches!(action, Action::List(ref p) if p == "/srv"));
    assert_eq!(reply_text(&s.complete(Outcome::Done)), "226 Directory send OK\r\n");
    assert_eq!(s.channel_state(), ChannelState::Idle);
}

#[test]
fn errors_describe_themselves() {
    assert_eq!(Error::PathViolation.message(), "Permission denied");
    assert_eq!(Error::ProtocolExpectation(230).message(), "Expected reply 230");
    let e = Error::ExhaustedRetries(Box::new(Error::Msg("refused".to_string())));
    assert_eq!(e.message(), "Retries exhausted: refused");
    let carried = Error::Io(std::io::Error::new(std::io::ErrorKind::TimedOut, "too slow"));
    assert_eq!(carried.io_kind(), std::io::ErrorKind::TimedOut);
    assert_eq!(carried.message(), "too slow");
    let back = carried.to_io_error();
    assert_eq!(back.kind(), std::io::ErrorKind::TimedOut);
    assert_eq!(back.to_string(), "too slow");
    assert_eq!(Error::Parse(ParseError::BadAddress).io_kind(), std::io::ErrorKind::InvalidInput);
    let io = Error::PathViolation.to_io_error();
    assert_eq!(io.kind(), std::io::ErrorKind::PermissionDenied);
    assert_eq!(io.to_string(), "Permission denied");
    assert_eq!(Error::DataChannel.to_io_error().kind(), std::io::ErrorKind::NotConnected);
}

#[test]
fn add_sums() {
    assert_eq!(ftpsync::add(2, 2), 4);
}

fn through_data_codec(data: &[u8]) -> Vec<u8> {
    let mut codec = BytesCodec;
    let mut wire = BytesMut::new();
    codec.encode(data.to_vec(), &mut wire);
    codec.decode(&mut wire).unwrap_or_default()
}

#[test]
fn data_channel_bytes_round_trip() {
    assert_eq!(through_data_codec(b""), Vec::<u8>::new());
    assert_eq!(through_data_codec(b"x"), b"x".to_vec());
    let big: Vec<u8> = (0..5000u32).map(|i| (i * 7 % 251) as u8).collect();
    assert_eq!(through_data_codec(&big), big);
}

#[test]
fn verbs_are_named() {
    assert_eq!(parse("cwd a").unwrap().as_ref(), "CWD");
    assert_eq!(parse("xyz").unwrap().as_ref(), "UNKN");
    assert_eq!(Command::NoOp.as_ref(), "NOOP");
}

#[test]
fn transfer_types_from_bytes() {
    assert_eq!(TransferType::from_byte(b'A'), Some(TransferType::Ascii));
    assert_eq!(TransferType::from_byte(b'I'), Some(TransferType::Image));
    assert_eq!(TransferType::from_byte(b'a'), None);
    assert_eq!(TransferType::from_byte(b'E'), None);
}

#[test]
fn active_mode_serves_one_transfer() {
    let mut s = Session::new("/srv".to_string());
    let (_, action) = step_reply(&mut s, "PORT 10,0,0,5,19,137");
    assert!(matches!(action, Action::Connect(5001)));
    assert!(s.data_connected());
    let (text, action) = step_reply(&mut s, "PORT 10,0,0,5,19,138");
    assert_eq!(text, "200 Data port is now 5002\r\n");
    assert!(matches!(action, Action::Respond));
    let (text, action) = step_reply(&mut s, "RETR f");
    assert_eq!(text, "150 Opening data connection\r\n");
    assert!(matches!(action, Action::Retrieve(ref p) if p == "/srv/f"));
    assert_eq!(reply_text(&s.complete(Outcome::Done)), "226 Transfer complete\r\n");
    assert_eq!(s.channel_state(), ChannelState::Idle);
}

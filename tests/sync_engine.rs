use ftpsync::client::{
    expect_reply, parse_passive_reply, remote_dir_ready, reply_has_code, request_line, Exchange, Next, Operation, Stage,
};
use ftpsync::command::Verb;
use ftpsync::error::Error;
use ftpsync::listing::{format_listing, parse_listing, Entry};
use ftpsync::retry::{Decision, Retry, RetryPolicy};
use ftpsync::sync::{plan_download, plan_upload, Phase, SyncAction, SyncWalk};

fn file(name: &str, size: u64) -> Entry {
    Entry { name: name.to_string(), is_dir: false, size }
}

fn dir(name: &str) -> Entry {
    Entry { name: name.to_string(), is_dir: true, size: 4096 }
}

fn actions(items: &[ftpsync::sync::SyncItem]) -> Vec<SyncAction> {
    items.iter().map(|i| i.action).collect()
}

#[test]
fn listing_of_one_file_and_one_directory() {
    let text = format_listing(&vec![file("a.txt", 42), dir("b")]);
    let text = String::from_utf8(text).unwrap();
    let lines: Vec<&str> = text.split("\r\n").filter(|l| !l.is_empty()).collect();
    assert_eq!(lines.len(), 2);
    assert_eq!(lines[0], "FILE\t42\ta.txt");
    assert!(lines[1].starts_with("DIR\t"));
    assert!(lines[1].ends_with("\tb"));
    assert_eq!(text, "FILE\t42\ta.txt\r\nDIR\t4096\tb\r\n");
}

#[test]
fn empty_listing_is_empty() {
    assert!(format_listing(&Vec::new()).is_empty());
    assert!(parse_listing(b"").is_empty());
}

#[test]
fn listing_is_read_back() {
    let entries = parse_listing(b"FILE\t42\ta.txt\r\nDIR\t0\tb\r\nJUNK\t1\tc\r\nFILE\tx\td\r\nFILE\t7\te\n");
    assert_eq!(entries.len(), 3);
    assert_eq!(entries[0].name, "a.txt");
    assert!(!entries[0].is_dir);
    assert_eq!(entries[0].size, 42);
    assert_eq!(entries[1].name, "b");
    assert!(entries[1].is_dir);
    assert_eq!(entries[2].name, "e");
    assert_eq!(entries[2].size, 7);
    let again = parse_listing(&format_listing(&entries));
    assert_eq!(again.len(), 3);
    assert_eq!(again[2].name, "e");
}

#[test]
fn upload_plan_compares_sizes() {
    let local = vec![file("same", 5), file("changed", 6), file("new", 3), file("empty", 0), dir("d"), dir("e")];
    let remote = vec![file("same", 5), file("changed", 9), dir("d")];
    let plan = plan_upload(&local, &remote);
    assert_eq!(
        actions(&plan),
        vec![
            SyncAction::Skip,
            SyncAction::Upload,
            SyncAction::Upload,
            SyncAction::Skip,
            SyncAction::Skip,
            SyncAction::MkdirRemote
        ]
    );
    assert_eq!(plan[1].name, "changed");
}

#[test]
fn download_plan_fetches_missing_and_changed() {
    let local = vec![file("same", 5), file("changed", 6), dir("d")];
    let remote = vec![file("same", 5), file("changed", 9), file("only_remote", 0), dir("d"), dir("r")];
    let plan = plan_download(&local, &remote);
    assert_eq!(
        actions(&plan),
        vec![SyncAction::Skip, SyncAction::Download, SyncAction::Download, SyncAction::Skip, SyncAction::MkdirLocal]
    );
}

#[test]
fn converged_trees_plan_no_transfer() {
    let local = vec![file("a", 1), file("b", 20), dir("c")];
    let remote = vec![dir("c"), file("b", 20), file("a", 1)];
    assert!(actions(&plan_upload(&local, &remote)).iter().all(|a| *a == SyncAction::Skip));
    assert!(actions(&plan_download(&local, &remote)).iter().all(|a| *a == SyncAction::Skip));
}

#[test]
fn equal_sizes_count_as_in_sync() {
    let plan = plan_upload(&vec![file("a", 3)], &vec![file("a", 3)]);
    assert_eq!(actions(&plan), vec![SyncAction::Skip]);
}

fn run(policy: RetryPolicy, outcomes: Vec<Result<u32, Error>>) -> (Result<u32, Error>, Vec<u64>) {
    let mut retry = Retry::new(policy);
    let mut waits = Vec::new();
    for outcome in outcomes {
        match outcome {
            Ok(v) => return (Ok(v), waits),
            Err(e) => match retry.record_failure(e) {
                Decision::RetryAfter(ms) => waits.push(ms),
                Decision::GiveUp(err) => return (Err(err), waits),
            },
        }
    }
    panic!("ran out of outcomes");
}

#[test]
fn retry_succeeds_on_third_attempt() {
    let (r, waits) = run(
        RetryPolicy::standard(),
        vec![Err(Error::Msg("a".to_string())), Err(Error::Msg("b".to_string())), Ok(7)],
    );
    assert!(matches!(r, Ok(7)));
    assert_eq!(waits, vec![50, 50]);
}

#[test]
fn retry_gives_up_with_last_error() {
    let (r, waits) = run(
        RetryPolicy::new(3, 10),
        vec![
            Err(Error::Msg("a".to_string())),
            Err(Error::Msg("b".to_string())),
            Err(Error::Msg("c".to_string())),
            Ok(1),
        ],
    );
    match r {
        Err(Error::ExhaustedRetries(last)) => assert!(matches!(*last, Error::Msg(ref m) if m == "c")),
        other => panic!("{:?}", other),
    }
    assert_eq!(waits, vec![10, 10]);
}

#[test]
fn single_attempt_policy_gives_up_at_once() {
    let mut retry = Retry::new(RetryPolicy::new(1, 0));
    assert!(matches!(retry.record_failure(Error::TransferIo), Decision::GiveUp(Error::ExhaustedRetries(_))));
}

#[test]
fn requests_are_lines() {
    assert_eq!(request_line(Verb::User, Some("testuser")), b"USER testuser\r\n".to_vec());
    assert_eq!(request_line(Verb::Pasv, None), b"PASV\r\n".to_vec());
}

#[test]
fn replies_are_checked_by_code_prefix() {
    assert!(reply_has_code(b"230 Welcome", 230));
    assert!(!reply_has_code(b"530 no", 230));
    assert!(!reply_has_code(b"23", 230));
    assert!(expect_reply(b"150 Opening", 150).is_ok());
    assert!(matches!(expect_reply(b"425 No data connection", 150), Err(Error::ProtocolExpectation(150))));
    assert!(remote_dir_ready(b"257 Folder created"));
    assert!(remote_dir_ready(b"550 Couldn't create folder"));
    assert!(remote_dir_ready(b"553 Couldn't create directory"));
    assert!(!remote_dir_ready(b"530 Not logged in"));
}

#[test]
fn passive_replies_name_host_and_port() {
    let a = parse_passive_reply(b"227 Entering Passive Mode (192,168,1,20,168,202)\r\n").unwrap();
    assert_eq!(a.host, [192, 168, 1, 20]);
    assert_eq!(a.port, 43210);
    assert!(matches!(parse_passive_reply(b"425 Can't open"), Err(Error::ProtocolExpectation(227))));
    assert!(parse_passive_reply(b"227 (1,2,3,4,5)").is_err());
    assert!(parse_passive_reply(b"227 1,2,3,4,5,6").is_err());
}

fn sent(n: Next) -> Vec<u8> {
    match n {
        Next::Send(line) => line,
        other => panic!("{:?}", other),
    }
}

#[test]
fn upload_exchange_follows_the_protocol() {
    let mut x = Exchange::new(Operation::Upload("/d/f.txt".to_string()), "testuser".to_string());
    assert_eq!(sent(x.on_reply(b"220 Welcome to this FTP server!")), b"USER testuser\r\n".to_vec());
    assert_eq!(sent(x.on_reply(b"230 Welcome testuser!")), b"PASV\r\n".to_vec());
    match x.on_reply(b"227 Entering Passive Mode (127,0,0,1,168,202)") {
        Next::Connect(a, line) => {
            assert_eq!(a.host, [127, 0, 0, 1]);
            assert_eq!(a.port, 43210);
            assert_eq!(line, b"STOR /d/f.txt\r\n".to_vec());
        }
        other => panic!("{:?}", other),
    }
    assert!(matches!(x.on_reply(b"150 Opening data connection"), Next::Stream));
    assert!(matches!(x.on_reply(b"226 Transfer complete"), Next::Finished));
    assert_eq!(x.stage, Stage::Finished);
}

#[test]
fn list_exchange_changes_directory_first() {
    let mut x = Exchange::new(Operation::List("/d".to_string()), "u".to_string());
    let _ = x.on_reply(b"220 hi");
    assert_eq!(sent(x.on_reply(b"230 ok")), b"CWD /d\r\n".to_vec());
    assert_eq!(sent(x.on_reply(b"250 Directory changed")), b"PASV\r\n".to_vec());
    match x.on_reply(b"227 (10,0,0,2,4,1)") {
        Next::Connect(a, line) => {
            assert_eq!(a.port, 1025);
            assert_eq!(line, b"LIST\r\n".to_vec());
        }
        other => panic!("{:?}", other),
    }
}

#[test]
fn exchanges_fail_on_unexpected_replies() {
    let mut x = Exchange::new(Operation::Download("f".to_string()), "u".to_string());
    assert!(matches!(x.on_reply(b"421 busy"), Next::Failed(Error::ProtocolExpectation(220))));
    let mut y = Exchange::new(Operation::MakeDir("/d".to_string()), "u".to_string());
    let _ = y.on_reply(b"220 hi");
    assert_eq!(sent(y.on_reply(b"230 ok")), b"MKD /d\r\n".to_vec());
    assert!(matches!(y.on_reply(b"550 Couldn't create folder"), Next::Finished));
    let mut z = Exchange::new(Operation::MakeDir("/d".to_string()), "u".to_string());
    let _ = z.on_reply(b"220 hi");
    let _ = z.on_reply(b"230 ok");
    assert!(matches!(z.on_reply(b"530 Not logged in"), Next::Failed(Error::ProtocolExpectation(257))));
    let mut w = Exchange::new(Operation::MakeDir("/d".to_string()), "u".to_string());
    let _ = w.on_reply(b"220 hi");
    let _ = w.on_reply(b"230 ok");
    assert!(matches!(w.on_reply(b"553 Couldn't create directory"), Next::Finished));
}

#[test]
fn sync_walk_pushes_every_local_directory_before_pulling() {
    let mut walk = SyncWalk::new("/home/l".to_string(), "/r".to_string());
    assert_eq!(walk.next_dir(), Some(("/home/l".to_string(), "/r".to_string())));
    let plan = walk.visit("/home/l", "/r", &vec![file("a", 1), dir("sub")], &vec![]);
    assert_eq!(actions(&plan), vec![SyncAction::Upload, SyncAction::MkdirRemote]);
    assert_eq!(walk.phase, Phase::Push);
    assert_eq!(walk.next_dir(), Some(("/home/l/sub".to_string(), "/r/sub".to_string())));
    let plan = walk.visit("/home/l/sub", "/r/sub", &vec![], &vec![]);
    assert!(plan.is_empty());
    assert_eq!(walk.next_dir(), Some(("/home/l".to_string(), "/r".to_string())));
    assert_eq!(walk.phase, Phase::Pull);
    let plan = walk.visit("/home/l", "/r", &vec![file("a", 1)], &vec![file("a", 1), file("b", 2), dir("x")]);
    assert_eq!(actions(&plan), vec![SyncAction::Skip, SyncAction::Download, SyncAction::MkdirLocal]);
    assert_eq!(walk.next_dir(), Some(("/home/l/x".to_string(), "/r/x".to_string())));
    let _ = walk.visit("/home/l/x", "/r/x", &vec![], &vec![]);
    assert_eq!(walk.next_dir(), None);
    assert_eq!(walk.phase, Phase::Done);
    assert_eq!(walk.next_dir(), None);
}

use panorama::client::{ClientAuthenticated, ClientError, ClientUnauthenticated, Plain};
use panorama::codec::ImapCodec;
use panorama::command::{Command, FetchItems, SearchCriteria};
use panorama::engine::{Delivery, Client};
use panorama::parser::{parse_response, ParseError};
use panorama::response::{Capability, MailboxData, MailboxFlag, Response, Status};

fn resp(s: &str) -> Response {
    parse_response(s).unwrap()
}

fn greeted() -> Client {
    let mut e = Client::new();
    let (d, n) = e.receive(b"* OK hi\r\n").unwrap();
    assert!(matches!(d, Delivery::Unsolicited(_)));
    assert_eq!(n, 9);
    e
}

#[test]
fn tags_count_up_from_zero() {
    let mut e = Client::new();
    let (a, la) = e.execute(&Command::Capability);
    let (b, lb) = e.execute(&Command::Select { mailbox: "INBOX".to_owned() });
    let (c, _) = e.execute(&Command::Idle);
    assert_eq!((a, b, c), (0, 1, 2));
    assert_eq!(la, b"ptag0 CAPABILITY\r\n".to_vec());
    assert_eq!(lb, b"ptag1 SELECT INBOX\r\n".to_vec());
    assert_eq!(e.in_flight(), &vec![0, 1, 2]);
    let mut e2 = Client::new();
    for i in 0..12u64 {
        let (id, line) = e2.execute(&Command::Capability);
        assert_eq!(id, i);
        assert_eq!(line, format!("ptag{} CAPABILITY\r\n", i).into_bytes());
    }
}

#[test]
fn responses_go_to_the_oldest_command() {
    let mut e = greeted();
    let (a, _) = e.execute(&Command::Select { mailbox: "INBOX".to_owned() });
    let (b, _) = e.execute(&Command::UidSearch { criteria: SearchCriteria::All });
    match e.on_response(resp("* 18 EXISTS\r\n")) {
        Delivery::Intermediate(id, r) => {
            assert_eq!(id, a);
            assert_eq!(r, Response::MailboxData(MailboxData::Exists(18)));
        }
        _ => panic!("wrong delivery"),
    }
    match e.on_response(resp("ptag0 OK done\r\n")) {
        Delivery::Completed(id, d) => {
            assert_eq!(id, a);
            assert_eq!(d.tag, "ptag0");
        }
        _ => panic!("wrong delivery"),
    }
    match e.on_response(resp("* SEARCH 1 2\r\n")) {
        Delivery::Intermediate(id, _) => assert_eq!(id, b),
        _ => panic!("wrong delivery"),
    }
    match e.on_response(resp("ptag1 OK done\r\n")) {
        Delivery::Completed(id, _) => assert_eq!(id, b),
        _ => panic!("wrong delivery"),
    }
    assert!(e.in_flight().is_empty());
    assert!(matches!(e.on_response(resp("* 3 EXPUNGE\r\n")), Delivery::Unsolicited(_)));
}

#[test]
fn bye_closes_the_connection() {
    let mut e = greeted();
    e.execute(&Command::Capability);
    assert!(matches!(e.receive(b"* BYE gone\r\n"), Ok((Delivery::Closed(_), _))));
    assert!(e.is_closed());
}

#[test]
fn the_greeting_is_kept() {
    let mut e = Client::new();
    assert!(e.wait_for_greeting().is_none());
    assert_eq!(e.receive(b"* OK [CAPABILITY IMAP4rev1 STAR").unwrap_err(), ParseError::Incomplete);
    assert!(e.wait_for_greeting().is_none());
    let (id, _) = e.execute(&Command::Capability);
    let bytes = b"* OK [CAPABILITY IMAP4rev1 STARTTLS] ready\r\n* 2 EXISTS\r\n";
    let (d, n) = e.receive(bytes).unwrap();
    let expected = resp("* OK [CAPABILITY IMAP4rev1 STARTTLS] ready\r\n");
    match d {
        Delivery::Intermediate(i, r) => {
            assert_eq!(i, id);
            assert_eq!(r, expected);
        }
        _ => panic!("the greeting is routed too"),
    }
    assert_eq!(&bytes[n..], b"* 2 EXISTS\r\n");
    assert_eq!(e.wait_for_greeting(), Some(&expected));
    e.on_response(resp("* OK later\r\n"));
    e.on_response(resp("* 2 EXISTS\r\n"));
    assert_eq!(e.wait_for_greeting(), Some(&expected));
    // the greeting's capabilities are held
    assert_eq!(e.has_capability_named("starttls"), Ok(Some(true)));
    assert_eq!(e.has_capability_named("IDLE"), Ok(Some(false)));
    assert_eq!(e.has_capability_named("(bad)"), Err(ParseError::Malformed));
}

#[test]
fn capabilities_are_asked_for_once() {
    let mut e = greeted();
    assert_eq!(e.has_capability(&Capability::Imap4rev1), None);
    let (id, line) = e.capabilities(false).unwrap();
    assert_eq!(line, b"ptag0 CAPABILITY\r\n".to_vec());
    e.on_response(resp("* CAPABILITY IMAP4rev1 AUTH=PLAIN\r\n"));
    assert!(matches!(e.receive(b"ptag0 OK\r\n"), Ok((Delivery::Completed(i, _), 10)) if i == id));
    assert_eq!(e.receive(b"garbage\r\n").unwrap_err(), ParseError::Malformed);
    assert!(e.capabilities(false).is_none());
    assert!(e.capabilities(false).is_none());
    assert_eq!(e.has_capability(&Capability::Auth("PLAIN".to_owned())), Some(true));
    let (_, again) = e.capabilities(true).unwrap();
    assert_eq!(again, b"ptag1 CAPABILITY\r\n".to_vec());
    e.forget_capabilities();
    assert!(e.capabilities(false).is_some());
}

#[test]
fn idle_release_writes_done() {
    let mut e = greeted();
    let (token, line) = e.idle();
    assert_eq!(line, b"ptag0 IDLE\r\n".to_vec());
    assert_eq!(token.tag(), 0);
    assert_eq!(token.release(), b"DONE\r\n".to_vec());
}

#[test]
fn a_failed_write_leaves_nothing_in_flight() {
    let mut e = greeted();
    let (id, _) = e.execute(&Command::Capability);
    e.abandon(id);
    assert!(e.in_flight().is_empty());
}

#[test]
fn commands_as_written() {
    let login = Command::Login { username: "me".to_owned(), password: "p\"w\\d".to_owned() };
    assert_eq!(login.to_bytes(), b"LOGIN \"me\" \"p\\\"w\\\\d\"".to_vec());
    let list = Command::List { reference: "".to_owned(), mailbox: "*".to_owned() };
    assert_eq!(list.to_bytes(), b"LIST \"\" \"*\"".to_vec());
    let fetch = Command::UidFetch { uids: vec![1, 20, 300], items: FetchItems::All };
    assert_eq!(fetch.to_bytes(), b"UID FETCH 1,20,300 ALL".to_vec());
    let fetch = Command::Fetch { uids: vec![7], items: FetchItems::Fast };
    assert_eq!(fetch.to_bytes(), b"FETCH 7 FAST".to_vec());
    assert_eq!(Command::Search { criteria: SearchCriteria::All }.to_bytes(), b"SEARCH ALL".to_vec());
    assert_eq!(Command::Starttls.to_bytes(), b"STARTTLS".to_vec());
    assert_eq!(Command::Done.to_bytes(), b"DONE".to_vec());
    let full = Command::UidFetch { uids: vec![4294967295], items: FetchItems::Full };
    assert_eq!(full.to_bytes(), b"UID FETCH 4294967295 FULL".to_vec());
}

#[test]
fn codec_takes_one_response_at_a_time() {
    let mut codec = ImapCodec::default();
    let mut buf = b"* OK hi\r\n* 3 EXI".to_vec();
    let first = codec.decode(&mut buf).unwrap().unwrap();
    assert_eq!(first, resp("* OK hi\r\n"));
    assert_eq!(buf, b"* 3 EXI".to_vec());
    assert!(codec.decode(&mut buf).unwrap().is_none());
    assert_eq!(buf, b"* 3 EXI".to_vec());
    buf.extend_from_slice(b"STS\r\n");
    assert_eq!(codec.decode(&mut buf).unwrap().unwrap(), Response::MailboxData(MailboxData::Exists(3)));
    assert!(buf.is_empty());
    let mut early = b"\0 nonsense".to_vec();
    assert_eq!(codec.decode(&mut early).unwrap_err(), ParseError::Malformed);
    let mut bad = b"?? nonsense\r\n".to_vec();
    assert_eq!(codec.decode(&mut bad).unwrap_err(), ParseError::Malformed);
    assert_eq!(bad, b"?? nonsense\r\n".to_vec());
}

#[test]
fn starttls_needs_the_capability() {
    let mut c = ClientUnauthenticated::new(false);
    c.engine.receive(b"* OK hi\r\n").unwrap();
    assert!(matches!(c.upgrade(), Err(ClientError::CapabilitiesUnknown)));
    c.engine.capabilities(false);
    c.engine.on_response(resp("* CAPABILITY IMAP4rev1\r\n"));
    c.engine.on_response(resp("ptag0 OK\r\n"));
    assert!(matches!(c.upgrade(), Err(ClientError::CapabilityMissing)));
    c.engine.capabilities(true);
    c.engine.on_response(resp("* CAPABILITY IMAP4rev1 STARTTLS\r\n"));
    assert!(matches!(c.upgrade(), Err(ClientError::CommandsInFlight)));
    c.engine.on_response(resp("ptag1 OK\r\n"));
    let (id, line) = c.upgrade().unwrap().unwrap();
    assert_eq!(line, format!("ptag{} STARTTLS\r\n", id).into_bytes());
    let c = c.upgraded();
    assert!(c.encrypted);
    assert!(c.engine.in_flight().is_empty());
    assert_eq!(c.engine.wait_for_greeting(), Some(&resp("* OK hi\r\n")));
    let mut c = c;
    assert_eq!(c.engine.execute(&Command::Capability).0, 0);
    let mut enc = ClientUnauthenticated::new(true);
    assert!(matches!(enc.upgrade(), Ok(None)));
}

#[test]
fn login_succeeds_only_with_ok() {
    let plain = Plain { username: "u".to_owned(), password: "p".to_owned() };
    assert_eq!(plain.login_command().to_bytes(), b"LOGIN \"u\" \"p\"".to_vec());
    let done = |s: &str| match resp(s) {
        Response::Done(d) => d,
        _ => panic!("not done"),
    };
    let client = ClientUnauthenticated::new(true);
    let auth = Plain::perform_auth(client, Some(done("ptag0 OK logged in\r\n"))).unwrap();
    assert!(auth.encrypted);
    let client = ClientUnauthenticated::new(true);
    match Plain::perform_auth(client, Some(done("ptag0 NO bad password\r\n"))) {
        Err(ClientError::Rejected(d)) => assert_eq!(d.status, Status::No),
        _ => panic!("login should fail"),
    }
    let client = ClientUnauthenticated::new(true);
    assert!(matches!(Plain::perform_auth(client, None), Err(ClientError::NoCompletion)));
}

#[test]
fn authenticated_results() {
    let list = vec![
        resp("* LIST () \"/\" INBOX\r\n"),
        resp("* OK x\r\n"),
        resp("* LIST (\\Noselect) \"/\" Archive\r\n"),
    ];
    assert_eq!(ClientAuthenticated::list(&list), vec!["INBOX".to_owned(), "Archive".to_owned()]);

    let select = vec![
        resp("* 172 EXISTS\r\n"),
        resp("* 1 RECENT\r\n"),
        resp("* OK [UNSEEN 12] Message 12 is first unseen\r\n"),
        resp("* OK [UIDVALIDITY 3857529045] UIDs valid\r\n"),
        resp("* OK [UIDNEXT 4392] Predicted next UID\r\n"),
        resp("* FLAGS (\\Answered \\Flagged)\r\n"),
        resp("* 173 EXISTS\r\n"),
    ];
    let s = ClientAuthenticated::select(&select);
    assert_eq!(s.exists, Some(173));
    assert_eq!(s.recent, Some(1));
    assert_eq!(s.unseen, Some(12));
    assert_eq!(s.uid_validity, Some(3857529045));
    assert_eq!(s.uid_next, Some(4392));
    assert_eq!(s.flags, vec![MailboxFlag::Answered, MailboxFlag::Flagged]);

    let search = vec![resp("* OK x\r\n"), resp("* SEARCH 5 9\r\n"), resp("* SEARCH 1\r\n")];
    assert_eq!(ClientAuthenticated::uid_search(&search).unwrap(), vec![5, 9]);
    assert!(ClientAuthenticated::uid_search(&vec![resp("* OK x\r\n")]).is_err());

    assert!(ClientAuthenticated::uid_fetch(resp("* 1 EXISTS\r\n")).is_none());
    let (n, attrs) = ClientAuthenticated::uid_fetch(resp("* 4 FETCH (UID 10)\r\n")).unwrap();
    assert_eq!(n, 4);
    assert_eq!(attrs.len(), 1);
    assert_eq!(
        ClientAuthenticated::uid_fetch_command(&vec![1, 2]).to_bytes(),
        b"UID FETCH 1,2 ALL".to_vec()
    );
    assert_eq!(ClientAuthenticated::list_command().to_bytes(), b"LIST \"\" \"*\"".to_vec());
    let mut c = panorama::engine::Client::new();
    c.receive(b"* OK hi\r\n").unwrap();
    assert_eq!(c.next_tag(), 0);
    let (_, line) = c.execute(&ClientAuthenticated::list_command());
    assert_eq!(line, b"ptag0 LIST \"\" \"*\"\r\n".to_vec());
    assert_eq!(c.next_tag(), 1);
    assert_eq!(ClientAuthenticated::select_command("INBOX").to_bytes(), b"SELECT INBOX".to_vec());
}

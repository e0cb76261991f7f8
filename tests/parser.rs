use chrono::{DateTime as ChronoDateTime, FixedOffset, TimeZone};
use panorama::parser::{
    parse_capability, parse_date_time, parse_literal, parse_nil, parse_response,
    parse_streamed_response, parse_zone, ParseError,
};
use panorama::response::{
    Address, AttributeValue, BodySection, Capability, DateTime, Envelope, MailboxData,
    MailboxFlag, Response, ResponseCode, ResponseData, ResponseDone, Status, StatusAttribute,
};

fn to_chrono(d: &DateTime) -> ChronoDateTime<FixedOffset> {
    FixedOffset::east_opt(d.offset_seconds)
        .unwrap()
        .with_ymd_and_hms(d.year as i32, d.month, d.day, d.hour, d.minute, d.second)
        .unwrap()
}

#[test]
fn old_test_literal() {
    assert_eq!(parse_literal(b"{7}\r\nhellosu"), Ok(b"hellosu".to_vec()));
}

#[test]
fn tests_test_literal() {
    assert_eq!(parse_literal(b"{7}\r\nhellosu"), Ok(b"hellosu".to_vec()));
}

fn check_capabilities() {
    assert_eq!(parse_capability("IMAP4rev1"), Ok(Capability::Imap4rev1));
    assert_eq!(parse_capability("LOGINDISABLED"), Ok(Capability::Atom("LOGINDISABLED".to_owned())));
    assert_eq!(parse_capability("AUTH=PLAIN"), Ok(Capability::Auth("PLAIN".to_owned())));
    assert_eq!(parse_capability("auth=plain"), Ok(Capability::Auth("PLAIN".to_owned())));

    assert!(parse_capability("(OSU)").is_err());
    assert!(parse_capability("\x01HELLO").is_err());
}

#[test]
fn old_test_capability() {
    check_capabilities();
}

#[test]
fn tests_test_capability() {
    check_capabilities();
}

#[test]
fn old_test_nil() {
    assert!(parse_nil("NIL").is_ok());
    assert!(parse_nil("anything else").is_err());
}

#[test]
fn tests_test_nil() {
    assert!(parse_nil("NIL").is_ok());
    assert!(parse_nil("anything else").is_err());
}

#[test]
fn test_zone() {
    assert_eq!(parse_zone("+0000"), Ok(FixedOffset::east_opt(0).unwrap().local_minus_utc()));
    assert_eq!(parse_zone("-0200"), Ok(FixedOffset::west_opt(7200).unwrap().local_minus_utc()));
    assert_eq!(parse_zone("+0330"), Ok(FixedOffset::east_opt(12600).unwrap().local_minus_utc()));
}

#[test]
fn test_date_time() {
    let d = parse_date_time("\"17-Jul-1996 02:44:25 -0700\"").unwrap();
    assert_eq!(
        to_chrono(&d),
        ChronoDateTime::parse_from_rfc3339("1996-07-17T02:44:25-07:00").unwrap()
    );
}

fn check_section_8() {
    // the exchange of section 8 of RFC 3501
    assert_eq!(
        parse_response("* OK IMAP4rev1 Service Ready\r\n"),
        Ok(Response::Data(ResponseData {
            status: Status::OK,
            code: None,
            information: Some("IMAP4rev1 Service Ready".to_owned()),
        }))
    );

    assert_eq!(
        parse_response("a001 OK LOGIN completed\r\n"),
        Ok(Response::Done(ResponseDone {
            tag: "a001".to_owned(),
            status: Status::OK,
            code: None,
            information: Some("LOGIN completed".to_owned()),
        }))
    );

    assert_eq!(
        parse_response("* 18 EXISTS\r\n"),
        Ok(Response::MailboxData(MailboxData::Exists(18)))
    );

    assert_eq!(
        parse_response("* FLAGS (\\Answered \\Flagged \\Deleted \\Seen \\Draft)\r\n"),
        Ok(Response::MailboxData(MailboxData::Flags(vec![
            MailboxFlag::Answered,
            MailboxFlag::Flagged,
            MailboxFlag::Deleted,
            MailboxFlag::Seen,
            MailboxFlag::Draft,
        ])))
    );

    assert_eq!(
        parse_response("* 2 RECENT\r\n"),
        Ok(Response::MailboxData(MailboxData::Recent(2)))
    );

    assert_eq!(
        parse_response("* OK [UNSEEN 17] Message 17 is the first unseen message\r\n"),
        Ok(Response::Data(ResponseData {
            status: Status::OK,
            code: Some(ResponseCode::Unseen(17)),
            information: Some("Message 17 is the first unseen message".to_owned()),
        }))
    );

    assert_eq!(
        parse_response("* OK [UIDVALIDITY 3857529045] UIDs valid\r\n"),
        Ok(Response::Data(ResponseData {
            status: Status::OK,
            code: Some(ResponseCode::UidValidity(3857529045)),
            information: Some("UIDs valid".to_owned()),
        }))
    );

    assert_eq!(
        parse_response("a002 OK [READ-WRITE] SELECT completed\r\n"),
        Ok(Response::Done(ResponseDone {
            tag: "a002".to_owned(),
            status: Status::OK,
            code: Some(ResponseCode::ReadWrite),
            information: Some("SELECT completed".to_owned()),
        }))
    );
}

fn address(name: Option<&str>, mailbox: &str, host: &str) -> Address {
    Address {
        name: name.map(|s| s.to_owned()),
        adl: None,
        mailbox: Some(mailbox.to_owned()),
        host: Some(host.to_owned()),
    }
}

#[test]
fn old_test_section_8() {
    check_section_8();
}

#[test]
fn tests_test_section_8() {
    check_section_8();

    let line = [
        r#"* 12 FETCH (FLAGS (\Seen) INTERNALDATE "17-Jul-1996 02:44:25 -0700" RFC822.SIZE 4286 ENVELOPE ("Wed, 17 Jul 1996 02:23:25 -0700 (PDT)" "IMAP4rev1 WG mtg summary and minutes" (("Terry Gray" NIL "gray" "cac.washington.edu")) (("Terry Gray" NIL "gray" "cac.washington.edu")) (("Terry Gray" NIL "gray" "cac.washington.edu")) ((NIL NIL "imap" "cac.washington.edu")) ((NIL NIL "minutes" "CNRI.Reston.VA.US")("John Klensin" NIL "KLENSIN" "MIT.EDU")) NIL NIL "<B27397-0100000@cac.washington.edu>") BODY ("TEXT" "PLAIN" ("CHARSET" "US-ASCII") NIL NIL "7BIT" 302892))"#,
        "\r\n",
    ]
    .concat();
    let parsed = parse_response(&line).unwrap();
    let attrs = match parsed {
        Response::Fetch(12, attrs) => attrs,
        other => panic!("not a fetch: {:?}", other),
    };
    assert_eq!(attrs.len(), 5);
    assert_eq!(attrs[0], AttributeValue::Flags(vec![MailboxFlag::Seen]));
    match &attrs[1] {
        AttributeValue::InternalDate(d) => assert_eq!(
            to_chrono(d),
            ChronoDateTime::parse_from_rfc3339("1996-07-17T02:44:25-07:00").unwrap()
        ),
        other => panic!("not a date: {:?}", other),
    }
    assert_eq!(attrs[2], AttributeValue::Rfc822Size(4286));
    let gray = address(Some("Terry Gray"), "gray", "cac.washington.edu");
    assert_eq!(
        attrs[3],
        AttributeValue::Envelope(Envelope {
            date: Some("Wed, 17 Jul 1996 02:23:25 -0700 (PDT)".to_owned()),
            subject: Some("IMAP4rev1 WG mtg summary and minutes".to_owned()),
            from: Some(vec![gray.clone()]),
            sender: Some(vec![gray.clone()]),
            reply_to: Some(vec![gray]),
            to: Some(vec![address(None, "imap", "cac.washington.edu")]),
            cc: Some(vec![
                address(None, "minutes", "CNRI.Reston.VA.US"),
                address(Some("John Klensin"), "KLENSIN", "MIT.EDU"),
            ]),
            bcc: None,
            in_reply_to: None,
            message_id: Some("<B27397-0100000@cac.washington.edu>".to_owned()),
        })
    );
    assert_eq!(
        attrs[4],
        AttributeValue::BodySection(BodySection { section: None, index: None, data: None })
    );
}

#[test]
fn literal_holds_any_bytes() {
    let raw: Vec<u8> = vec![b'\r', b'\n', 0, 0xff, b'}', b'"'];
    let mut enc = format!("{{{}}}\r\n", raw.len()).into_bytes();
    enc.extend_from_slice(&raw);
    assert_eq!(parse_literal(&enc), Ok(raw));
    assert_eq!(parse_literal(b"{0}\r\n"), Ok(vec![]));
    assert!(parse_literal(b"{5}\r\nabc").is_err());
    assert!(parse_literal(b"{x}\r\nabc").is_err());
}

#[test]
fn streamed_parse_waits_for_the_whole_response() {
    assert_eq!(parse_streamed_response(b"* OK Serv").unwrap_err(), ParseError::Incomplete);
    assert_eq!(parse_streamed_response(b"* OK ready\r").unwrap_err(), ParseError::Incomplete);
    assert_eq!(parse_streamed_response(b"").unwrap_err(), ParseError::Incomplete);
    // a literal that the buffer holds only part of
    let partial = b"* 1 FETCH (RFC822 {10}\r\nabc";
    assert_eq!(parse_streamed_response(partial).unwrap_err(), ParseError::Incomplete);
    let whole = b"* 1 FETCH (RFC822 {10}\r\nab\r\ncd\r\nef)\r\n* 2 EXISTS\r\n";
    let (resp, n) = parse_streamed_response(whole).unwrap();
    assert_eq!(
        resp,
        Response::Fetch(1, vec![AttributeValue::Rfc822(Some(b"ab\r\ncd\r\nef".to_vec()))])
    );
    assert_eq!(&whole[n..], b"* 2 EXISTS\r\n");
}

#[test]
fn braces_in_text_are_text() {
    let both = b"* OK {5\r\n* OK\r\n";
    let (first, n) = parse_streamed_response(both).unwrap();
    assert_eq!(n, 9);
    assert_eq!(parse_streamed_response(&both[..n]), Ok((first, n)));
    assert_eq!(
        parse_response("* OK {5\r\n"),
        Ok(Response::Data(ResponseData {
            status: Status::OK,
            code: None,
            information: Some("{5".to_owned()),
        }))
    );
    assert!(parse_response("* OK {5}x\r\n").is_ok());
    assert_eq!(parse_streamed_response(b"* OK {5}").unwrap_err(), ParseError::Incomplete);
}

#[test]
fn literal_counts_beyond_32_bits() {
    // a count above 2^32 is a count like any other: the buffer just does not hold it yet
    assert_eq!(
        parse_streamed_response(b"* 1 FETCH (RFC822 {99999999999}\r\nabc").unwrap_err(),
        ParseError::Incomplete
    );
}

#[test]
fn malformed_input_is_an_error() {
    assert_eq!(parse_streamed_response(b"* WHATEVER x\r\n").unwrap_err(), ParseError::Malformed);
    assert_eq!(parse_streamed_response(b"* 99999999999 EXISTS\r\n").unwrap_err(), ParseError::Malformed);
    assert_eq!(
        parse_streamed_response(b"* 1 FETCH (RFC822 {99999999999999999999999}\r\n").unwrap_err(),
        ParseError::Malformed
    );
    // bytes that cannot begin a response are malformed before any line ends
    assert_eq!(parse_streamed_response(b"\0abc").unwrap_err(), ParseError::Malformed);
    assert_eq!(parse_streamed_response(b"*X").unwrap_err(), ParseError::Malformed);
    assert_eq!(parse_streamed_response(b"\r\n").unwrap_err(), ParseError::Malformed);
    assert_eq!(parse_streamed_response(b"* OK a\0b").unwrap_err(), ParseError::Malformed);
    assert_eq!(parse_streamed_response(b"*").unwrap_err(), ParseError::Incomplete);
    assert_eq!(parse_response("a1 PREAUTH done\r\n"), Err(ParseError::Malformed));
    assert_eq!(parse_response("* OK x\r\n* OK y\r\n"), Err(ParseError::Malformed));
}

#[test]
fn status_responses_of_every_kind() {
    assert_eq!(
        parse_response("* BYE logging out\r\n"),
        Ok(Response::Data(ResponseData {
            status: Status::Bye,
            code: None,
            information: Some("logging out".to_owned()),
        }))
    );
    assert_eq!(
        parse_response("* PREAUTH [ALERT] hi\r\n"),
        Ok(Response::Data(ResponseData {
            status: Status::PreAuth,
            code: Some(ResponseCode::Alert),
            information: Some("hi".to_owned()),
        }))
    );
    assert_eq!(
        parse_response("ptag3 no [TRYCREATE]\r\n"),
        Ok(Response::Done(ResponseDone {
            tag: "ptag3".to_owned(),
            status: Status::No,
            code: Some(ResponseCode::TryCreate),
            information: None,
        }))
    );
    assert_eq!(
        parse_response("x BAD\r\n"),
        Ok(Response::Done(ResponseDone {
            tag: "x".to_owned(),
            status: Status::Bad,
            code: None,
            information: None,
        }))
    );
    assert_eq!(
        parse_response("+ idling\r\n"),
        Ok(Response::Continue { code: None, information: Some("idling".to_owned()) })
    );
    assert_eq!(
        parse_response("* OK [X-THING a b] text\r\n"),
        Ok(Response::Data(ResponseData {
            status: Status::OK,
            code: Some(ResponseCode::Other("X-THING".to_owned(), Some("a b".to_owned()))),
            information: Some("text".to_owned()),
        }))
    );
    assert_eq!(
        parse_response("* OK [HIGHESTMODSEQ 18446744073709551615] m\r\n"),
        Ok(Response::Data(ResponseData {
            status: Status::OK,
            code: Some(ResponseCode::HighestModSeq(u64::MAX)),
            information: Some("m".to_owned()),
        }))
    );
    // text that is not ASCII is read as UTF-8
    assert_eq!(
        parse_response("* OK h\u{e9}llo\r\n"),
        Ok(Response::Data(ResponseData {
            status: Status::OK,
            code: None,
            information: Some("h\u{e9}llo".to_owned()),
        }))
    );
    assert_eq!(parse_streamed_response(b"* OK h\xffllo\r\n").unwrap_err(), ParseError::Malformed);
}

#[test]
fn capability_data() {
    assert_eq!(
        parse_response("* CAPABILITY IMAP4rev1 STARTTLS auth=plain LOGINDISABLED\r\n"),
        Ok(Response::Capabilities(vec![
            Capability::Imap4rev1,
            Capability::Atom("STARTTLS".to_owned()),
            Capability::Auth("PLAIN".to_owned()),
            Capability::Atom("LOGINDISABLED".to_owned()),
        ]))
    );
    assert_eq!(
        parse_response("* OK [CAPABILITY IMAP4rev1 IDLE] ready\r\n"),
        Ok(Response::Data(ResponseData {
            status: Status::OK,
            code: Some(ResponseCode::Capabilities(vec![
                Capability::Imap4rev1,
                Capability::Atom("IDLE".to_owned()),
            ])),
            information: Some("ready".to_owned()),
        }))
    );
    assert_eq!(
        parse_response("* OK [PERMANENTFLAGS (\\Deleted \\Seen \\*)] Limited\r\n"),
        Ok(Response::Data(ResponseData {
            status: Status::OK,
            code: Some(ResponseCode::PermanentFlags(vec![
                "\\Deleted".to_owned(),
                "\\Seen".to_owned(),
                "\\*".to_owned(),
            ])),
            information: Some("Limited".to_owned()),
        }))
    );
}

#[test]
fn mailbox_data() {
    assert_eq!(
        parse_response("* LIST (\\HasNoChildren) \"/\" INBOX\r\n"),
        Ok(Response::MailboxData(MailboxData::List {
            flags: vec!["\\HasNoChildren".to_owned()],
            delimiter: Some("/".to_owned()),
            name: "INBOX".to_owned(),
        }))
    );
    assert_eq!(
        parse_response("* LIST () NIL \"Sent \\\"Items\\\"\"\r\n"),
        Ok(Response::MailboxData(MailboxData::List {
            flags: vec![],
            delimiter: None,
            name: "Sent \"Items\"".to_owned(),
        }))
    );
    assert_eq!(
        parse_response("* SEARCH 2 84 882\r\n"),
        Ok(Response::MailboxData(MailboxData::Search(vec![2, 84, 882])))
    );
    assert_eq!(parse_response("* SEARCH\r\n"), Ok(Response::MailboxData(MailboxData::Search(vec![]))));
    assert_eq!(parse_response("* 44 EXPUNGE\r\n"), Ok(Response::Expunge(44)));
    assert_eq!(
        parse_response("* STATUS blurdybloop (MESSAGES 231 UIDNEXT 44292 HIGHESTMODSEQ 7011231777)\r\n"),
        Ok(Response::MailboxData(MailboxData::Status {
            mailbox: "blurdybloop".to_owned(),
            status: vec![
                StatusAttribute::Messages(231),
                StatusAttribute::UidNext(44292),
                StatusAttribute::HighestModSeq(7011231777),
            ],
        }))
    );
    assert_eq!(
        parse_response("* STATUS \"a b\" ()\r\n"),
        Ok(Response::MailboxData(MailboxData::Status { mailbox: "a b".to_owned(), status: vec![] }))
    );
    assert!(parse_response("* STATUS x (MESSAGES 4294967296)\r\n").is_err());
}

#[test]
fn fetch_attributes() {
    assert_eq!(
        parse_response("* 3 FETCH (UID 77 MODSEQ (12) FLAGS (\\Recent $Junk) X-GM-LABELS (\"a\" b) BODY[HEADER]<0> {3}\r\nabc)\r\n"),
        Ok(Response::Fetch(
            3,
            vec![
                AttributeValue::Uid(77),
                AttributeValue::ModSeq(12),
                AttributeValue::Flags(vec![MailboxFlag::Recent, MailboxFlag::Ext("$Junk".to_owned())]),
                AttributeValue::Unparsed("X-GM-LABELS".to_owned()),
                AttributeValue::BodySection(BodySection {
                    section: Some(panorama::response::SectionPath::Full(
                        panorama::response::MessageSection::Header
                    )),
                    index: Some(0),
                    data: Some(b"abc".to_vec()),
                }),
            ]
        ))
    );
}

#[test]
fn dates_must_exist() {
    assert!(parse_date_time("\"29-Feb-2020 00:00:00 +0000\"").is_ok());
    assert!(parse_date_time("\"29-Feb-2019 00:00:00 +0000\"").is_err());
    assert!(parse_date_time("\"31-Apr-2021 00:00:00 +0000\"").is_err());
    assert!(parse_date_time("\"17-Jul-1996 24:44:25 -0700\"").is_err());
    let d = parse_date_time("\" 1-jan-2000 23:59:59 +0530\"").unwrap();
    assert_eq!(
        d,
        DateTime { year: 2000, month: 1, day: 1, hour: 23, minute: 59, second: 59, offset_seconds: 19800 }
    );
    assert!(parse_zone("+2400").is_err());
    assert!(parse_zone("0000").is_err());
}

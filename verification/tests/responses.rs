use imap_proto::parse_response;
use imap_proto::parser::base::{Needed, ParseError};
use imap_proto::parser::bodystructure::BodyStructParser;
use imap_proto::parser::response::response_data;
use imap_proto::parser::rfc3501::mailbox;
use imap_proto::types::acls::{Acl, AclEntry, AclRight, ListRights, MyRights};
use imap_proto::types::{
    AttributeValue, BodyStructure, Capability, MailboxDatum, MessageSection, NameAttribute,
    Response, ResponseCode, SectionPath, Status, StatusAttribute,
};

fn s(x: &str) -> String {
    x.to_string()
}

fn all_rights() -> Vec<AclRight> {
    vec![
        AclRight::Lookup,
        AclRight::Read,
        AclRight::Seen,
        AclRight::Write,
        AclRight::Insert,
        AclRight::Post,
        AclRight::CreateMailbox,
        AclRight::DeleteMailbox,
        AclRight::DeleteMessage,
        AclRight::Expunge,
        AclRight::OldCreate,
        AclRight::OldDelete,
        AclRight::Administer,
        AclRight::Annotation,
    ]
}

#[test]
fn test_mailbox_data_response() {
    match parse_response(b"* LIST (\\HasNoChildren) \".\" INBOX.Tests\r\n") {
        Ok((_, Response::MailboxData(_))) => {}
        rsp => panic!("unexpected response {:?}", rsp),
    }
}

#[test]
fn test_name_attributes() {
    match parse_response(
        b"* LIST (\\Noinferiors \\Noselect \\Marked \\Unmarked \\All \\Archive \\Drafts \\Flagged \\Junk \\Sent \\Trash \\Foobar) \".\" INBOX.Tests\r\n",
    ) {
        Ok((_, Response::MailboxData(MailboxDatum::List { name_attributes, .. }))) => {
            assert_eq!(
                name_attributes,
                vec![
                    NameAttribute::NoInferiors,
                    NameAttribute::NoSelect,
                    NameAttribute::Marked,
                    NameAttribute::Unmarked,
                    NameAttribute::All,
                    NameAttribute::Archive,
                    NameAttribute::Drafts,
                    NameAttribute::Flagged,
                    NameAttribute::Junk,
                    NameAttribute::Sent,
                    NameAttribute::Trash,
                    NameAttribute::Extension(s("\\Foobar")),
                ]
            );
        }
        rsp => panic!("unexpected response {:?}", rsp),
    }
}

#[test]
fn test_acl_response() {
    match parse_response(b"* ACL INBOX user lrswipkxtecdan\r\n") {
        Ok((_, Response::Acl(_))) => {}
        rsp => panic!("unexpected response {:?}", rsp),
    }
}

#[test]
fn test_acl_attributes() {
    match parse_response(b"* ACL INBOX\r\n") {
        Ok((_, Response::Acl(acl))) => {
            assert_eq!(acl, Acl { mailbox: s("INBOX"), acls: vec![] })
        }
        rsp => panic!("unexpected response {:?}", rsp),
    }
    match parse_response(b"* ACL INBOX user lrswipkxtecdan\r\n") {
        Ok((_, Response::Acl(acl))) => assert_eq!(
            acl,
            Acl {
                mailbox: s("INBOX"),
                acls: vec![AclEntry { identifier: s("user"), rights: all_rights() }],
            }
        ),
        rsp => panic!("unexpected response {:?}", rsp),
    }
    match parse_response(b"* ACL INBOX user lr0123\r\n") {
        Ok((_, Response::Acl(acl))) => assert_eq!(
            acl,
            Acl {
                mailbox: s("INBOX"),
                acls: vec![AclEntry {
                    identifier: s("user"),
                    rights: vec![
                        AclRight::Lookup,
                        AclRight::Read,
                        AclRight::Custom('0'),
                        AclRight::Custom('1'),
                        AclRight::Custom('2'),
                        AclRight::Custom('3'),
                    ],
                }],
            }
        ),
        rsp => panic!("unexpected response {:?}", rsp),
    }
    match parse_response(b"* ACL INBOX user lrswipkxtecdan user2 lr\r\n") {
        Ok((_, Response::Acl(acl))) => assert_eq!(
            acl,
            Acl {
                mailbox: s("INBOX"),
                acls: vec![
                    AclEntry { identifier: s("user"), rights: all_rights() },
                    AclEntry {
                        identifier: s("user2"),
                        rights: vec![AclRight::Lookup, AclRight::Read],
                    },
                ],
            }
        ),
        rsp => panic!("unexpected response {:?}", rsp),
    }
    match parse_response(b"* ACL \"My folder\" user lrswipkxtecdan\r\n") {
        Ok((_, Response::Acl(acl))) => assert_eq!(
            acl,
            Acl {
                mailbox: s("My folder"),
                acls: vec![AclEntry { identifier: s("user"), rights: all_rights() }],
            }
        ),
        rsp => panic!("unexpected response {:?}", rsp),
    }
    match parse_response(b"* ACL Trash \"user name\" lrswipkxtecdan\r\n") {
        Ok((_, Response::Acl(acl))) => assert_eq!(
            acl,
            Acl {
                mailbox: s("Trash"),
                acls: vec![AclEntry { identifier: s("user name"), rights: all_rights() }],
            }
        ),
        rsp => panic!("unexpected response {:?}", rsp),
    }
}

#[test]
fn test_list_rights_response() {
    match parse_response(b"* LISTRIGHTS INBOX user lkxca r s w i p t e d n\r\n") {
        Ok((_, Response::ListRights(_))) => {}
        rsp => panic!("unexpected response {:?}", rsp),
    }
}

#[test]
fn test_list_rights_attributes() {
    match parse_response(b"* LISTRIGHTS INBOX user \"\"\r\n") {
        Ok((_, Response::ListRights(rights))) => assert_eq!(
            rights,
            ListRights {
                mailbox: s("INBOX"),
                identifier: s("user"),
                required: vec![],
                optional: vec![],
            }
        ),
        rsp => panic!("unexpected response {:?}", rsp),
    }
    match parse_response(b"* LISTRIGHTS INBOX user \"\" l k x c\r\n") {
        Ok((_, Response::ListRights(rights))) => assert_eq!(
            rights,
            ListRights {
                mailbox: s("INBOX"),
                identifier: s("user"),
                required: vec![],
                optional: vec![
                    AclRight::Lookup,
                    AclRight::CreateMailbox,
                    AclRight::DeleteMailbox,
                    AclRight::OldCreate,
                ],
            }
        ),
        rsp => panic!("unexpected response {:?}", rsp),
    }
    match parse_response(b"* LISTRIGHTS INBOX user lkr x c\r\n") {
        Ok((_, Response::ListRights(rights))) => assert_eq!(
            rights,
            ListRights {
                mailbox: s("INBOX"),
                identifier: s("user"),
                required: vec![AclRight::Lookup, AclRight::CreateMailbox, AclRight::Read],
                optional: vec![AclRight::DeleteMailbox, AclRight::OldCreate],
            }
        ),
        rsp => panic!("unexpected response {:?}", rsp),
    }
    match parse_response(b"* LISTRIGHTS INBOX user lkr\r\n") {
        Ok((_, Response::ListRights(rights))) => assert_eq!(
            rights,
            ListRights {
                mailbox: s("INBOX"),
                identifier: s("user"),
                required: vec![AclRight::Lookup, AclRight::CreateMailbox, AclRight::Read],
                optional: vec![],
            }
        ),
        rsp => panic!("unexpected response {:?}", rsp),
    }
    match parse_response(b"* LISTRIGHTS \"My Folder\" user lkr x c\r\n") {
        Ok((_, Response::ListRights(rights))) => assert_eq!(
            rights,
            ListRights {
                mailbox: s("My Folder"),
                identifier: s("user"),
                required: vec![AclRight::Lookup, AclRight::CreateMailbox, AclRight::Read],
                optional: vec![AclRight::DeleteMailbox, AclRight::OldCreate],
            }
        ),
        rsp => panic!("unexpected response {:?}", rsp),
    }
}

#[test]
fn test_my_rights_response() {
    match parse_response(b"* MYRIGHTS INBOX lkxca\r\n") {
        Ok((_, Response::MyRights(_))) => {}
        rsp => panic!("unexpected response {:?}", rsp),
    }
}

#[test]
fn test_my_rights_attributes() {
    match parse_response(b"* MYRIGHTS INBOX lkr\r\n") {
        Ok((_, Response::MyRights(rights))) => assert_eq!(
            rights,
            MyRights {
                mailbox: s("INBOX"),
                rights: vec![AclRight::Lookup, AclRight::CreateMailbox, AclRight::Read],
            }
        ),
        rsp => panic!("unexpected response {:?}", rsp),
    }
    match parse_response(b"* MYRIGHTS \"My Folder\" lkr\r\n") {
        Ok((_, Response::MyRights(rights))) => assert_eq!(
            rights,
            MyRights {
                mailbox: s("My Folder"),
                rights: vec![AclRight::Lookup, AclRight::CreateMailbox, AclRight::Read],
            }
        ),
        rsp => panic!("unexpected response {:?}", rsp),
    }
}

fn check_number_overflow() {
    match parse_response(b"* 2222222222222222222222222222222222222222222C\r\n") {
        Err(_) => {}
        _ => panic!("error required for integer overflow"),
    }
}

#[test]
fn tests_test_number_overflow() {
    check_number_overflow();
}

#[test]
fn parser_test_number_overflow() {
    check_number_overflow();
}

#[test]
fn rfc3501_test_number_overflow() {
    check_number_overflow();
}

#[test]
fn mod_test_number_overflow() {
    check_number_overflow();
}

fn check_unseen() {
    match parse_response(b"* OK [UNSEEN 3] Message 3 is first unseen\r\n").unwrap() {
        (
            _,
            Response::Data {
                status: Status::Okay,
                code: Some(ResponseCode::Unseen(3)),
                information: Some(info),
            },
        ) if info == "Message 3 is first unseen" => {}
        rsp => panic!("unexpected response {:?}", rsp),
    }
}

#[test]
fn tests_test_unseen() {
    check_unseen();
}

#[test]
fn parser_test_unseen() {
    check_unseen();
}

#[test]
fn rfc3501_test_unseen() {
    check_unseen();
}

#[test]
fn mod_test_unseen() {
    check_unseen();
}

fn check_body_text() {
    match parse_response(b"* 2 FETCH (BODY[TEXT] {3}\r\nfoo)\r\n") {
        Ok((_, Response::Fetch(_, attrs))) => {
            let body = &attrs[0];
            assert_eq!(
                body,
                &AttributeValue::BodySection {
                    section: Some(SectionPath::Full(MessageSection::Text)),
                    index: None,
                    data: Some(b"foo".to_vec()),
                },
                "body = {:?}",
                body
            );
        }
        rsp => panic!("unexpected response {:?}", rsp),
    }
}

#[test]
fn tests_test_body_text() {
    check_body_text();
}

#[test]
fn parser_test_body_text() {
    check_body_text();
}

#[test]
fn rfc3501_test_body_text() {
    check_body_text();
}

#[test]
fn mod_test_body_text() {
    check_body_text();
}

fn check_body_structure() {
    const RESPONSE: &[u8] = b"* 15 FETCH (BODYSTRUCTURE (\"TEXT\" \"PLAIN\" (\"CHARSET\" \"iso-8859-1\") NIL NIL \"QUOTED-PRINTABLE\" 1315 42 NIL NIL NIL NIL))\r\n";
    match parse_response(RESPONSE) {
        Ok((_, Response::Fetch(_, attrs))) => {
            let body = &attrs[0];
            assert!(matches!(*body, AttributeValue::BodyStructure(_)), "body = {:?}", body);
        }
        rsp => panic!("unexpected response {:?}", rsp),
    }
}

#[test]
fn tests_test_body_structure() {
    check_body_structure();
}

#[test]
fn mod_test_body_structure() {
    check_body_structure();
}

fn check_status_first() {
    match parse_response(b"* STATUS blurdybloop (MESSAGES 231 UIDNEXT 44292)\r\n") {
        Ok((_, Response::MailboxData(MailboxDatum::Status { mailbox, status }))) => {
            assert_eq!(mailbox, "blurdybloop");
            assert_eq!(
                status,
                [StatusAttribute::Messages(231), StatusAttribute::UidNext(44292)]
            );
        }
        rsp => panic!("unexpected response {:?}", rsp),
    }
}

#[test]
fn tests_test_status() {
    check_status_first();
    match parse_response(b"* STATUS Sent (UIDNEXT 107) \r\n") {
        Ok((_, Response::MailboxData(MailboxDatum::Status { mailbox, status }))) => {
            assert_eq!(mailbox, "Sent");
            assert_eq!(status, [StatusAttribute::UidNext(107)]);
        }
        rsp => panic!("unexpected response {:?}", rsp),
    }
    match parse_response(b"* STATUS \"INBOX\" ()\r\n") {
        Ok((_, Response::MailboxData(MailboxDatum::Status { mailbox, status }))) => {
            assert_eq!(mailbox, "INBOX");
            assert_eq!(status, []);
        }
        rsp => panic!("unexpected response {:?}", rsp),
    }
}

#[test]
fn parser_test_status() {
    check_status_first();
}

#[test]
fn rfc3501_test_status() {
    check_status_first();
}

#[test]
fn mod_test_status() {
    check_status_first();
}

fn check_notify() {
    match parse_response(b"* 3501 EXPUNGE\r\n") {
        Ok((_, Response::Expunge(3501))) => {}
        rsp => panic!("unexpected response {:?}", rsp),
    }
    match parse_response(b"* 3501 EXISTS\r\n") {
        Ok((_, Response::MailboxData(MailboxDatum::Exists(3501)))) => {}
        rsp => panic!("unexpected response {:?}", rsp),
    }
    match parse_response(b"+ idling\r\n") {
        Ok((_, Response::Continue { code: None, information: Some(info) })) if info == "idling" => {}
        rsp => panic!("unexpected response {:?}", rsp),
    }
}

#[test]
fn tests_test_notify() {
    check_notify();
}

#[test]
fn rfc3501_test_notify() {
    check_notify();
}

#[test]
fn mod_test_notify() {
    check_notify();
}

fn check_search(responses: &[&str]) {
    for empty_response in &responses[..responses.len() / 2] {
        match parse_response(empty_response.as_bytes()) {
            Ok((_, Response::MailboxData(MailboxDatum::Search(ids)))) => {
                assert!(ids.is_empty());
            }
            rsp => panic!("unexpected response {:?}", rsp),
        }
    }
    for response in &responses[responses.len() / 2..] {
        match parse_response(response.as_bytes()) {
            Ok((_, Response::MailboxData(MailboxDatum::Search(ids)))) => {
                assert_eq!(ids[0], 12345);
                assert_eq!(ids[1], 67890);
            }
            rsp => panic!("unexpected response {:?}", rsp),
        }
    }
}

#[test]
fn tests_test_search() {
    check_search(&[
        "* SEARCH\r\n",
        "* SEARCH \r\n",
        "* SEARCH 12345 67890\r\n",
        "* SEARCH 12345 67890 \r\n",
    ]);
}

#[test]
fn rfc3501_test_search() {
    check_search(&["* SEARCH\r\n", "* SEARCH 12345 67890\r\n"]);
}

#[test]
fn mod_test_search() {
    check_search(&["* SEARCH\r\n", "* SEARCH 12345 67890\r\n"]);
}

#[test]
fn test_sort() {
    for empty_response in &["* SORT\r\n", "* SORT \r\n"] {
        match parse_response(empty_response.as_bytes()) {
            Ok((_, Response::MailboxData(MailboxDatum::Sort(ids)))) => {
                assert!(ids.is_empty());
            }
            rsp => panic!("unexpected response {:?}", rsp),
        }
    }
    for response in &["* SORT 12345 67890\r\n", "* SORT 12345 67890 \r\n"] {
        match parse_response(response.as_bytes()) {
            Ok((_, Response::MailboxData(MailboxDatum::Sort(ids)))) => {
                assert_eq!(ids[0], 12345);
                assert_eq!(ids[1], 67890);
            }
            rsp => panic!("unexpected response {:?}", rsp),
        }
    }
}

fn check_uid_fetch(input: &[u8]) {
    match parse_response(input) {
        Err(ParseError::Incomplete(Needed::Size(size))) => {
            assert_eq!(size, 10275);
        }
        rsp => panic!("unexpected response {:?}", rsp),
    }
}

#[test]
fn tests_test_uid_fetch() {
    check_uid_fetch(b"* 4 FETCH (UID 71372 RFC822.HEADER {10275}\r\n");
}

#[test]
fn rfc3501_test_uid_fetch() {
    check_uid_fetch(b"* 4 FETCH (UID 71372 RFC822.HEADER {10275}\r\n");
}

#[test]
fn mod_test_uid_fetch() {
    check_uid_fetch(b"* 4 FETCH (UID 71372 RFC822.HEADER {10275}\r\n");
}

#[test]
fn tests_test_uid_fetch_extra_space() {
    check_uid_fetch(b"* 4 FETCH (UID 71372 RFC822.HEADER  {10275}\r\n");
}

#[test]
fn rfc3501_test_uid_fetch_extra_space() {
    check_uid_fetch(b"* 4 FETCH (UID 71372 RFC822.HEADER  {10275}\r\n");
}

#[test]
fn mod_test_uid_fetch_extra_space() {
    check_uid_fetch(b"* 4 FETCH (UID 71372 RFC822.HEADER  {10275}\r\n");
}

fn check_list() {
    match mailbox(b"iNboX ") {
        Ok((_, mb)) => {
            assert_eq!(mb, "INBOX");
        }
        rsp => panic!("unexpected response {:?}", rsp),
    }
    match parse_response(b"* LIST (\\HasNoChildren) \".\" INBOX.Tests\r\n") {
        Ok((_, Response::MailboxData(_))) => {}
        rsp => panic!("unexpected response {:?}", rsp),
    }
}

#[test]
fn rfc3501_test_list() {
    check_list();
}

#[test]
fn mod_test_list() {
    check_list();
}

fn check_header_fields() {
    const RESPONSE: &[u8] = b"* 1 FETCH (UID 1 BODY[HEADER.FIELDS (CHAT-VERSION)] {21}\r\nChat-Version: 1.0\r\n\r\n)\r\n";
    match parse_response(RESPONSE) {
        Ok((_, Response::Fetch(_, _))) => {}
        rsp => panic!("unexpected response {:?}", rsp),
    }
}

#[test]
fn tests_test_header_fields() {
    check_header_fields();
}

#[test]
fn mod_test_header_fields() {
    check_header_fields();
}

fn data(status: Status, code: Option<ResponseCode>, info: &str) -> Response {
    Response::Data { status, code, information: Some(s(info)) }
}

fn check_response_codes() {
    assert_eq!(
        parse_response(b"* OK [ALERT] Alert!\r\n").unwrap().1,
        data(Status::Okay, Some(ResponseCode::Alert), "Alert!")
    );
    assert_eq!(
        parse_response(b"* NO [PARSE] Something\r\n").unwrap().1,
        data(Status::No, Some(ResponseCode::Parse), "Something")
    );
    match parse_response(b"* OK [CAPABILITY IMAP4rev1 IDLE] Logged in\r\n") {
        Ok((
            _,
            Response::Data {
                status: Status::Okay,
                code: Some(ResponseCode::Capabilities(c)),
                information: Some(info),
            },
        )) if info == "Logged in" => {
            assert_eq!(c.len(), 2);
            assert_eq!(c[0], Capability::Imap4rev1);
            assert_eq!(c[1], Capability::Atom(s("IDLE")));
        }
        rsp => panic!("unexpected response {:?}", rsp),
    }
    match parse_response(b"* OK [CAPABILITY UIDPLUS IMAP4rev1 IDLE] Logged in\r\n") {
        Ok((
            _,
            Response::Data {
                status: Status::Okay,
                code: Some(ResponseCode::Capabilities(c)),
                information: Some(info),
            },
        )) if info == "Logged in" => {
            assert_eq!(c.len(), 3);
            assert_eq!(c[0], Capability::Atom(s("UIDPLUS")));
            assert_eq!(c[1], Capability::Imap4rev1);
            assert_eq!(c[2], Capability::Atom(s("IDLE")));
        }
        rsp => panic!("unexpected response {:?}", rsp),
    }
    assert_eq!(
        parse_response(b"* OK [CAPABILITY UIDPLUS IDLE] Logged in\r\n").unwrap().1,
        data(Status::Okay, None, "[CAPABILITY UIDPLUS IDLE] Logged in")
    );
    assert_eq!(
        parse_response(b"* NO [BADCHARSET] error\r\n").unwrap().1,
        data(Status::No, Some(ResponseCode::BadCharset(None)), "error")
    );
    assert_eq!(
        parse_response(b"* NO [BADCHARSET (utf-8 latin1)] error\r\n").unwrap().1,
        data(
            Status::No,
            Some(ResponseCode::BadCharset(Some(vec![s("utf-8"), s("latin1")]))),
            "error"
        )
    );
    assert_eq!(
        parse_response(b"* NO [BADCHARSET ()] error\r\n").unwrap().1,
        data(Status::No, None, "[BADCHARSET ()] error")
    );
}

#[test]
fn tests_test_response_codes() {
    check_response_codes();
}

#[test]
fn rfc3501_test_response_codes() {
    check_response_codes();
}

#[test]
fn mod_test_response_codes() {
    check_response_codes();
}

fn check_incomplete_fetch() {
    match parse_response(b"* 4644 FETCH (UID ") {
        Err(ParseError::Incomplete(_)) => {}
        rsp => panic!("should be incomplete: {:?}", rsp),
    }
}

#[test]
fn tests_test_incomplete_fetch() {
    check_incomplete_fetch();
}

#[test]
fn mod_test_incomplete_fetch() {
    check_incomplete_fetch();
}

fn check_continuation() {
    match parse_response(b"+ \r\n") {
        Ok((_, Response::Continue { code: None, information: None })) => {}
        rsp => panic!("unexpected response {:?}", rsp),
    }
    match parse_response(b"+\r\n") {
        Ok((_, Response::Continue { code: None, information: None })) => {}
        rsp => panic!("unexpected response {:?}", rsp),
    }
}

#[test]
fn tests_test_continuation() {
    check_continuation();
}

#[test]
fn mod_test_continuation() {
    check_continuation();
}

fn check_enabled() {
    match parse_response(b"* ENABLED QRESYNC X-GOOD-IDEA\r\n") {
        Ok((_, capabilities)) => assert_eq!(
            capabilities,
            Response::Capabilities(vec![
                Capability::Atom(s("QRESYNC")),
                Capability::Atom(s("X-GOOD-IDEA")),
            ])
        ),
        rsp => panic!("Unexpected response: {:?}", rsp),
    }
}

#[test]
fn tests_test_enabled() {
    check_enabled();
}

#[test]
fn mod_test_enabled() {
    check_enabled();
}

#[test]
fn test_flags() {
    match parse_response(b"* FLAGS (\\Answered \\Flagged \\Deleted \\Seen \\Draft \\*)\r\n") {
        Ok((_, capabilities)) => assert_eq!(
            capabilities,
            Response::MailboxData(MailboxDatum::Flags(vec![
                s("\\Answered"),
                s("\\Flagged"),
                s("\\Deleted"),
                s("\\Seen"),
                s("\\Draft"),
                s("\\*"),
            ]))
        ),
        rsp => panic!("Unexpected response: {:?}", rsp),
    }
    match parse_response(b"* FLAGS (OIB-Seen-[Gmail]/All)\r\n") {
        Ok((_, capabilities)) => assert_eq!(
            capabilities,
            Response::MailboxData(MailboxDatum::Flags(vec![s("OIB-Seen-[Gmail]/All")]))
        ),
        rsp => panic!("Unexpected response: {:?}", rsp),
    }
}

#[test]
fn test_vanished() {
    match parse_response(b"* VANISHED (EARLIER) 1,2,3:8\r\n") {
        Ok((_, Response::Vanished { earlier, uids })) => {
            assert!(earlier);
            assert_eq!(uids.len(), 3);
            let v = &uids[0];
            assert_eq!(*v.start(), 1);
            assert_eq!(*v.end(), 1);
            let v = &uids[1];
            assert_eq!(*v.start(), 2);
            assert_eq!(*v.end(), 2);
            let v = &uids[2];
            assert_eq!(*v.start(), 3);
            assert_eq!(*v.end(), 8);
        }
        rsp => panic!("Unexpected response: {:?}", rsp),
    }
    match parse_response(b"* VANISHED 1,2,3:8,10\r\n") {
        Ok((_, Response::Vanished { earlier, uids })) => {
            assert!(!earlier);
            assert_eq!(uids.len(), 4);
        }
        rsp => panic!("Unexpected response: {:?}", rsp),
    }
    match parse_response(b"* VANISHED (EARLIER) 1\r\n") {
        Ok((_, Response::Vanished { earlier, uids })) => {
            assert!(earlier);
            assert_eq!(uids.len(), 1);
            assert_eq!(uids[0].clone().collect::<Vec<u32>>(), vec![1]);
        }
        rsp => panic!("Unexpected response: {:?}", rsp),
    }
    match parse_response(b"* VANISHED 1\r\n") {
        Ok((_, Response::Vanished { earlier, uids })) => {
            assert!(!earlier);
            assert_eq!(uids.len(), 1);
        }
        rsp => panic!("Unexpected response: {:?}", rsp),
    }
    assert!(parse_response(b"* VANISHED \r\n").is_err());
    assert!(parse_response(b"* VANISHED (EARLIER) \r\n").is_err());
}

#[test]
fn test_uidplus() {
    match parse_response(b"* OK [APPENDUID 38505 3955] APPEND completed\r\n") {
        Ok((
            _,
            Response::Data {
                status: Status::Okay,
                code: Some(ResponseCode::AppendUid(38505, uid_set)),
                information: Some(info),
            },
        )) if uid_set == [3955.into()] && info == "APPEND completed" => {}
        rsp => panic!("Unexpected response: {:?}", rsp),
    }
    match parse_response(b"* OK [COPYUID 38505 304,319:320 3956:3958] Done\r\n") {
        Ok((
            _,
            Response::Data {
                status: Status::Okay,
                code: Some(ResponseCode::CopyUid(38505, uid_set_src, uid_set_dst)),
                information: Some(info),
            },
        )) if uid_set_src
            == [304.into(), (319..=320).into()]
            && uid_set_dst == [(3956..=3958).into()]
            && info == "Done" => {}
        rsp => panic!("Unexpected response: {:?}", rsp),
    }
    match parse_response(b"* NO [UIDNOTSTICKY] Non-persistent UIDs\r\n") {
        Ok((
            _,
            Response::Data {
                status: Status::No,
                code: Some(ResponseCode::UidNotSticky),
                information: Some(info),
            },
        )) if info == "Non-persistent UIDs" => {}
        rsp => panic!("Unexpected response: {:?}", rsp),
    }
}

#[test]
fn test_imap_body_structure() {
    let test = b"\
    * 1569 FETCH (\
        BODYSTRUCTURE (\
            (\
                (\
                    (\
                        \"TEXT\" \"PLAIN\" \
                        (\"CHARSET\" \"ISO-8859-1\") NIL NIL \
                        \"QUOTED-PRINTABLE\" 833 30 NIL NIL NIL\
                    )\
                    (\
                        \"TEXT\" \"HTML\" \
                        (\"CHARSET\" \"ISO-8859-1\") NIL NIL \
                        \"QUOTED-PRINTABLE\" 3412 62 NIL \
                        (\"INLINE\" NIL) NIL\
                    ) \
                    \"ALTERNATIVE\" (\"BOUNDARY\" \"2__=fgrths\") NIL NIL\
                )\
                (\
                    \"IMAGE\" \"GIF\" \
                    (\"NAME\" \"485039.gif\") \"<2__=lgkfjr>\" NIL \
                    \"BASE64\" 64 NIL (\"INLINE\" (\"FILENAME\" \"485039.gif\")) \
                    NIL\
                ) \
                \"RELATED\" (\"BOUNDARY\" \"1__=fgrths\") NIL NIL\
            )\
            (\
                \"APPLICATION\" \"PDF\" \
                (\"NAME\" \"title.pdf\") \
                \"<1__=lgkfjr>\" NIL \"BASE64\" 333980 NIL \
                (\"ATTACHMENT\" (\"FILENAME\" \"title.pdf\")) NIL\
            ) \
            \"MIXED\" (\"BOUNDARY\" \"0__=fgrths\") NIL NIL\
        )\
    )\r\n";

    let (_, resp) = parse_response(test).unwrap();
    match resp {
        Response::Fetch(_, f) => {
            let bodystructure = f
                .iter()
                .flat_map(|f| match f {
                    AttributeValue::BodyStructure(e) => Some(e),
                    _ => None,
                })
                .next()
                .unwrap();

            let parser = BodyStructParser::new(bodystructure);

            let element = parser.search(|b: &BodyStructure| {
                matches!(b, BodyStructure::Basic { ref common, .. } if common.ty.ty == "APPLICATION")
            });

            assert_eq!(element, Some(vec![2]));
        }
        _ => panic!("invalid FETCH command test"),
    };
}

#[test]
fn test_parsing_of_quota_capability_in_login_response() {
    match parse_response(b"* OK [CAPABILITY IMAP4rev1 IDLE QUOTA] Logged in\r\n") {
        Ok((
            _,
            Response::Data {
                status: Status::Okay,
                code: Some(ResponseCode::Capabilities(c)),
                information: Some(info),
            },
        )) if info == "Logged in" => {
            assert_eq!(c.len(), 3);
            assert_eq!(c[0], Capability::Imap4rev1);
            assert_eq!(c[1], Capability::Atom(s("IDLE")));
            assert_eq!(c[2], Capability::Atom(s("QUOTA")));
        }
        rsp => panic!("unexpected response {:?}", rsp),
    }
}

#[test]
fn test_parsing_of_bye_response() {
    match parse_response(b"* BYE\r\n") {
        Ok((_, Response::Data { status: Status::Bye, code: None, information: None })) => {}
        rsp => panic!("unexpected response {:?}", rsp),
    };
    match parse_response(b"* BYE Autologout; idle for too long\r\n") {
        Ok((_, Response::Data { status: Status::Bye, code: None, information: Some(info) }))
            if info == "Autologout; idle for too long" => {}
        rsp => panic!("unexpected response {:?}", rsp),
    };
}

#[test]
fn test_quota_root_response_data() {
    match response_data(b"* QUOTAROOT INBOX \"\"\r\n") {
        Ok((_, r)) => assert_eq!(
            r,
            Response::QuotaRoot(imap_proto::types::QuotaRoot {
                mailbox_name: s("INBOX"),
                quota_root_names: vec![s("")],
            })
        ),
        rsp => panic!("unexpected response {:?}", rsp),
    }
}

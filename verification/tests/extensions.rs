use imap_proto::parse_response;
use imap_proto::parser::id::{id_param, id_param_list, id_param_list_not_nil, resp_id};
use imap_proto::parser::metadata::{metadata_solicited, metadata_unsolicited};
use imap_proto::parser::msg_att::{msg_att_gmail_labels, msg_att_gmail_msgid, msg_att_gmail_thrid};
use imap_proto::parser::quota::{quota, quota_list, quota_root};
use imap_proto::types::{
    AttributeValue, MailboxDatum, Quota, QuotaResource, QuotaResourceName, QuotaRoot, Response,
    ResponseCode, Status,
};

fn s(x: &str) -> String {
    x.to_string()
}

fn pairs(v: &[(&str, &str)]) -> Vec<(String, String)> {
    v.iter().map(|(k, x)| (s(k), s(x))).collect()
}

#[test]
fn test_gmail_labels() {
    let env = br#"X-GM-LABELS (\Inbox \Sent Important "Muy Importante") "#;
    match msg_att_gmail_labels(env) {
        Ok((_, AttributeValue::GmailLabels(labels))) => {
            assert_eq!(["\\Inbox", "\\Sent", "Important", "Muy Importante"].to_vec(), labels);
        }
        rsp => panic!("unexpected response {:?}", rsp),
    }
}

#[test]
fn test_gmail_msgid() {
    let env = br#"X-GM-MSGID 1278455344230334865 "#;
    match msg_att_gmail_msgid(env) {
        Ok((_, AttributeValue::GmailMsgId(msgid))) => {
            assert_eq!(1278455344230334865u64, msgid);
        }
        rsp => panic!("unexpected response {:?}", rsp),
    }
}

#[test]
fn test_gmail_thrid() {
    let env = br#"X-GM-THRID 1278455344230334865 "#;
    match msg_att_gmail_thrid(env) {
        Ok((_, AttributeValue::GmailThrId(thrid))) => {
            assert_eq!(1278455344230334865, thrid);
        }
        rsp => panic!("unexpected response {:?}", rsp),
    }
}

#[test]
fn test_quota() {
    match quota(b"QUOTA \"\" (STORAGE 10 512)") {
        Ok((_, r)) => assert_eq!(
            r,
            Response::Quota(Quota {
                root_name: s(""),
                resources: vec![QuotaResource {
                    name: QuotaResourceName::Storage,
                    usage: 10,
                    limit: 512,
                }],
            })
        ),
        rsp => panic!("unexpected response {:?}", rsp),
    }
}

#[test]
fn test_quota_list() {
    match quota_list(b"(STORAGE 10 512)") {
        Ok((_, r)) => assert_eq!(
            r,
            vec![QuotaResource { name: QuotaResourceName::Storage, usage: 10, limit: 512 }]
        ),
        rsp => panic!("unexpected response {:?}", rsp),
    }
    match quota_list(b"(MESSAGE 100 512)") {
        Ok((_, r)) => assert_eq!(
            r,
            vec![QuotaResource { name: QuotaResourceName::Message, usage: 100, limit: 512 }]
        ),
        rsp => panic!("unexpected response {:?}", rsp),
    }
    match quota_list(b"(DAILY 55 200)") {
        Ok((_, r)) => assert_eq!(
            r,
            vec![QuotaResource {
                name: QuotaResourceName::Atom(s("DAILY")),
                usage: 55,
                limit: 200,
            }]
        ),
        rsp => panic!("unexpected response {:?}", rsp),
    }
}

fn quota_root_of(mailbox: &str, names: &[&str]) -> Response {
    Response::QuotaRoot(QuotaRoot {
        mailbox_name: s(mailbox),
        quota_root_names: names.iter().map(|n| s(n)).collect(),
    })
}

#[test]
fn test_quota_root_without_root_names() {
    match quota_root(b"QUOTAROOT comp.mail.mime") {
        Ok((_, r)) => assert_eq!(r, quota_root_of("comp.mail.mime", &[])),
        rsp => panic!("unexpected response {:?}", rsp),
    }
}

#[test]
fn test_quota_root2() {
    match quota_root(b"QUOTAROOT INBOX HU") {
        Ok((_, r)) => assert_eq!(r, quota_root_of("INBOX", &["HU"])),
        rsp => panic!("unexpected response {:?}", rsp),
    }
    match quota_root(b"QUOTAROOT INBOX \"\"") {
        Ok((_, r)) => assert_eq!(r, quota_root_of("INBOX", &[""])),
        rsp => panic!("unexpected response {:?}", rsp),
    }
    match quota_root(b"QUOTAROOT \"Inbox\" \"#Account\"") {
        Ok((_, r)) => assert_eq!(r, quota_root_of("INBOX", &["#Account"])),
        rsp => panic!("unexpected response {:?}", rsp),
    }
    match quota_root(b"QUOTAROOT \"Inbox\" \"#Account\" \"#Mailbox\"") {
        Ok((_, r)) => assert_eq!(r, quota_root_of("INBOX", &["#Account", "#Mailbox"])),
        rsp => panic!("unexpected response {:?}", rsp),
    }
}

#[test]
fn test_id_param() {
    match id_param(br#""name" "Cyrus""#) {
        Ok((_, (name, value))) => {
            assert_eq!(name, "name");
            assert_eq!(value, Some(s("Cyrus")));
        }
        rsp => panic!("unexpected response {:?}", rsp),
    }
    match id_param(br#""name" NIL"#) {
        Ok((_, (name, value))) => {
            assert_eq!(name, "name");
            assert_eq!(value, None);
        }
        rsp => panic!("unexpected response {:?}", rsp),
    }
}

fn cyrus() -> Vec<(String, String)> {
    pairs(&[
        ("name", "Cyrus"),
        ("version", "1.5"),
        ("os", "sunos"),
        ("os-version", "5.5"),
        ("support-url", "mailto:cyrus-bugs+@andrew.cmu.edu"),
    ])
}

#[test]
fn test_id_param_list_not_nil() {
    match id_param_list_not_nil(br#"("name" "Cyrus" "version" "1.5" "os" "sunos" "os-version" "5.5" "support-url" "mailto:cyrus-bugs+@andrew.cmu.edu")"#) {
        Ok((_, params)) => assert_eq!(params, cyrus()),
        rsp => panic!("unexpected response {:?}", rsp),
    }
}

#[test]
fn test_id_param_list() {
    match id_param_list(br#"("name" "Cyrus" "version" "1.5" "os" "sunos" "os-version" "5.5" "support-url" "mailto:cyrus-bugs+@andrew.cmu.edu")"#) {
        Ok((_, Some(params))) => assert_eq!(params, cyrus()),
        rsp => panic!("unexpected response {:?}", rsp),
    }
    match id_param_list(br##"NIL"##) {
        Ok((_, params)) => assert_eq!(params, None),
        rsp => panic!("unexpected response {:?}", rsp),
    }
}

#[test]
fn test_resp_id() {
    match resp_id(br#"ID ("name" "Cyrus" "version" "1.5" "os" "sunos" "os-version" "5.5" "support-url" "mailto:cyrus-bugs+@andrew.cmu.edu")"#) {
        Ok((_, Response::Id(Some(id_info)))) => assert_eq!(id_info, cyrus()),
        rsp => panic!("unexpected response {:?}", rsp),
    }
    // NILs inside the parameter list are admitted, and leave their field out.
    match resp_id(br#"ID ("name" "Cyrus" "version" "1.5" "os" NIL "os-version" NIL "support-url" "mailto:cyrus-bugs+@andrew.cmu.edu")"#) {
        Ok((_, Response::Id(Some(id_info)))) => assert_eq!(
            id_info,
            pairs(&[
                ("name", "Cyrus"),
                ("version", "1.5"),
                ("support-url", "mailto:cyrus-bugs+@andrew.cmu.edu"),
            ])
        ),
        rsp => panic!("unexpected response {:?}", rsp),
    }
    match resp_id(br##"ID NIL"##) {
        Ok((_, Response::Id(id_info))) => assert_eq!(id_info, None),
        rsp => panic!("unexpected response {:?}", rsp),
    }
    match resp_id(br#"ID ("name" "Archiveopteryx" "version" "3.2.0" "compile-time" "Feb  6 2023 19:59:14" "homepage-url" "http://archiveopteryx.org" "release-url" "http://archiveopteryx.org/3.2.0" )"#) {
        Ok((_, Response::Id(Some(id_info)))) => assert_eq!(
            id_info,
            pairs(&[
                ("name", "Archiveopteryx"),
                ("version", "3.2.0"),
                ("compile-time", "Feb  6 2023 19:59:14"),
                ("homepage-url", "http://archiveopteryx.org"),
                ("release-url", "http://archiveopteryx.org/3.2.0"),
            ])
        ),
        rsp => panic!("unexpected response {:?}", rsp),
    }
}

#[test]
fn test_solicited_fail_1() {
    match metadata_solicited(b"METADATA \"\" (/asdfg \"asdf\")\r\n") {
        Err(_) => {}
        _ => panic!("Error required when entry name is not starting with /private or /shared"),
    }
}

#[test]
fn test_solicited_fail_2() {
    match metadata_solicited(b"METADATA \"\" (/shared/asdfg \"asdf\")\r\n") {
        Err(_) => {}
        _ => panic!("Error required when /shared is not continued with /admin, /comment or /vendor"),
    }
}

#[test]
fn test_solicited_fail_3() {
    match metadata_solicited(b"METADATA \"\" (/private/admin \"asdf\")\r\n") {
        Err(_) => {}
        _ => panic!("Error required when /private is not continued with /comment or /vendor"),
    }
}

#[test]
fn test_solicited_fail_4() {
    match metadata_solicited(b"METADATA \"\" (/shared/vendor \"asdf\")\r\n") {
        Err(_) => {}
        _ => panic!("Error required when vendor name is not provided."),
    }
}

#[test]
fn test_solicited_success() {
    match metadata_solicited(
        b"METADATA \"mbox\" (/shared/vendor/vendorname \"asdf\" /private/comment/a \"bbb\")\r\n",
    ) {
        Ok((i, Response::MailboxData(MailboxDatum::MetadataSolicited { mailbox, values }))) => {
            assert_eq!(mailbox, "mbox");
            assert_eq!(i, b"\r\n");
            assert_eq!(values.len(), 2);
            assert_eq!(values[0].entry, "/shared/vendor/vendorname");
            assert_eq!(values[0].value.as_ref().expect("None value is not expected"), "asdf");
            assert_eq!(values[1].entry, "/private/comment/a");
            assert_eq!(values[1].value.as_ref().expect("None value is not expected"), "bbb");
        }
        _ => panic!("Correct METADATA response is not parsed properly."),
    }
}

#[test]
fn test_literal_success() {
    match metadata_solicited(b"METADATA \"\" (/shared/vendor/vendor.coi/a {3}\r\nAAA)\r\n") {
        Ok((i, Response::MailboxData(MailboxDatum::MetadataSolicited { mailbox, values }))) => {
            assert_eq!(mailbox, "");
            assert_eq!(i, b"\r\n");
            assert_eq!(values.len(), 1);
            assert_eq!(values[0].entry, "/shared/vendor/vendor.coi/a");
            assert_eq!(values[0].value.as_ref().expect("None value is not expected"), "AAA");
        }
        Err(e) => panic!("ERR: {:?}", e),
        _ => panic!("Strange failure"),
    }
}

#[test]
fn test_nil_success() {
    match metadata_solicited(b"METADATA \"\" (/shared/comment NIL /shared/admin NIL)\r\n") {
        Ok((i, Response::MailboxData(MailboxDatum::MetadataSolicited { mailbox, values }))) => {
            assert_eq!(mailbox, "");
            assert_eq!(i, b"\r\n");
            assert_eq!(values.len(), 2);
            assert_eq!(values[0].entry, "/shared/comment");
            assert_eq!(values[0].value, None);
            assert_eq!(values[1].entry, "/shared/admin");
            assert_eq!(values[1].value, None);
        }
        Err(e) => panic!("ERR: {:?}", e),
        _ => panic!("Strange failure"),
    }
}

#[test]
fn test_unsolicited_success() {
    match metadata_unsolicited(b"METADATA \"theBox\" /shared/admin/qwe /private/comment/a\r\n") {
        Ok((i, Response::MailboxData(MailboxDatum::MetadataUnsolicited { mailbox, values }))) => {
            assert_eq!(i, b"\r\n");
            assert_eq!(mailbox, "theBox");
            assert_eq!(values.len(), 2);
            assert_eq!(values[0], "/shared/admin/qwe");
            assert_eq!(values[1], "/private/comment/a");
        }
        _ => panic!("Correct METADATA response is not parsed properly."),
    }
}

#[test]
fn rfc5464_test_response_codes() {
    let data = |status: Status, code: ResponseCode, info: &str| Response::Data {
        status,
        code: Some(code),
        information: Some(s(info)),
    };
    assert_eq!(
        parse_response(b"* OK [METADATA LONGENTRIES 123] Some entries omitted.\r\n").unwrap().1,
        data(Status::Okay, ResponseCode::MetadataLongEntries(123), "Some entries omitted.")
    );
    assert_eq!(
        parse_response(b"* NO [METADATA MAXSIZE 123] Annotation too large.\r\n").unwrap().1,
        data(Status::No, ResponseCode::MetadataMaxSize(123), "Annotation too large.")
    );
    assert_eq!(
        parse_response(b"* NO [METADATA TOOMANY] Too many annotations.\r\n").unwrap().1,
        data(Status::No, ResponseCode::MetadataTooMany, "Too many annotations.")
    );
    assert_eq!(
        parse_response(b"* NO [METADATA NOPRIVATE] Private annotations not supported.\r\n")
            .unwrap()
            .1,
        data(Status::No, ResponseCode::MetadataNoPrivate, "Private annotations not supported.")
    );
}

use imap_proto::parser::envelope::{address, opt_addresses};
use imap_proto::parser::msg_att::msg_att_envelope;
use imap_proto::parser::rfc3501::capability_data;
use imap_proto::types::{AttributeValue, Capability};

const ENVELOPE: &[u8] = br#"ENVELOPE ("Wed, 17 Jul 1996 02:23:25 -0700 (PDT)" "IMAP4rev1 WG mtg summary and minutes" (("Terry Gray" NIL "gray" "cac.washington.edu")) (("Terry Gray" NIL "gray" "cac.washington.edu")) (("Terry Gray" NIL "gray" "cac.washington.edu")) ((NIL NIL "imap" "cac.washington.edu")) ((NIL NIL "minutes" "CNRI.Reston.VA.US") ("John Klensin" NIL "KLENSIN" "MIT.EDU")) NIL NIL "<B27397-0100000@cac.washington.edu>") "#;

fn check_envelope() {
    match msg_att_envelope(ENVELOPE) {
        Ok((_, AttributeValue::Envelope(_))) => {}
        rsp => panic!("unexpected response {:?}", rsp),
    }
}

#[test]
fn rfc3501_test_envelope() {
    check_envelope();
}

#[test]
fn mod_test_envelope() {
    check_envelope();
}

fn check_opt_addresses() {
    let addr = b"((NIL NIL \"minutes\" \"CNRI.Reston.VA.US\") (\"John Klensin\" NIL \"KLENSIN\" \"MIT.EDU\")) ";
    match opt_addresses(addr) {
        Ok((_, _addresses)) => {}
        rsp => panic!("unexpected response {:?}", rsp),
    }
}

#[test]
fn rfc3501_test_opt_addresses() {
    check_opt_addresses();
}

#[test]
fn mod_test_opt_addresses() {
    check_opt_addresses();
}

#[test]
fn test_opt_addresses_no_space() {
    let addr = br#"((NIL NIL "test" "example@example.com")(NIL NIL "test" "example@example.com"))"#;
    match opt_addresses(addr) {
        Ok((_, _addresses)) => {}
        rsp => panic!("unexpected response {:?}", rsp),
    }
}

#[test]
fn rfc3501_test_addresses() {
    match address(b"(\"John Klensin\" NIL \"KLENSIN\" \"MIT.EDU\") ") {
        Ok((_, _address)) => {}
        rsp => panic!("unexpected response {:?}", rsp),
    }
}

#[test]
fn mod_test_addresses() {
    match address(b"(\"John Klensin\" NIL \"KLENSIN\" \"MIT.EDU\") ") {
        Ok((_, _address)) => {}
        rsp => panic!("unexpected response {:?}", rsp),
    }
    // Literal non-UTF8 address
    match address(b"({12}\r\nJoh\xff Klensin NIL \"KLENSIN\" \"MIT.EDU\") ") {
        Ok((_, _address)) => {}
        rsp => panic!("unexpected response {:?}", rsp),
    }
}

#[test]
fn test_capability_data() {
    let atom = |x: &str| Capability::Atom(x.to_string());
    let auth = |x: &str| Capability::Auth(x.to_string());
    match capability_data(b"CAPABILITY IMAP4rev1\r\n") {
        Ok((_, capabilities)) => assert_eq!(capabilities, vec![Capability::Imap4rev1]),
        rsp => panic!("unexpected response {:?}", rsp),
    }
    match capability_data(b"CAPABILITY IMAP4REV1\r\n") {
        Ok((_, capabilities)) => assert_eq!(capabilities, vec![Capability::Imap4rev1]),
        rsp => panic!("unexpected response {:?}", rsp),
    }
    match capability_data(b"CAPABILITY XPIG-LATIN IMAP4rev1 STARTTLS AUTH=GSSAPI\r\n") {
        Ok((_, capabilities)) => assert_eq!(
            capabilities,
            vec![atom("XPIG-LATIN"), Capability::Imap4rev1, atom("STARTTLS"), auth("GSSAPI")]
        ),
        rsp => panic!("unexpected response {:?}", rsp),
    }
    match capability_data(b"CAPABILITY IMAP4rev1 AUTH=GSSAPI AUTH=PLAIN\r\n") {
        Ok((_, capabilities)) => assert_eq!(
            capabilities,
            vec![Capability::Imap4rev1, auth("GSSAPI"), auth("PLAIN")]
        ),
        rsp => panic!("unexpected response {:?}", rsp),
    }
    // The capabilities must name IMAP4rev1
    assert!(capability_data(b"CAPABILITY AUTH=GSSAPI AUTH=PLAIN\r\n").is_err());
}

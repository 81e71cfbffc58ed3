use imap_proto::builders::raw::CommandBuilder;
use imap_proto::chars::{
    astring_char, atom_char, atom_specials, list_wildcards, quoted_data, quoted_specials,
    resp_specials,
};
use imap_proto::parser::status_line::parse;
use imap_proto::types::{RequestId, State};

#[test]
fn byte_classes() {
    assert!(list_wildcards(b'%') && list_wildcards(b'*') && !list_wildcards(b'a'));
    assert!(quoted_specials(b'"') && quoted_specials(b'\\') && !quoted_specials(b'a'));
    assert!(resp_specials(b']') && !resp_specials(b'['));
    for c in [b'(', b')', b'{', b' ', 0x1f, b'%', b'*', b'"', b'\\', b']'] {
        assert!(atom_specials(c));
        assert!(!atom_char(c));
    }
    assert!(atom_char(b'a') && atom_char(b'[') && atom_char(0x80) && !atom_char(0));
    assert!(astring_char(b']') && astring_char(b'x') && !astring_char(b'('));
}

#[test]
fn quoted_data_stops_at_an_unescaped_quote() {
    assert_eq!(quoted_data(b"abc\"def"), Ok((&b"\"def"[..], &b"abc"[..])));
    assert_eq!(quoted_data(b"a\\\"b\"c"), Ok((&b"\"c"[..], &b"a\\\"b"[..])));
    assert_eq!(quoted_data(b"a\\\\\"c"), Ok((&b"\"c"[..], &b"a\\\\"[..])));
    assert_eq!(quoted_data(b"no quote"), Ok((&b""[..], &b"no quote"[..])));
    assert_eq!(quoted_data(b""), Ok((&b""[..], &b""[..])));
}

#[test]
fn status_lines() {
    assert_eq!(parse(b"* OK IMAP4rev1 ready"), (None, "OK IMAP4rev1 ready".to_string()));
    assert_eq!(
        parse(b"A0001 OK LOGIN completed"),
        (Some(RequestId("A0001".to_string())), "OK LOGIN completed".to_string())
    );
    assert_eq!(parse(b"A2 "), (Some(RequestId("A2".to_string())), String::new()));
}

#[test]
fn raw_commands() {
    assert_eq!(CommandBuilder::check().into_parts(), (b"CHECK".to_vec(), None));
    assert_eq!(CommandBuilder::close().into_parts(), (b"CLOSE".to_vec(), Some(State::Authenticated)));
    assert_eq!(CommandBuilder::examine("INBOX").into_parts(), (b"EXAMINE \"INBOX\"".to_vec(), Some(State::Selected)));
    assert_eq!(CommandBuilder::select("a\"b").into_parts(), (b"SELECT \"a\"b\"".to_vec(), Some(State::Selected)));
    assert_eq!(CommandBuilder::login("djc", "pw").into_parts(), (b"LOGIN djc pw".to_vec(), Some(State::Authenticated)));
    assert_eq!(CommandBuilder::list("", "*").into_parts(), (b"LIST \"\" \"*\"".to_vec(), None));
}

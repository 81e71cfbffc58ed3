use imap_proto::builders::command::{
    decimal, quoted_string, CommandBuilder, FetchBuilderAttributes, FetchBuilderMessages,
    FetchBuilderModifiers,
};
use imap_proto::types::{AttrMacro, Attribute, State};

#[test]
fn login() {
    assert_eq!(
        CommandBuilder::login("djc", "s3cr3t").into_parts().0,
        b"LOGIN \"djc\" \"s3cr3t\""
    );
    assert_eq!(
        CommandBuilder::login("djc", "domain\\password").into_parts().0,
        b"LOGIN \"djc\" \"domain\\\\password\""
    );
}

#[test]
fn test_quoted_string() {
    assert_eq!(quoted_string("a").unwrap(), "a");
    assert_eq!(quoted_string("").unwrap(), "");
    assert_eq!(quoted_string("a\"b\\c").unwrap(), "a\\\"b\\\\c");
    assert_eq!(quoted_string("\"foo\\").unwrap(), "\\\"foo\\\\");
    assert!(quoted_string("\n").is_err());
}

#[test]
fn quoted_string_refuses_cr_and_lf() {
    assert_eq!(quoted_string("a\rb"), Err("CR and LF not allowed in quoted strings"));
    assert_eq!(quoted_string("line\n"), Err("CR and LF not allowed in quoted strings"));
}

#[test]
fn quoted_string_refuses_what_is_no_text_char() {
    let other = Err("NUL and 8-bit characters not allowed in quoted strings");
    assert_eq!(quoted_string("caf\u{e9}"), other);
    assert_eq!(quoted_string("a\0b"), other);
    assert_eq!(quoted_string("\u{7f}"), Ok("\u{7f}".to_string()));
    assert_eq!(quoted_string("\u{1}"), Ok("\u{1}".to_string()));
    // A CR or LF anywhere gives the CR and LF error.
    let crlf = Err("CR and LF not allowed in quoted strings");
    assert_eq!(quoted_string("\u{e9}\n"), crlf);
    assert_eq!(quoted_string("\0\n"), crlf);
    assert_eq!(quoted_string("\n\u{e9}"), crlf);
}

#[test]
fn simple_commands_and_their_states() {
    assert_eq!(CommandBuilder::check().into_parts(), (b"CHECK".to_vec(), None));
    assert_eq!(
        CommandBuilder::close().into_parts(),
        (b"CLOSE".to_vec(), Some(State::Authenticated))
    );
    assert_eq!(
        CommandBuilder::examine("Sent \"x\"").into_parts(),
        (b"EXAMINE \"Sent \\\"x\\\"\"".to_vec(), Some(State::Selected))
    );
    assert_eq!(
        CommandBuilder::select("INBOX").into_parts(),
        (b"SELECT \"INBOX\"".to_vec(), Some(State::Selected))
    );
    assert_eq!(
        CommandBuilder::list("", "*").into_parts(),
        (b"LIST \"\" \"*\"".to_vec(), None)
    );
    assert_eq!(
        CommandBuilder::login("u", "p").into_parts().1,
        Some(State::Authenticated)
    );
}

#[test]
fn fetch_commands() {
    let cmd = CommandBuilder::fetch().num(1).num(5).range(7, 9).all_after(100).attr_macro(AttrMacro::Fast).build();
    assert_eq!(cmd.into_parts(), (b"FETCH 1,5,7:9,100:* FAST".to_vec(), None));

    let cmd = CommandBuilder::uid_fetch()
        .range(1, 4294967295)
        .attr(Attribute::Uid)
        .attr(Attribute::Flags)
        .attr(Attribute::Rfc822Size)
        .changed_since(12345678901234)
        .build();
    assert_eq!(
        cmd.into_parts().0,
        b"UID FETCH 1:4294967295 (UID FLAGS RFC822.SIZE) (CHANGEDSINCE 12345678901234)".to_vec()
    );

    let cmd = CommandBuilder::fetch().num(0).attr(Attribute::GmailLabels).build();
    assert_eq!(cmd.into_parts().0, b"FETCH 0 (X-GM-LABELS)".to_vec());
}

#[test]
fn decimal_digits() {
    assert_eq!(decimal(0), b"0".to_vec());
    assert_eq!(decimal(7), b"7".to_vec());
    assert_eq!(decimal(10), b"10".to_vec());
    assert_eq!(decimal(4294967295), b"4294967295".to_vec());
    assert_eq!(decimal(u64::MAX), u64::MAX.to_string().into_bytes());
}

use imap_proto::builders::command::{decimal, quoted_string, CommandBuilder};
use imap_proto::parse_response;
use imap_proto::parser::id::resp_id;
use imap_proto::parser::tokens::{number, number_64, quoted, quoted_utf8};
use imap_proto::types::{Response, ResponseCode, Status, UidSetMember};

#[test]
fn decimal_digits_read_back_as_numbers() {
    for n in [0u64, 7, 10, 99, 1234, 4_294_967_295, 4_294_967_296, u64::MAX] {
        let mut bytes = decimal(n);
        assert_eq!(bytes, n.to_string().into_bytes());
        bytes.push(b' ');
        assert_eq!(number_64(&bytes), Ok((&b" "[..], n)));
        if n <= u32::MAX as u64 {
            assert_eq!(number(&bytes), Ok((&b" "[..], n as u32)));
        } else {
            assert!(number(&bytes).is_err());
        }
    }
}

#[test]
fn quoted_strings_read_back() {
    for text in ["", "a", "djc", "domain\\password", "say \"hi\"", "\\\"\\", "tab\there"] {
        let q = quoted_string(text).unwrap();
        let mut bytes = b"\"".to_vec();
        bytes.extend_from_slice(q.as_bytes());
        bytes.extend_from_slice(b"\" rest");
        assert_eq!(quoted(&bytes), Ok((&b" rest"[..], q.as_bytes().to_vec())));
        assert_eq!(quoted_utf8(&bytes), Ok((&b" rest"[..], q.clone())));
    }
}

#[test]
fn non_ascii_text_is_no_quoted_string() {
    assert!(quoted_string("é").is_err());
    let mut bytes = b"\"".to_vec();
    bytes.extend_from_slice("é".as_bytes());
    bytes.extend_from_slice(b"\" ");
    assert!(quoted(&bytes).is_err());
}

#[test]
fn login_arguments_read_back() {
    let cmd = CommandBuilder::login("us\"er", "pa\\ss").into_parts().0;
    assert_eq!(cmd, b"LOGIN \"us\\\"er\" \"pa\\\\ss\"".to_vec());
    let (rest, user) = quoted(&cmd[6..]).unwrap();
    assert_eq!(user, b"us\\\"er".to_vec());
    let (_, pass) = quoted(&rest[1..]).unwrap();
    assert_eq!(pass, b"pa\\\\ss".to_vec());
}

fn copy_uid(line: &[u8]) -> (u32, Vec<UidSetMember>, Vec<UidSetMember>) {
    match parse_response(line) {
        Ok((_, Response::Data { status: Status::Okay, code: Some(ResponseCode::CopyUid(v, a, b)), .. })) => {
            (v, a, b)
        }
        other => panic!("unexpected {:?}", other),
    }
}

#[test]
fn uid_ranges_in_either_order_are_the_same() {
    let forward = copy_uid(b"* OK [COPYUID 38505 2:4 3956:3958] Done\r\n");
    let backward = copy_uid(b"* OK [COPYUID 38505 4:2 3958:3956] Done\r\n");
    assert_eq!(forward, backward);
    assert_eq!(forward.1, vec![UidSetMember::UidRange(2..=4)]);
    assert_eq!(forward.2, vec![UidSetMember::UidRange(3956..=3958)]);
    let single = copy_uid(b"* OK [COPYUID 1 7 9:9] Done\r\n");
    assert_eq!(single.1, vec![UidSetMember::Uid(7)]);
    assert_eq!(single.2, vec![UidSetMember::UidRange(9..=9)]);
}

#[test]
fn id_fields_keep_the_last_value() {
    let (_, resp) =
        resp_id(b"ID (\"name\" \"a\" \"vendor\" NIL \"name\" \"b\" \"os\" \"x\")\r\n").unwrap();
    match resp {
        Response::Id(Some(fields)) => assert_eq!(
            fields,
            vec![("name".to_string(), "b".to_string()), ("os".to_string(), "x".to_string())]
        ),
        other => panic!("unexpected {:?}", other),
    }
    let (_, nil) = resp_id(b"ID NIL\r\n").unwrap();
    assert_eq!(nil, Response::Id(None));
}

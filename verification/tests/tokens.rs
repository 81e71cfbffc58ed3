use imap_proto::parser::base::ParseError;
use imap_proto::parser::base::is_atom_specials;
use imap_proto::parser::tokens::{astring, atom, quoted, sequence_range, sequence_set, string};

#[test]
fn test_quoted() {
    let (rem, val) = quoted(br#""Hello"???"#).unwrap();
    assert_eq!(rem, b"???");
    assert_eq!(val, b"Hello");

    // Allowed escapes...
    assert_eq!(quoted(br#""Hello \" "???"#), Ok((&b"???"[..], br#"Hello \" "#.to_vec())));
    assert_eq!(quoted(br#""Hello \\ "???"#), Ok((&b"???"[..], br#"Hello \\ "#.to_vec())));

    // Not allowed escapes...
    assert!(quoted(br#""Hello \a "???"#).is_err());
    assert!(quoted(br#""Hello \z "???"#).is_err());
    assert!(quoted(br#""Hello \? "???"#).is_err());

    let (rem, val) = quoted(br#""Hello \"World\""???"#).unwrap();
    assert_eq!(rem, br#"???"#);
    assert_eq!(val, br#"Hello \"World\""#);

    // Incomplete
    assert!(matches!(quoted(br#""#), Err(ParseError::Incomplete(_))));
    assert!(matches!(quoted(br#""\"#), Err(ParseError::Incomplete(_))));
    assert!(matches!(quoted(br#""Hello "#), Err(ParseError::Incomplete(_))));

    // Error
    assert!(matches!(quoted(br"\"), Err(ParseError::Error)));
}

#[test]
fn core_test_string_literal() {
    match string(b"{3}\r\nXYZ") {
        Ok((_, value)) => {
            assert_eq!(value, b"XYZ");
        }
        rsp => panic!("unexpected response {:?}", rsp),
    }
}

#[test]
fn test_string_literal_containing_null() {
    match string(b"{5}\r\nX\0Y\0Z") {
        Ok((_, value)) => {
            assert_eq!(value, b"X\0Y\0Z");
        }
        rsp => panic!("unexpected response {:?}", rsp),
    }
}

#[test]
fn core_test_astring() {
    match astring(b"text ") {
        Ok((_, value)) => {
            assert_eq!(value, b"text");
        }
        rsp => panic!("unexpected response {:?}", rsp),
    }
}

#[test]
fn test_sequence_range() {
    match sequence_range(b"23:28 ") {
        Ok((_, value)) => {
            assert_eq!(*value.start(), 23);
            assert_eq!(*value.end(), 28);
            assert_eq!(value.collect::<Vec<u32>>(), vec![23, 24, 25, 26, 27, 28]);
        }
        rsp => panic!("Unexpected response {:?}", rsp),
    }
}

#[test]
fn test_sequence_set() {
    match sequence_set(b"1,2:8,10,15:30 ") {
        Ok((_, value)) => {
            assert_eq!(value.len(), 4);
            let v = &value[0];
            assert_eq!(*v.start(), 1);
            assert_eq!(*v.end(), 1);
            let v = &value[1];
            assert_eq!(*v.start(), 2);
            assert_eq!(*v.end(), 8);
            let v = &value[2];
            assert_eq!(*v.start(), 10);
            assert_eq!(*v.end(), 10);
            let v = &value[3];
            assert_eq!(*v.start(), 15);
            assert_eq!(*v.end(), 30);
        }
        rsp => panic!("Unexpected response {:?}", rsp),
    }
}

#[test]
fn del_is_an_atom_special() {
    assert!(is_atom_specials(0x7f));
    assert!(is_atom_specials(0x1f));
    assert!(!is_atom_specials(b'a'));
    assert_eq!(atom(b"ab\x7fc"), Ok((&b"\x7fc"[..], "ab".to_string())));
}

use imap_proto::parser::body_structure::{
    body, body_disposition, body_extension, body_lang, body_param,
};
use imap_proto::parse_response;
use imap_proto::parser::bodystructure::BodyStructParser;
use imap_proto::types::{
    AttributeValue, BodyContentCommon, BodyContentSinglePart, BodyExtension, BodyStructure,
    ContentDisposition, ContentEncoding, ContentType, Response,
};

const EMPTY: &[u8] = &[];

// body-fld-param SP body-fld-id SP body-fld-desc SP body-fld-enc SP body-fld-octets
const BODY_FIELDS: &str = r#"("foo" "bar") "id" "desc" "7BIT" 1337"#;

fn s(x: &str) -> String {
    x.to_string()
}

fn mock_body_text() -> (String, BodyStructure) {
    (
        format!(r#"("TEXT" "PLAIN" {BODY_FIELDS} 42)"#),
        BodyStructure::Text {
            common: BodyContentCommon {
                ty: ContentType {
                    ty: s("TEXT"),
                    subtype: s("PLAIN"),
                    params: Some(vec![(s("foo"), s("bar"))]),
                },
                disposition: None,
                language: None,
                location: None,
            },
            other: BodyContentSinglePart {
                md5: None,
                transfer_encoding: ContentEncoding::SevenBit,
                octets: 1337,
                id: Some(s("id")),
                description: Some(s("desc")),
            },
            lines: 42,
            extension: None,
        },
    )
}

#[test]
fn body_structure_test_body_param_data() {
    assert_eq!(body_param(br#"NIL"#), Ok((EMPTY, None)));
    match body_param(br#"("foo" "bar")"#) {
        Ok((rest, Some(param))) => {
            assert_eq!(rest, EMPTY);
            assert_eq!(param, vec![(s("foo"), s("bar"))]);
        }
        rsp => panic!("unexpected response {:?}", rsp),
    }
}

#[test]
fn body_structure_test_body_lang_data() {
    match body_lang(br#""bob""#) {
        Ok((rest, Some(langs))) => {
            assert_eq!(rest, EMPTY);
            assert_eq!(langs, vec!["bob"]);
        }
        rsp => panic!("unexpected response {:?}", rsp),
    }
    match body_lang(br#"("one" "two")"#) {
        Ok((rest, Some(langs))) => {
            assert_eq!(rest, EMPTY);
            assert_eq!(langs, vec!["one", "two"]);
        }
        rsp => panic!("unexpected response {:?}", rsp),
    }
    assert_eq!(body_lang(br#"NIL"#), Ok((EMPTY, None)));
}

#[test]
fn body_structure_test_body_extension_data() {
    assert_eq!(
        body_extension(br#""blah""#),
        Ok((EMPTY, BodyExtension::Str(Some(s("blah")))))
    );
    assert_eq!(body_extension(br#"NIL"#), Ok((EMPTY, BodyExtension::Str(None))));
    match body_extension(br#"("hello")"#) {
        Ok((rest, BodyExtension::List(list))) => {
            assert_eq!(rest, EMPTY);
            assert_eq!(list, vec![BodyExtension::Str(Some(s("hello")))]);
        }
        rsp => panic!("unexpected response {:?}", rsp),
    }
    match body_extension(br#"(1337)"#) {
        Ok((rest, BodyExtension::List(list))) => {
            assert_eq!(rest, EMPTY);
            assert_eq!(list, vec![BodyExtension::Num(1337)]);
        }
        rsp => panic!("unexpected response {:?}", rsp),
    }
}

#[test]
fn body_structure_test_body_disposition_data() {
    assert_eq!(body_disposition(br#"NIL"#), Ok((EMPTY, None)));
    match body_disposition(br#"("attachment" ("FILENAME" "pages.pdf"))"#) {
        Ok((rest, Some(disposition))) => {
            assert_eq!(rest, EMPTY);
            assert_eq!(
                disposition,
                ContentDisposition {
                    ty: s("attachment"),
                    params: Some(vec![(s("FILENAME"), s("pages.pdf"))]),
                }
            );
        }
        rsp => panic!("unexpected response {:?}", rsp),
    }
}

#[test]
fn body_structure_test_body_structure_text() {
    let (body_str, body_struct) = mock_body_text();
    match body(body_str.as_bytes()) {
        Ok((_, text)) => assert_eq!(text, body_struct),
        rsp => panic!("unexpected response {:?}", rsp),
    }
}

#[test]
fn body_structure_test_body_structure_text_with_ext() {
    let body_str = format!(r#"("TEXT" "PLAIN" {BODY_FIELDS} 42 NIL NIL NIL NIL)"#);
    let (_, text_body_struct) = mock_body_text();
    match body(body_str.as_bytes()) {
        Ok((_, text)) => assert_eq!(text, text_body_struct),
        rsp => panic!("unexpected response {:?}", rsp),
    }
}

#[test]
fn body_structure_test_body_structure_basic() {
    const BODY: &[u8] = br#"("APPLICATION" "PDF" ("NAME" "pages.pdf") NIL NIL "BASE64" 38838 NIL ("attachment" ("FILENAME" "pages.pdf")) NIL NIL)"#;
    match body(BODY) {
        Ok((_, basic)) => assert_eq!(
            basic,
            BodyStructure::Basic {
                common: BodyContentCommon {
                    ty: ContentType {
                        ty: s("APPLICATION"),
                        subtype: s("PDF"),
                        params: Some(vec![(s("NAME"), s("pages.pdf"))]),
                    },
                    disposition: Some(ContentDisposition {
                        ty: s("attachment"),
                        params: Some(vec![(s("FILENAME"), s("pages.pdf"))]),
                    }),
                    language: None,
                    location: None,
                },
                other: BodyContentSinglePart {
                    transfer_encoding: ContentEncoding::Base64,
                    octets: 38838,
                    id: None,
                    md5: None,
                    description: None,
                },
                extension: None,
            }
        ),
        rsp => panic!("unexpected response {:?}", rsp),
    }
}

#[test]
fn body_structure_test_body_structure_message() {
    let (text_body_str, _) = mock_body_text();
    let envelope_str = r#"("Wed, 17 Jul 1996 02:23:25 -0700 (PDT)" "IMAP4rev1 WG mtg summary and minutes" (("Terry Gray" NIL "gray" "cac.washington.edu")) (("Terry Gray" NIL "gray" "cac.washington.edu")) (("Terry Gray" NIL "gray" "cac.washington.edu")) ((NIL NIL "imap" "cac.washington.edu")) ((NIL NIL "minutes" "CNRI.Reston.VA.US") ("John Klensin" NIL "KLENSIN" "MIT.EDU")) NIL NIL "<B27397-0100000@cac.washington.edu>")"#;
    let body_str =
        format!(r#"("MESSAGE" "RFC822" {BODY_FIELDS} {envelope_str} {text_body_str} 42)"#);
    match body(body_str.as_bytes()) {
        Ok((_, BodyStructure::Message { .. })) => {}
        rsp => panic!("unexpected response {:?}", rsp),
    }
}

#[test]
fn body_structure_test_body_structure_multipart() {
    let (text_body_str1, text_body_struct1) = mock_body_text();
    let (text_body_str2, text_body_struct2) = mock_body_text();
    let body_str = format!(r#"({text_body_str1}{text_body_str2} "ALTERNATIVE" NIL NIL NIL NIL)"#);
    match body(body_str.as_bytes()) {
        Ok((_, multipart)) => assert_eq!(
            multipart,
            BodyStructure::Multipart {
                common: BodyContentCommon {
                    ty: ContentType { ty: s("MULTIPART"), subtype: s("ALTERNATIVE"), params: None },
                    language: None,
                    location: None,
                    disposition: None,
                },
                bodies: vec![text_body_struct1, text_body_struct2],
                extension: None,
            }
        ),
        rsp => panic!("unexpected response {:?}", rsp),
    }
}

#[test]
fn body_parts_have_distinct_paths() {
    let line = b"* 1 FETCH (BODYSTRUCTURE ((\"TEXT\" \"PLAIN\" NIL NIL NIL \"7BIT\" 1 1)((\"TEXT\" \"HTML\" NIL NIL NIL \"7BIT\" 2 1)(\"IMAGE\" \"PNG\" NIL NIL NIL \"BASE64\" 3) \"RELATED\") \"MIXED\"))\r\n";
    let (_, resp) = parse_response(line).unwrap();
    let attrs = match resp {
        Response::Fetch(1, attrs) => attrs,
        other => panic!("unexpected {:?}", other),
    };
    let root = match &attrs[0] {
        AttributeValue::BodyStructure(b) => b,
        other => panic!("unexpected {:?}", other),
    };
    let parser = BodyStructParser::new(root);
    let subtype_of = |b: &BodyStructure| -> String {
        match b {
            BodyStructure::Basic { common, .. }
            | BodyStructure::Text { common, .. }
            | BodyStructure::Message { common, .. }
            | BodyStructure::Multipart { common, .. } => common.ty.subtype.clone(),
        }
    };
    let path_of = |sub: &str| parser.search(|b: &BodyStructure| subtype_of(b) == sub);
    assert_eq!(path_of("MIXED"), Some(vec![]));
    assert_eq!(path_of("PLAIN"), Some(vec![1]));
    assert_eq!(path_of("RELATED"), Some(vec![2]));
    assert_eq!(path_of("HTML"), Some(vec![2, 1]));
    assert_eq!(path_of("PNG"), Some(vec![2, 2]));
    assert_eq!(path_of("GIF"), None);
}

#[test]
fn the_kth_child_has_path_k() {
    let line = b"* 1 FETCH (BODYSTRUCTURE ((\"TEXT\" \"PLAIN\" NIL NIL NIL \"7BIT\" 1 1)(\"TEXT\" \"HTML\" NIL NIL NIL \"7BIT\" 2 1)(\"APPLICATION\" \"PDF\" NIL NIL NIL \"BASE64\" 3)(\"IMAGE\" \"PNG\" NIL NIL NIL \"BASE64\" 4) \"MIXED\"))\r\n";
    let (_, resp) = parse_response(line).unwrap();
    let attrs = match resp {
        Response::Fetch(1, attrs) => attrs,
        other => panic!("unexpected {:?}", other),
    };
    let root = match &attrs[0] {
        AttributeValue::BodyStructure(b) => b,
        other => panic!("unexpected {:?}", other),
    };
    let parser = BodyStructParser::new(root);
    let found = parser.search(|b: &BodyStructure| {
        matches!(b, BodyStructure::Basic { common, .. } if common.ty.ty == "APPLICATION")
    });
    assert_eq!(found, Some(vec![3]));
    let png = parser.search(|b: &BodyStructure| {
        matches!(b, BodyStructure::Basic { common, .. } if common.ty.ty == "IMAGE")
    });
    assert_eq!(png, Some(vec![4]));
}

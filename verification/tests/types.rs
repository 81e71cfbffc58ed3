use imap_proto::types::acls::AclRight;
use imap_proto::types::NameAttribute;

#[test]
fn test_name_attribute_into_owned() {
    let name_attributes = [
        NameAttribute::NoInferiors,
        NameAttribute::NoSelect,
        NameAttribute::Marked,
        NameAttribute::Unmarked,
        NameAttribute::All,
        NameAttribute::Archive,
        NameAttribute::Drafts,
        NameAttribute::Flagged,
        NameAttribute::Junk,
        NameAttribute::Sent,
        NameAttribute::Trash,
        NameAttribute::Extension("Foobar".to_string()),
    ];

    for name_attribute in name_attributes {
        let owned_name_attribute = name_attribute.clone().into_owned();
        assert_eq!(name_attribute, owned_name_attribute);
    }
}

#[test]
fn test_char_to_acl_right() {
    assert_eq!(Into::<AclRight>::into('l'), AclRight::Lookup);
    assert_eq!(Into::<AclRight>::into('c'), AclRight::OldCreate);
    assert_eq!(Into::<AclRight>::into('k'), AclRight::CreateMailbox);
    assert_eq!(Into::<AclRight>::into('0'), AclRight::Custom('0'));
}

#[test]
fn test_acl_right_to_char() {
    assert_eq!(Into::<char>::into(AclRight::Lookup), 'l');
    assert_eq!(Into::<char>::into(AclRight::OldCreate), 'c');
    assert_eq!(Into::<char>::into(AclRight::CreateMailbox), 'k');
    assert_eq!(Into::<char>::into(AclRight::Custom('0')), '0');
}

#[test]
fn acl_right_letters_round_trip() {
    for c in "lrswipkxtean cd0Z".chars() {
        let right: AclRight = c.into();
        assert_eq!(Into::<char>::into(right), c);
    }
}

//! The ACL extension (RFC 4314, formerly RFC 2086).

use vstd::prelude::*;

verus! {

#[derive(Debug, Eq, PartialEq)]
pub struct Acl {
    pub mailbox: String,
    pub acls: Vec<AclEntry>,
}

impl Acl {
    /// The same value; every value of this crate already owns its data.
    pub fn into_owned(self) -> (r: Acl)
        ensures
            r == self,
    {
        self
    }
}

#[derive(Debug, Eq, PartialEq)]
pub struct AclEntry {
    pub identifier: String,
    pub rights: Vec<AclRight>,
}

impl AclEntry {
    /// The same value; every value of this crate already owns its data.
    pub fn into_owned(self) -> (r: AclEntry)
        ensures
            r == self,
    {
        self
    }
}

#[derive(Debug, Eq, PartialEq)]
pub struct ListRights {
    pub mailbox: String,
    pub identifier: String,
    pub required: Vec<AclRight>,
    pub optional: Vec<AclRight>,
}

impl ListRights {
    /// The same value; every value of this crate already owns its data.
    pub fn into_owned(self) -> (r: ListRights)
        ensures
            r == self,
    {
        self
    }
}

#[derive(Debug, Eq, PartialEq)]
pub struct MyRights {
    pub mailbox: String,
    pub rights: Vec<AclRight>,
}

impl MyRights {
    /// The same value; every value of this crate already owns its data.
    pub fn into_owned(self) -> (r: MyRights)
        ensures
            r == self,
    {
        self
    }
}

#[derive(Copy, Clone, Debug, Eq, PartialEq, Hash)]
pub enum AclRight {
    /// l - lookup (mailbox is visible to LIST/LSUB commands, SUBSCRIBE mailbox)
    Lookup,
    /// r - read (SELECT the mailbox, perform STATUS)
    Read,
    /// s - keep seen/unseen information across sessions
    Seen,
    /// w - write (set or clear flags other than \SEEN and \DELETED)
    Write,
    /// i - insert (perform APPEND, COPY into mailbox)
    Insert,
    /// p - post (send mail to submission address for mailbox)
    Post,
    /// k - create mailboxes
    CreateMailbox,
    /// x - delete mailbox
    DeleteMailbox,
    /// t - delete messages
    DeleteMessage,
    /// e - perform EXPUNGE and expunge as a part of CLOSE
    Expunge,
    /// a - administer (perform SETACL/DELETEACL/GETACL/LISTRIGHTS)
    Administer,
    /// n - ability to write .shared annotations values (RFC 5257)
    Annotation,
    /// c - old (deprecated) create
    OldCreate,
    /// d - old (deprecated) delete
    OldDelete,
    /// A custom right
    Custom(char),
}

/// The right that a letter of a rights string names.
pub open spec fn spec_right_of_char(c: char) -> AclRight {
    if c == 'l' {
        AclRight::Lookup
    } else if c == 'r' {
        AclRight::Read
    } else if c == 's' {
        AclRight::Seen
    } else if c == 'w' {
        AclRight::Write
    } else if c == 'i' {
        AclRight::Insert
    } else if c == 'p' {
        AclRight::Post
    } else if c == 'k' {
        AclRight::CreateMailbox
    } else if c == 'x' {
        AclRight::DeleteMailbox
    } else if c == 't' {
        AclRight::DeleteMessage
    } else if c == 'e' {
        AclRight::Expunge
    } else if c == 'a' {
        AclRight::Administer
    } else if c == 'n' {
        AclRight::Annotation
    } else if c == 'c' {
        AclRight::OldCreate
    } else if c == 'd' {
        AclRight::OldDelete
    } else {
        AclRight::Custom(c)
    }
}

/// The letter that names a right.
pub open spec fn spec_char_of_right(r: AclRight) -> char {
    match r {
        AclRight::Lookup => 'l',
        AclRight::Read => 'r',
        AclRight::Seen => 's',
        AclRight::Write => 'w',
        AclRight::Insert => 'i',
        AclRight::Post => 'p',
        AclRight::CreateMailbox => 'k',
        AclRight::DeleteMailbox => 'x',
        AclRight::DeleteMessage => 't',
        AclRight::Expunge => 'e',
        AclRight::Administer => 'a',
        AclRight::Annotation => 'n',
        AclRight::OldCreate => 'c',
        AclRight::OldDelete => 'd',
        AclRight::Custom(c) => c,
    }
}

/// A letter that names one of the rights of RFC 4314 (or its deprecated `c` and `d`).
pub open spec fn is_standard_right_char(c: char) -> bool {
    c == 'l' || c == 'r' || c == 's' || c == 'w' || c == 'i' || c == 'p' || c == 'k' || c == 'x'
        || c == 't' || c == 'e' || c == 'a' || c == 'n' || c == 'c' || c == 'd'
}

impl From<char> for AclRight {
    fn from(c: char) -> (r: AclRight) {
        if c == 'l' {
            AclRight::Lookup
        } else if c == 'r' {
            AclRight::Read
        } else if c == 's' {
            AclRight::Seen
        } else if c == 'w' {
            AclRight::Write
        } else if c == 'i' {
            AclRight::Insert
        } else if c == 'p' {
            AclRight::Post
        } else if c == 'k' {
            AclRight::CreateMailbox
        } else if c == 'x' {
            AclRight::DeleteMailbox
        } else if c == 't' {
            AclRight::DeleteMessage
        } else if c == 'e' {
            AclRight::Expunge
        } else if c == 'a' {
            AclRight::Administer
        } else if c == 'n' {
            AclRight::Annotation
        } else if c == 'c' {
            AclRight::OldCreate
        } else if c == 'd' {
            AclRight::OldDelete
        } else {
            AclRight::Custom(c)
        }
    }
}

impl vstd::std_specs::convert::FromSpecImpl<char> for AclRight {
    open spec fn obeys_from_spec() -> bool {
        true
    }

    open spec fn from_spec(v: char) -> AclRight {
        spec_right_of_char(v)
    }
}

impl From<AclRight> for char {
    fn from(right: AclRight) -> (r: char) {
        match right {
            AclRight::Lookup => 'l',
            AclRight::Read => 'r',
            AclRight::Seen => 's',
            AclRight::Write => 'w',
            AclRight::Insert => 'i',
            AclRight::Post => 'p',
            AclRight::CreateMailbox => 'k',
            AclRight::DeleteMailbox => 'x',
            AclRight::DeleteMessage => 't',
            AclRight::Expunge => 'e',
            AclRight::Administer => 'a',
            AclRight::Annotation => 'n',
            AclRight::OldCreate => 'c',
            AclRight::OldDelete => 'd',
            AclRight::Custom(c) => c,
        }
    }
}

impl vstd::std_specs::convert::FromSpecImpl<AclRight> for char {
    open spec fn obeys_from_spec() -> bool {
        true
    }

    open spec fn from_spec(v: AclRight) -> char {
        spec_char_of_right(v)
    }
}

/// Every letter comes back from the right it names.
pub proof fn lemma_char_right_roundtrip(c: char)
    ensures
        spec_char_of_right(spec_right_of_char(c)) == c,
{
}

/// Every right that is not a custom right named by a standard letter comes back
/// from its letter.
pub proof fn lemma_right_char_roundtrip(r: AclRight)
    requires
        !(r matches AclRight::Custom(c) && is_standard_right_char(c)),
    ensures
        spec_right_of_char(spec_char_of_right(r)) == r,
{
}

} // verus!

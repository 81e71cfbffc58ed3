//! The first reading of a response line: its tag and its text.

use vstd::prelude::*;
use vstd::utf8::{decode_utf8, valid_utf8};
use crate::parser::base::utf8_string;
use crate::types::RequestId;

verus! {

/// The position of the first space at or after `k`, or the length where there is none.
pub open spec fn first_space(s: Seq<u8>, k: int) -> int
    decreases s.len() - k,
{
    if k < 0 || k >= s.len() {
        s.len() as int
    } else if s[k] == 0x20 {
        k
    } else {
        first_space(s, k + 1)
    }
}

/// A line that `parse` reads: an untagged line is "*", a byte, and UTF-8 text; a tagged
/// line has a space, with UTF-8 text before and after the first one.
pub open spec fn is_status_line(s: Seq<u8>) -> bool {
    &&& s.len() > 0
    &&& s[0] == 0x2a ==> s.len() >= 2 && valid_utf8(s.subrange(2, s.len() as int))
    &&& s[0] != 0x2a ==> {
        let p = first_space(s, 0);
        &&& p < s.len()
        &&& valid_utf8(s.subrange(0, p))
        &&& valid_utf8(s.subrange(p + 1, s.len() as int))
    }
}

/// The tag and the text of a line: no tag for an untagged line, whose text starts after
/// its first two bytes; else the text before the first space is the tag and the text
/// after it the rest.
pub fn parse(msg: &[u8]) -> (r: (Option<RequestId>, String))
    requires
        is_status_line(msg@),
    ensures
        msg@[0] == 0x2a ==> r.0 is None && r.1@ == decode_utf8(
            msg@.subrange(2, msg@.len() as int),
        ),
        msg@[0] != 0x2a ==> (r.0 matches Some(id) && id.0@ == decode_utf8(
            msg@.subrange(0, first_space(msg@, 0)),
        ) && r.1@ == decode_utf8(msg@.subrange(first_space(msg@, 0) + 1, msg@.len() as int))),
{
    let n = msg.len();
    if msg[0] == 0x2a {
        let rest = match utf8_string(msg, 2, n) {
            Some(t) => t,
            None => String::new(),
        };
        (None, rest)
    } else {
        let mut pos: usize = 0;
        while pos < n && msg[pos] != 0x20
            invariant
                pos <= n,
                n == msg@.len(),
                first_space(msg@, 0) == first_space(msg@, pos as int),
            decreases n - pos,
        {
            pos = pos + 1;
        }
        let tag = match utf8_string(msg, 0, pos) {
            Some(t) => t,
            None => String::new(),
        };
        let rest = match utf8_string(msg, pos + 1, n) {
            Some(t) => t,
            None => String::new(),
        };
        (Some(RequestId(tag)), rest)
    }
}

} // verus!

//! Permissive byte classes, where any byte that is not
//! special is an atom byte, and the scan of the inside of a quoted string.

use vstd::prelude::*;
use crate::parser::base::IResult;

verus! {

pub open spec fn spec_list_wildcards(c: u8) -> bool {
    c == 0x25 || c == 0x2a
}

pub open spec fn spec_quoted_specials(c: u8) -> bool {
    c == 0x22 || c == 0x5c
}

pub open spec fn spec_resp_specials(c: u8) -> bool {
    c == 0x5d
}

pub open spec fn spec_atom_specials(c: u8) -> bool {
    c == 0x28 || c == 0x29 || c == 0x7b || c == 0x20 || c < 32 || spec_list_wildcards(c)
        || spec_quoted_specials(c) || spec_resp_specials(c)
}

/// list-wildcards = "%" / "*"
pub fn list_wildcards(c: u8) -> (r: bool)
    ensures
        r == spec_list_wildcards(c),
{
    c == 0x25 || c == 0x2a
}

/// quoted-specials = DQUOTE / "\"
pub fn quoted_specials(c: u8) -> (r: bool)
    ensures
        r == spec_quoted_specials(c),
{
    c == 0x22 || c == 0x5c
}

/// resp-specials = "]"
pub fn resp_specials(c: u8) -> (r: bool)
    ensures
        r == spec_resp_specials(c),
{
    c == 0x5d
}

/// atom-specials = "(" / ")" / "{" / SP / CTL / list-wildcards / quoted-specials /
/// resp-specials
pub fn atom_specials(c: u8) -> (r: bool)
    ensures
        r == spec_atom_specials(c),
{
    c == 0x28 || c == 0x29 || c == 0x7b || c == 0x20 || c < 32 || list_wildcards(c)
        || quoted_specials(c) || resp_specials(c)
}

/// An atom byte: any byte that is not special.
pub fn atom_char(c: u8) -> (r: bool)
    ensures
        r == !spec_atom_specials(c),
{
    !atom_specials(c)
}

/// An astring byte: an atom byte or "]".
pub fn astring_char(c: u8) -> (r: bool)
    ensures
        r == (!spec_atom_specials(c) || spec_resp_specials(c)),
{
    atom_char(c) || resp_specials(c)
}

/// The end of the inside of a quoted string that starts at `k`: the first double quote
/// that no backslash escapes, or the end of the input. `escape` says whether the byte
/// at `k` is escaped.
pub open spec fn spec_quoted_data_end(s: Seq<u8>, k: int, escape: bool) -> int
    decreases s.len() - k,
{
    if k < 0 || k >= s.len() {
        s.len() as int
    } else if s[k] == 0x22 && !escape {
        k
    } else {
        spec_quoted_data_end(s, k + 1, s[k] == 0x5c && !escape)
    }
}

/// The inside of a quoted string at the start of `i`, up to the first double quote that
/// no backslash escapes; all of `i` where there is none.
pub fn quoted_data(i: &[u8]) -> (r: IResult<'_, &[u8]>)
    ensures
        r matches Ok((rest, data)) && data@ == i@.subrange(0, spec_quoted_data_end(i@, 0, false))
            && rest@ == i@.subrange(spec_quoted_data_end(i@, 0, false), i@.len() as int),
{
    let mut escape = false;
    let mut len: usize = 0;
    while len < i.len()
        invariant
            len <= i@.len(),
            spec_quoted_data_end(i@, 0, false) == spec_quoted_data_end(i@, len as int, escape),
        ensures
            spec_quoted_data_end(i@, 0, false) == len,
        decreases i@.len() - len,
    {
        let c = i[len];
        if c == 0x22 && !escape {
            break;
        }
        escape = c == 0x5c && !escape;
        len = len + 1;
    }
    Ok((vstd::slice::slice_subrange(i, len, i.len()), vstd::slice::slice_subrange(i, 0, len)))
}

} // verus!

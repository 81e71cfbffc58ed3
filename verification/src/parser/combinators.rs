//! The repetition combinators of the grammar, stated once over any item parser.

use vstd::prelude::*;
use crate::parser::base::{
    byte, dv, lemma_dv_push, pv, spec_byte, wf, wfp, PPos, PRes, ParseError, SPos, SRes,
};

verus! {

/// A parser as the grammar states it: from input and position to a result.
pub type SpecParser<T> = spec_fn(Seq<u8>, int) -> SRes<T>;

/// A recognizer as the grammar states it: from input and position to a position.
pub type SpecRecognizer = spec_fn(Seq<u8>, int) -> SPos;

/// Puts `p` in front of the values of a successful result.
pub open spec fn prepend<T>(p: Seq<T>, r: SRes<Seq<T>>) -> SRes<Seq<T>> {
    match r {
        Ok((e, vs)) => Ok((e, p + vs)),
        Err(x) => Err(x),
    }
}

pub proof fn lemma_prepend_step<T>(acc: Seq<T>, v: T, r: SRes<Seq<T>>)
    ensures
        prepend(acc, prepend(seq![v], r)) == prepend(acc.push(v), r),
{
    match r {
        Ok((e, vs)) => {
            assert(acc + (seq![v] + vs) =~= acc.push(v) + vs);
        },
        Err(_) => {},
    }
}

pub proof fn lemma_prepend_empty<T>(acc: Seq<T>, e: int)
    ensures
        prepend(acc, Ok((e, Seq::<T>::empty()))) == Ok::<(int, Seq<T>), ParseError>((e, acc)),
{
    assert(acc + Seq::<T>::empty() =~= acc);
}

/// Repeats `f` while it succeeds; a success that consumes nothing is an error, which
/// stops a loop that would not end.
pub open spec fn spec_many0<T>(s: Seq<u8>, i: int, f: SpecParser<T>) -> SRes<Seq<T>>
    decreases s.len() - i,
{
    if i < 0 || i > s.len() {
        Err(ParseError::Error)
    } else {
        match f(s, i) {
            Err(ParseError::Error) => Ok((i, Seq::empty())),
            Err(x) => Err(x),
            Ok((j, v)) => if j <= i || j > s.len() {
                Err(ParseError::Error)
            } else {
                prepend(seq![v], spec_many0(s, j, f))
            },
        }
    }
}

/// One success of `f`, then as `many0`.
pub open spec fn spec_many1<T>(s: Seq<u8>, i: int, f: SpecParser<T>) -> SRes<Seq<T>> {
    match f(s, i) {
        Err(x) => Err(x),
        Ok((j, v)) => prepend(seq![v], spec_many0(s, j, f)),
    }
}

/// The loop of a separated list after the first element: `sep` then `f`, as long as
/// both succeed; a separator that consumes nothing is an error.
pub open spec fn spec_sep_tail<T>(
    s: Seq<u8>,
    i: int,
    sep: SpecRecognizer,
    f: SpecParser<T>,
) -> SRes<Seq<T>>
    decreases s.len() - i,
{
    if i < 0 || i > s.len() {
        Err(ParseError::Error)
    } else {
        match sep(s, i) {
            Err(ParseError::Error) => Ok((i, Seq::empty())),
            Err(x) => Err(x),
            Ok(j) => if j <= i || j > s.len() {
                Err(ParseError::Error)
            } else {
                match f(s, j) {
                    Err(ParseError::Error) => Ok((i, Seq::empty())),
                    Err(x) => Err(x),
                    Ok((k, v)) => if k < j || k > s.len() {
                        Err(ParseError::Error)
                    } else {
                        prepend(seq![v], spec_sep_tail(s, k, sep, f))
                    },
                }
            },
        }
    }
}

/// `f` separated by `sep`, possibly no element.
pub open spec fn spec_sep_list0<T>(
    s: Seq<u8>,
    i: int,
    sep: SpecRecognizer,
    f: SpecParser<T>,
) -> SRes<Seq<T>> {
    match f(s, i) {
        Err(ParseError::Error) => Ok((i, Seq::empty())),
        Err(x) => Err(x),
        Ok((j, v)) => prepend(seq![v], spec_sep_tail(s, j, sep, f)),
    }
}

/// `f` separated by `sep`, at least one element.
pub open spec fn spec_sep_list1<T>(
    s: Seq<u8>,
    i: int,
    sep: SpecRecognizer,
    f: SpecParser<T>,
) -> SRes<Seq<T>> {
    match f(s, i) {
        Err(x) => Err(x),
        Ok((j, v)) => prepend(seq![v], spec_sep_tail(s, j, sep, f)),
    }
}

pub open spec fn parser_ok<T: DeepView, F: Fn(&[u8], usize) -> PRes<T>>(
    s: &[u8],
    f: F,
    g: SpecParser<T::V>,
) -> bool {
    &&& forall|j: usize| j <= s@.len() ==> #[trigger] f.requires((s, j))
    &&& forall|j: usize, r: PRes<T>|
        #[trigger] f.ensures((s, j), r) ==> dv(r) == g(s@, j as int) && wf(r, s@, j as int)
}

pub open spec fn recognizer_ok<F: Fn(&[u8], usize) -> PPos>(
    s: &[u8],
    f: F,
    g: SpecRecognizer,
) -> bool {
    &&& forall|j: usize| j <= s@.len() ==> #[trigger] f.requires((s, j))
    &&& forall|j: usize, r: PPos|
        #[trigger] f.ensures((s, j), r) ==> pv(r) == g(s@, j as int) && wfp(r, s@, j as int)
}

/// Runs the `many0` loop from `i`, appending to `acc`.
#[verifier::loop_isolation(false)]
fn many0_from<T: DeepView, F: Fn(&[u8], usize) -> PRes<T>>(
    s: &[u8],
    i: usize,
    acc: Vec<T>,
    f: &F,
    Ghost(g): Ghost<SpecParser<T::V>>,
) -> (r: PRes<Vec<T>>)
    requires
        i <= s@.len(),
        parser_ok(s, *f, g),
    ensures
        dv(r) == prepend(acc.deep_view(), spec_many0(s@, i as int, g)),
        wf(r, s@, i as int),
{
    let mut acc = acc;
    let ghost acc0 = acc.deep_view();
    let mut j = i;
    loop
        invariant
            i <= j <= s@.len(),
            parser_ok(s, *f, g),
            prepend(acc0, spec_many0(s@, i as int, g)) == prepend(
                acc.deep_view(),
                spec_many0(s@, j as int, g),
            ),
        decreases s@.len() - j,
    {
        match f(s, j) {
            Err(ParseError::Error) => {
                proof {
                    lemma_prepend_empty(acc.deep_view(), j as int);
                }
                return Ok((j, acc));
            },
            Err(x) => return Err(x),
            Ok((k, v)) => {
                if k <= j {
                    return Err(ParseError::Error);
                }
                proof {
                    lemma_prepend_step(acc.deep_view(), v.deep_view(), spec_many0(s@, k as int, g));
                    lemma_dv_push(acc@, acc@.push(v), v);
                }
                acc.push(v);
                j = k;
            },
        }
    }
}

pub fn many0<T: DeepView, F: Fn(&[u8], usize) -> PRes<T>>(
    s: &[u8],
    i: usize,
    f: F,
    Ghost(g): Ghost<SpecParser<T::V>>,
) -> (r: PRes<Vec<T>>)
    requires
        i <= s@.len(),
        parser_ok(s, f, g),
    ensures
        dv(r) == spec_many0(s@, i as int, g),
        wf(r, s@, i as int),
{
    let acc: Vec<T> = Vec::new();
    proof {
        assert(acc.deep_view() =~= Seq::<T::V>::empty());
        match spec_many0(s@, i as int, g) {
            Ok((e, vs)) => {
                assert(Seq::<T::V>::empty() + vs =~= vs);
            },
            Err(_) => {},
        }
    }
    many0_from(s, i, acc, &f, Ghost(g))
}

pub fn many1<T: DeepView, F: Fn(&[u8], usize) -> PRes<T>>(
    s: &[u8],
    i: usize,
    f: F,
    Ghost(g): Ghost<SpecParser<T::V>>,
) -> (r: PRes<Vec<T>>)
    requires
        i <= s@.len(),
        parser_ok(s, f, g),
    ensures
        dv(r) == spec_many1(s@, i as int, g),
        wf(r, s@, i as int),
{
    match f(s, i) {
        Err(x) => Err(x),
        Ok((j, v)) => {
            let mut acc: Vec<T> = Vec::new();
            proof {
                lemma_dv_push(acc@, acc@.push(v), v);
                assert(acc.deep_view() =~= Seq::<T::V>::empty());
                assert(Seq::<T::V>::empty().push(v.deep_view()) =~= seq![v.deep_view()]);
            }
            acc.push(v);
            many0_from(s, j, acc, &f, Ghost(g))
        },
    }
}

/// Runs the separated-list loop from `i`, appending to `acc`.
#[verifier::loop_isolation(false)]
fn sep_tail_from<T: DeepView, F: Fn(&[u8], usize) -> PRes<T>, S: Fn(&[u8], usize) -> PPos>(
    s: &[u8],
    i: usize,
    acc: Vec<T>,
    sep: &S,
    Ghost(gs): Ghost<SpecRecognizer>,
    f: &F,
    Ghost(g): Ghost<SpecParser<T::V>>,
) -> (r: PRes<Vec<T>>)
    requires
        i <= s@.len(),
        parser_ok(s, *f, g),
        recognizer_ok(s, *sep, gs),
    ensures
        dv(r) == prepend(acc.deep_view(), spec_sep_tail(s@, i as int, gs, g)),
        wf(r, s@, i as int),
{
    let mut acc = acc;
    let ghost acc0 = acc.deep_view();
    let mut j = i;
    loop
        invariant
            i <= j <= s@.len(),
            parser_ok(s, *f, g),
            recognizer_ok(s, *sep, gs),
            prepend(acc0, spec_sep_tail(s@, i as int, gs, g)) == prepend(
                acc.deep_view(),
                spec_sep_tail(s@, j as int, gs, g),
            ),
        decreases s@.len() - j,
    {
        match sep(s, j) {
            Err(ParseError::Error) => {
                proof {
                    lemma_prepend_empty(acc.deep_view(), j as int);
                }
                return Ok((j, acc));
            },
            Err(x) => return Err(x),
            Ok(k) => {
                if k <= j {
                    return Err(ParseError::Error);
                }
                match f(s, k) {
                    Err(ParseError::Error) => {
                        proof {
                            lemma_prepend_empty(acc.deep_view(), j as int);
                        }
                        return Ok((j, acc));
                    },
                    Err(x) => return Err(x),
                    Ok((m, v)) => {
                        proof {
                            lemma_prepend_step(
                                acc.deep_view(),
                                v.deep_view(),
                                spec_sep_tail(s@, m as int, gs, g),
                            );
                            lemma_dv_push(acc@, acc@.push(v), v);
                        }
                        acc.push(v);
                        j = m;
                    },
                }
            },
        }
    }
}

pub fn sep_list0<T: DeepView, F: Fn(&[u8], usize) -> PRes<T>, S: Fn(&[u8], usize) -> PPos>(
    s: &[u8],
    i: usize,
    sep: S,
    Ghost(gs): Ghost<SpecRecognizer>,
    f: F,
    Ghost(g): Ghost<SpecParser<T::V>>,
) -> (r: PRes<Vec<T>>)
    requires
        i <= s@.len(),
        parser_ok(s, f, g),
        recognizer_ok(s, sep, gs),
    ensures
        dv(r) == spec_sep_list0(s@, i as int, gs, g),
        wf(r, s@, i as int),
{
    match f(s, i) {
        Err(ParseError::Error) => {
            let acc: Vec<T> = Vec::new();
            proof {
                assert(acc.deep_view() =~= Seq::<T::V>::empty());
            }
            Ok((i, acc))
        },
        Err(x) => Err(x),
        Ok((j, v)) => {
            let mut acc: Vec<T> = Vec::new();
            proof {
                lemma_dv_push(acc@, acc@.push(v), v);
                assert(acc.deep_view() =~= Seq::<T::V>::empty());
                assert(Seq::<T::V>::empty().push(v.deep_view()) =~= seq![v.deep_view()]);
            }
            acc.push(v);
            sep_tail_from(s, j, acc, &sep, Ghost(gs), &f, Ghost(g))
        },
    }
}

pub fn sep_list1<T: DeepView, F: Fn(&[u8], usize) -> PRes<T>, S: Fn(&[u8], usize) -> PPos>(
    s: &[u8],
    i: usize,
    sep: S,
    Ghost(gs): Ghost<SpecRecognizer>,
    f: F,
    Ghost(g): Ghost<SpecParser<T::V>>,
) -> (r: PRes<Vec<T>>)
    requires
        i <= s@.len(),
        parser_ok(s, f, g),
        recognizer_ok(s, sep, gs),
    ensures
        dv(r) == spec_sep_list1(s@, i as int, gs, g),
        wf(r, s@, i as int),
{
    match f(s, i) {
        Err(x) => Err(x),
        Ok((j, v)) => {
            let mut acc: Vec<T> = Vec::new();
            proof {
                lemma_dv_push(acc@, acc@.push(v), v);
                assert(acc.deep_view() =~= Seq::<T::V>::empty());
                assert(Seq::<T::V>::empty().push(v.deep_view()) =~= seq![v.deep_view()]);
            }
            acc.push(v);
            sep_tail_from(s, j, acc, &sep, Ghost(gs), &f, Ghost(g))
        },
    }
}

// ----- parenthesized lists -----

pub open spec fn g_space_byte() -> SpecRecognizer {
    |s: Seq<u8>, i: int| spec_byte(s, i, 0x20)
}

fn space_byte(s: &[u8], j: usize) -> (q: PPos)
    requires
        j <= s@.len(),
    ensures
        pv(q) == spec_byte(s@, j as int, 0x20),
        wfp(q, s@, j as int),
{
    byte(s, j, 0x20)
}

/// An optional byte `b`: the position after it, or `i` where another byte stands.
pub open spec fn spec_opt_byte(s: Seq<u8>, i: int, b: u8) -> SPos {
    match spec_byte(s, i, b) {
        Err(ParseError::Error) => Ok(i),
        r => r,
    }
}

pub fn opt_byte(s: &[u8], i: usize, b: u8) -> (r: PPos)
    requires
        i <= s@.len(),
    ensures
        pv(r) == spec_opt_byte(s@, i as int, b),
        wfp(r, s@, i as int),
{
    match byte(s, i, b) {
        Err(ParseError::Error) => Ok(i),
        r => r,
    }
}

/// "(" f ")"
pub open spec fn spec_paren_delimited<T>(s: Seq<u8>, i: int, f: SpecParser<T>) -> SRes<T> {
    match spec_byte(s, i, 0x28) {
        Err(x) => Err(x),
        Ok(a) => match f(s, a) {
            Err(x) => Err(x),
            Ok((b, v)) => match spec_byte(s, b, 0x29) {
                Err(x) => Err(x),
                Ok(c) => Ok((c, v)),
            },
        },
    }
}

pub fn paren_delimited<T: DeepView, F: Fn(&[u8], usize) -> PRes<T>>(
    s: &[u8],
    i: usize,
    f: F,
    Ghost(g): Ghost<SpecParser<T::V>>,
) -> (r: PRes<T>)
    requires
        i <= s@.len(),
        parser_ok(s, f, g),
    ensures
        dv(r) == spec_paren_delimited(s@, i as int, g),
        wf(r, s@, i as int),
{
    let a = match byte(s, i, 0x28) {
        Ok(a) => a,
        Err(x) => return Err(x),
    };
    let (b, v) = match f(s, a) {
        Ok(v) => v,
        Err(x) => return Err(x),
    };
    let c = match byte(s, b, 0x29) {
        Ok(c) => c,
        Err(x) => return Err(x),
    };
    Ok((c, v))
}

/// "(" [f *(SP f)] [SP] ")": a space before the closing bracket is tolerated.
pub open spec fn spec_parenthesized_list<T>(s: Seq<u8>, i: int, f: SpecParser<T>) -> SRes<Seq<T>> {
    match spec_byte(s, i, 0x28) {
        Err(x) => Err(x),
        Ok(a) => match spec_sep_list0(s, a, g_space_byte(), f) {
            Err(x) => Err(x),
            Ok((b, v)) => match spec_opt_byte(s, b, 0x20) {
                Err(x) => Err(x),
                Ok(c) => match spec_byte(s, c, 0x29) {
                    Err(x) => Err(x),
                    Ok(d) => Ok((d, v)),
                },
            },
        },
    }
}

pub fn parenthesized_list<T: DeepView, F: Fn(&[u8], usize) -> PRes<T>>(
    s: &[u8],
    i: usize,
    f: F,
    Ghost(g): Ghost<SpecParser<T::V>>,
) -> (r: PRes<Vec<T>>)
    requires
        i <= s@.len(),
        parser_ok(s, f, g),
    ensures
        dv(r) == spec_parenthesized_list(s@, i as int, g),
        wf(r, s@, i as int),
{
    let a = match byte(s, i, 0x28) {
        Ok(a) => a,
        Err(x) => return Err(x),
    };
    let sep = |t: &[u8], j: usize| -> (q: PPos)
        requires
            j <= t@.len(),
        ensures
            pv(q) == spec_byte(t@, j as int, 0x20),
            wfp(q, t@, j as int),
        { space_byte(t, j) };
    let (b, v) = match sep_list0(s, a, sep, Ghost(g_space_byte()), f, Ghost(g)) {
        Ok(v) => v,
        Err(x) => return Err(x),
    };
    let c = match opt_byte(s, b, 0x20) {
        Ok(c) => c,
        Err(x) => return Err(x),
    };
    let d = match byte(s, c, 0x29) {
        Ok(d) => d,
        Err(x) => return Err(x),
    };
    Ok((d, v))
}

/// "(" f *(SP f) ")"
pub open spec fn spec_parenthesized_nonempty_list<T>(s: Seq<u8>, i: int, f: SpecParser<T>) -> SRes<Seq<T>> {
    match spec_byte(s, i, 0x28) {
        Err(x) => Err(x),
        Ok(a) => match spec_sep_list1(s, a, g_space_byte(), f) {
            Err(x) => Err(x),
            Ok((b, v)) => match spec_byte(s, b, 0x29) {
                Err(x) => Err(x),
                Ok(d) => Ok((d, v)),
            },
        },
    }
}

pub fn parenthesized_nonempty_list<T: DeepView, F: Fn(&[u8], usize) -> PRes<T>>(
    s: &[u8],
    i: usize,
    f: F,
    Ghost(g): Ghost<SpecParser<T::V>>,
) -> (r: PRes<Vec<T>>)
    requires
        i <= s@.len(),
        parser_ok(s, f, g),
    ensures
        dv(r) == spec_parenthesized_nonempty_list(s@, i as int, g),
        wf(r, s@, i as int),
{
    let a = match byte(s, i, 0x28) {
        Ok(a) => a,
        Err(x) => return Err(x),
    };
    let sep = |t: &[u8], j: usize| -> (q: PPos)
        requires
            j <= t@.len(),
        ensures
            pv(q) == spec_byte(t@, j as int, 0x20),
            wfp(q, t@, j as int),
        { space_byte(t, j) };
    let (b, v) = match sep_list1(s, a, sep, Ghost(g_space_byte()), f, Ghost(g)) {
        Ok(v) => v,
        Err(x) => return Err(x),
    };
    let d = match byte(s, b, 0x29) {
        Ok(d) => d,
        Err(x) => return Err(x),
    };
    Ok((d, v))
}

/// An optional value that is itself optional: the result of `r`, or `None` at `i`
/// where it does not match.
pub open spec fn spec_opt_opt<T>(i: int, r: SRes<Option<T>>) -> SRes<Option<T>> {
    match r {
        Err(ParseError::Error) => Ok((i, None)),
        _ => r,
    }
}

pub open spec fn spec_opt_opt_at<T>(s: Seq<u8>, i: int, f: SpecParser<Option<T>>) -> SRes<Option<T>> {
    spec_opt_opt(i, f(s, i))
}

/// Runs `f`; where it does not match, gives `None` without consuming.
pub fn opt_opt<T: DeepView, F: Fn(&[u8], usize) -> PRes<Option<T>>>(
    s: &[u8],
    i: usize,
    f: F,
    Ghost(g): Ghost<SpecParser<Option<T::V>>>,
) -> (r: PRes<Option<T>>)
    requires
        i <= s@.len(),
        parser_ok(s, f, g),
    ensures
        dv(r) == spec_opt_opt_at(s@, i as int, g),
        wf(r, s@, i as int),
{
    match f(s, i) {
        Err(ParseError::Error) => Ok((i, None)),
        r => r,
    }
}

} // verus!

//! The ID response (RFC 2971 section 3.2).

use vstd::prelude::*;
use crate::parser::base::{
    dv, s_map, space0_c, space1_c, spec_kw_c, spec_space0_c, spec_space1_c, tag_kw_c, wf, Kw,
    PRes, ParseError, SRes,
};
use crate::parser::combinators::{many0, spec_many0, SpecParser};
use crate::parser::tokens::{
    p_nil, p_nstring_utf8, p_string_utf8, spec_nil, spec_nstring_utf8, spec_string_utf8,
};
use crate::types::Response;
use crate::types::model::{SpecResponse, Text};

verus! {

/// Sets field `k` to `v`: the entry of `k` takes the value where there is one, else
/// the field is added at the end.
pub open spec fn spec_id_put(m: Seq<(Text, Text)>, k: Text, v: Text) -> Seq<(Text, Text)> {
    if exists|j: int| 0 <= j < m.len() && m[j].0 == k {
        Seq::new(m.len(), |j: int| if m[j].0 == k { (k, v) } else { m[j] })
    } else {
        m.push((k, v))
    }
}

/// The fields of a parameter list that have a value, each field once, with the value
/// it last had, in the order in which the fields first came.
pub open spec fn spec_id_fields(ps: Seq<(Text, Option<Text>)>) -> Seq<(Text, Text)>
    decreases ps.len(),
{
    if ps.len() == 0 {
        Seq::empty()
    } else {
        let m = spec_id_fields(ps.drop_last());
        match ps.last().1 {
            None => m,
            Some(v) => spec_id_put(m, ps.last().0, v),
        }
    }
}

/// No field occurs twice.
pub open spec fn fields_distinct(m: Seq<(Text, Text)>) -> bool {
    forall|i: int, j: int| 0 <= i < j < m.len() ==> #[trigger] m[i].0 != #[trigger] m[j].0
}

proof fn lemma_put_keeps(m: Seq<(Text, Text)>, k: Text, v: Text, j: int)
    requires
        0 <= j < m.len(),
        m[j].0 != k,
    ensures
        exists|q: int| 0 <= q < spec_id_put(m, k, v).len() && spec_id_put(m, k, v)[q] == m[j],
{
    let r = spec_id_put(m, k, v);
    assert(r[j] == m[j]);
}

proof fn lemma_put_sets(m: Seq<(Text, Text)>, k: Text, v: Text)
    ensures
        exists|q: int| 0 <= q < spec_id_put(m, k, v).len() && spec_id_put(m, k, v)[q] == (k, v),
        forall|q: int| 0 <= q < spec_id_put(m, k, v).len() ==> (#[trigger] spec_id_put(m, k, v)[q] == (k, v)
            || exists|j: int| 0 <= j < m.len() && m[j] == spec_id_put(m, k, v)[q]),
{
    let r = spec_id_put(m, k, v);
    if exists|j: int| 0 <= j < m.len() && m[j].0 == k {
        let j = choose|j: int| 0 <= j < m.len() && m[j].0 == k;
        assert(r[j] == (k, v));
        assert forall|q: int| 0 <= q < r.len() implies (#[trigger] r[q] == (k, v)
            || exists|j: int| 0 <= j < m.len() && m[j] == r[q]) by {
            if m[q].0 != k {
                assert(m[q] == r[q]);
            }
        }
    } else {
        assert(r[m.len() as int] == (k, v));
        assert forall|q: int| 0 <= q < r.len() implies (#[trigger] r[q] == (k, v)
            || exists|j: int| 0 <= j < m.len() && m[j] == r[q]) by {
            if q < m.len() {
                assert(m[q] == r[q]);
            }
        }
    }
}

/// The fields of an ID response never repeat a field.
pub proof fn lemma_id_fields_distinct(ps: Seq<(Text, Option<Text>)>)
    ensures
        fields_distinct(spec_id_fields(ps)),
    decreases ps.len(),
{
    if ps.len() > 0 {
        lemma_id_fields_distinct(ps.drop_last());
        let m = spec_id_fields(ps.drop_last());
        if let Some(v) = ps.last().1 {
            let k = ps.last().0;
            let r = spec_id_put(m, k, v);
            if exists|j: int| 0 <= j < m.len() && m[j].0 == k {
                assert forall|i: int, j: int| 0 <= i < j < r.len() implies #[trigger] r[i].0 != #[trigger] r[j].0 by {
                    assert(r[i].0 == m[i].0);
                    assert(r[j].0 == m[j].0);
                }
            } else {
                assert forall|i: int, j: int| 0 <= i < j < r.len() implies #[trigger] r[i].0 != #[trigger] r[j].0 by {
                    assert(r[i] == m[i]);
                    if j < m.len() {
                        assert(r[j] == m[j]);
                    }
                }
            }
        }
    }
}

/// A field keeps the last value that the parameter list gave it.
pub proof fn lemma_id_fields_last_value(ps: Seq<(Text, Option<Text>)>, i: int, v: Text)
    requires
        0 <= i < ps.len(),
        ps[i].1 == Some(v),
        forall|q: int| i < q < ps.len() && #[trigger] ps[q].0 == ps[i].0 ==> ps[q].1 is None,
    ensures
        exists|j: int| 0 <= j < spec_id_fields(ps).len() && spec_id_fields(ps)[j] == (ps[i].0, v),
    decreases ps.len(),
{
    let m = spec_id_fields(ps.drop_last());
    let k = ps[i].0;
    if i == ps.len() - 1 {
        assert(ps.last() == ps[i]);
        assert(spec_id_fields(ps) == spec_id_put(m, k, v));
        lemma_put_sets(m, k, v);
    } else {
        let p = ps.drop_last();
        assert forall|q: int| i < q < p.len() && #[trigger] p[q].0 == p[i].0 implies p[q].1 is None by {
            assert(p[q] == ps[q]);
        }
        lemma_id_fields_last_value(p, i, v);
        let j = choose|j: int| 0 <= j < m.len() && m[j] == (k, v);
        let last = ps[ps.len() - 1];
        assert(ps.last() == last);
        match last.1 {
            None => {
                assert(spec_id_fields(ps) == m);
                assert(spec_id_fields(ps)[j] == (k, v));
            },
            Some(w) => {
                assert(last.0 != k);
                assert(spec_id_fields(ps) == spec_id_put(m, last.0, w));
                lemma_put_keeps(m, last.0, w, j);
            },
        }
    }
}

/// Each field of an ID response, with its value, was given by the parameter list.
pub proof fn lemma_id_fields_given(ps: Seq<(Text, Option<Text>)>)
    ensures
        forall|j: int| 0 <= j < spec_id_fields(ps).len() ==> exists|i: int|
            0 <= i < ps.len() && ps[i].0 == (#[trigger] spec_id_fields(ps)[j]).0 && ps[i].1 == Some(spec_id_fields(ps)[j].1),
    decreases ps.len(),
{
    if ps.len() > 0 {
        let p = ps.drop_last();
        lemma_id_fields_given(p);
        let m = spec_id_fields(p);
        let f = spec_id_fields(ps);
        let n = ps.len() - 1;
        assert forall|j: int| 0 <= j < f.len() implies exists|i: int|
            0 <= i < ps.len() && ps[i].0 == (#[trigger] f[j]).0 && ps[i].1 == Some(f[j].1) by {
            match ps.last().1 {
                None => {
                    let i = choose|i: int| 0 <= i < p.len() && p[i].0 == m[j].0 && p[i].1 == Some(m[j].1);
                    assert(ps[i] == p[i]);
                },
                Some(v) => {
                    lemma_put_sets(m, ps.last().0, v);
                    if f[j] == (ps.last().0, v) {
                        assert(ps[n].0 == f[j].0 && ps[n].1 == Some(f[j].1));
                    } else {
                        let q = choose|q: int| 0 <= q < m.len() && m[q] == f[j];
                        let i = choose|i: int| 0 <= i < p.len() && p[i].0 == m[q].0 && p[i].1 == Some(m[q].1);
                        assert(ps[i] == p[i]);
                    }
                },
            }
        }
    }
}

fn id_put(m: &mut Vec<(String, String)>, k: String, v: String)
    ensures
        final(m).deep_view() == spec_id_put(old(m).deep_view(), k@, v@),
{
    let ghost old_m = m.deep_view();
    let n = m.len();
    let mut found = false;
    let mut j: usize = 0;
    while j < n
        invariant
            n == old_m.len(),
            m@.len() == n,
            j <= n,
            found <==> exists|q: int| 0 <= q < j && old_m[q].0 == k@,
            forall|q: int|
                0 <= q < n ==> #[trigger] m.deep_view()[q] == (if q < j && old_m[q].0 == k@ {
                    (k@, v@)
                } else {
                    old_m[q]
                }),
        decreases n - j,
    {
        proof {
            assert(m.deep_view()[j as int] == old_m[j as int]);
            assert(m.deep_view()[j as int].0 == m@[j as int].0@);
        }
        if m[j].0 == k {
            let ghost before = m.deep_view();
            let kc = k.clone();
            let vc = v.clone();
            m.set(j, (kc, vc));
            proof {
                assert(m.deep_view()[j as int] == (k@, v@));
                assert forall|q: int| 0 <= q < n implies #[trigger] m.deep_view()[q] == (if q
                    < j + 1 && old_m[q].0 == k@ {
                    (k@, v@)
                } else {
                    old_m[q]
                }) by {
                    if q != j {
                        assert(m.deep_view()[q] == before[q]);
                    }
                }
            }
            found = true;
        } else {
            assert(old_m[j as int].0 != k@);
        }
        j = j + 1;
    }
    if found {
        assert(m.deep_view() =~= spec_id_put(old_m, k@, v@));
    } else {
        let ghost before = m.deep_view();
        assert(before =~= old_m);
        m.push((k, v));
        assert(m.deep_view() =~= old_m.push((k@, v@)));
    }
}

/// The fields of a parameter list that have a value, each field once.
pub fn id_fields(ps: Vec<(String, Option<String>)>) -> (r: Vec<(String, String)>)
    ensures
        r.deep_view() == spec_id_fields(ps.deep_view()),
{
    let ghost pv = ps.deep_view();
    let mut out: Vec<(String, String)> = Vec::new();
    proof {
        assert(out.deep_view() =~= Seq::<(Text, Text)>::empty());
        assert(pv.take(0) =~= Seq::<(Text, Option<Text>)>::empty());
    }
    let mut k: usize = 0;
    let n = ps.len();
    while k < n
        invariant
            n == pv.len(),
            pv == ps.deep_view(),
            k <= n,
            out.deep_view() == spec_id_fields(pv.take(k as int)),
        decreases n - k,
    {
        let (key, value) = &ps[k];
        proof {
            assert((key@, value.deep_view()) == pv[k as int]);
            assert(pv.take(k + 1).drop_last() =~= pv.take(k as int));
        }
        match value {
            Some(v) => id_put(&mut out, key.clone(), v.clone()),
            None => {},
        }
        k = k + 1;
    }
    proof {
        assert(pv.take(n as int) =~= pv);
    }
    out
}

/// id-param = string SP nstring
pub open spec fn spec_id_param(s: Seq<u8>, i: int) -> SRes<(Text, Option<Text>)> {
    match spec_string_utf8(s, i) {
        Err(x) => Err(x),
        Ok((a, k)) => match spec_space1_c(s, a) {
            Err(x) => Err(x),
            Ok(b) => s_map(spec_nstring_utf8(s, b), |v: Option<Text>| (k, v)),
        },
    }
}

fn p_id_param(s: &[u8], i: usize) -> (r: PRes<(String, Option<String>)>)
    requires
        i <= s@.len(),
    ensures
        dv(r) == spec_id_param(s@, i as int),
        wf(r, s@, i as int),
{
    let (a, k) = match p_string_utf8(s, i) {
        Ok(v) => v,
        Err(x) => return Err(x),
    };
    let b = match space1_c(s, a) {
        Ok(b) => b,
        Err(x) => return Err(x),
    };
    match p_nstring_utf8(s, b) {
        Ok((e, v)) => Ok((e, (k, v))),
        Err(x) => Err(x),
    }
}

/// SP id-param
pub open spec fn spec_sp_id_param(s: Seq<u8>, i: int) -> SRes<(Text, Option<Text>)> {
    match spec_space1_c(s, i) {
        Err(x) => Err(x),
        Ok(a) => spec_id_param(s, a),
    }
}

fn p_sp_id_param(s: &[u8], i: usize) -> (r: PRes<(String, Option<String>)>)
    requires
        i <= s@.len(),
    ensures
        dv(r) == spec_sp_id_param(s@, i as int),
        wf(r, s@, i as int),
{
    match space1_c(s, i) {
        Err(x) => Err(x),
        Ok(a) => p_id_param(s, a),
    }
}

pub open spec fn g_sp_id_param() -> SpecParser<(Text, Option<Text>)> {
    |s: Seq<u8>, i: int| spec_sp_id_param(s, i)
}

/// "(" id-param *(SP id-param) [SP] ")": the parameters, in order.
pub open spec fn spec_id_params(s: Seq<u8>, i: int) -> SRes<Seq<(Text, Option<Text>)>> {
    match spec_kw_c(s, i, Kw::LParen, false) {
        Err(x) => Err(x),
        Ok(a) => match spec_id_param(s, a) {
            Err(x) => Err(x),
            Ok((b, first)) => match spec_many0(s, b, g_sp_id_param()) {
                Err(x) => Err(x),
                Ok((c, rest)) => match spec_space0_c(s, c) {
                    Err(x) => Err(x),
                    Ok(d) => match spec_kw_c(s, d, Kw::RParen, false) {
                        Err(x) => Err(x),
                        Ok(e) => Ok((e, seq![first] + rest)),
                    },
                },
            },
        },
    }
}

fn p_id_params(s: &[u8], i: usize) -> (r: PRes<Vec<(String, Option<String>)>>)
    requires
        i <= s@.len(),
    ensures
        dv(r) == spec_id_params(s@, i as int),
        wf(r, s@, i as int),
{
    let a = match tag_kw_c(s, i, Kw::LParen, false) {
        Ok(a) => a,
        Err(x) => return Err(x),
    };
    let (b, first) = match p_id_param(s, a) {
        Ok(v) => v,
        Err(x) => return Err(x),
    };
    let f = |t: &[u8], j: usize| -> (q: PRes<(String, Option<String>)>)
        requires
            j <= t@.len(),
        ensures
            dv(q) == spec_sp_id_param(t@, j as int),
            wf(q, t@, j as int),
        { p_sp_id_param(t, j) };
    let (c, mut rest) = match many0(s, b, f, Ghost(g_sp_id_param())) {
        Ok(v) => v,
        Err(x) => return Err(x),
    };
    let d = match space0_c(s, c) {
        Ok(d) => d,
        Err(x) => return Err(x),
    };
    let e = match tag_kw_c(s, d, Kw::RParen, false) {
        Ok(e) => e,
        Err(x) => return Err(x),
    };
    let ghost fv = first.deep_view();
    let ghost rv = rest.deep_view();
    let mut out: Vec<(String, Option<String>)> = Vec::new();
    out.push(first);
    out.append(&mut rest);
    proof {
        assert(out.deep_view() =~= seq![fv] + rv);
    }
    Ok((e, out))
}

/// id_params_list ::= "(" #(string SPACE nstring) ")" / nil, read as the fields that
/// have a value.
pub open spec fn spec_id_param_list(s: Seq<u8>, i: int) -> SRes<Option<Seq<(Text, Text)>>> {
    match spec_id_params(s, i) {
        Ok((e, ps)) => Ok((e, Some(spec_id_fields(ps)))),
        Err(ParseError::Error) => match spec_nil(s, i) {
            Ok(e) => Ok((e, None)),
            Err(x) => Err(x),
        },
        Err(x) => Err(x),
    }
}

fn p_id_param_list(s: &[u8], i: usize) -> (r: PRes<Option<Vec<(String, String)>>>)
    requires
        i <= s@.len(),
    ensures
        dv(r) == spec_id_param_list(s@, i as int),
        wf(r, s@, i as int),
{
    match p_id_params(s, i) {
        Ok((e, ps)) => Ok((e, Some(id_fields(ps)))),
        Err(ParseError::Error) => match p_nil(s, i) {
            Ok(e) => Ok((e, None)),
            Err(x) => Err(x),
        },
        Err(x) => Err(x),
    }
}

fn id_response(fields: Option<Vec<(String, String)>>) -> (r: Response)
    ensures
        r.deep_view() == SpecResponse::Id(fields.deep_view()),
{
    Response::Id(fields)
}

/// id_response ::= "ID" SPACE id_params_list
pub open spec fn spec_resp_id(s: Seq<u8>, i: int) -> SRes<SpecResponse> {
    match spec_kw_c(s, i, Kw::IdKw, true) {
        Err(x) => Err(x),
        Ok(a) => match spec_space1_c(s, a) {
            Err(x) => Err(x),
            Ok(b) => s_map(
                spec_id_param_list(s, b),
                |fields: Option<Seq<(Text, Text)>>| SpecResponse::Id(fields),
            ),
        },
    }
}

pub fn p_resp_id(s: &[u8], i: usize) -> (r: PRes<Response>)
    requires
        i <= s@.len(),
    ensures
        dv(r) == spec_resp_id(s@, i as int),
        wf(r, s@, i as int),
{
    let a = match tag_kw_c(s, i, Kw::IdKw, true) {
        Ok(a) => a,
        Err(x) => return Err(x),
    };
    let b = match space1_c(s, a) {
        Ok(b) => b,
        Err(x) => return Err(x),
    };
    match p_id_param_list(s, b) {
        Ok((e, fields)) => Ok((e, id_response(fields))),
        Err(x) => Err(x),
    }
}


// ----- the public parsers, at the start of an input -----

/// The ID parameter at the start of `i`: a field and its value, `None` for NIL.
pub fn id_param(i: &[u8]) -> (r: crate::parser::base::IResult<'_, (String, Option<String>)>)
    ensures
        crate::parser::base::iresult_is(i@, r, spec_id_param(i@, 0)),
{
    crate::parser::base::finish(i, p_id_param(i, 0))
}

/// The parenthesized ID parameters at the start of `i`, read as the fields that have
/// a value.
pub fn id_param_list_not_nil(i: &[u8]) -> (r: crate::parser::base::IResult<'_, Vec<(String, String)>>)
    ensures
        crate::parser::base::iresult_is(
            i@,
            r,
            s_map(spec_id_params(i@, 0), |ps: Seq<(Text, Option<Text>)>| spec_id_fields(ps)),
        ),
{
    let q = match p_id_params(i, 0) {
        Ok((e, ps)) => Ok((e, id_fields(ps))),
        Err(x) => Err(x),
    };
    crate::parser::base::finish(i, q)
}

/// The ID parameters, or NIL, at the start of `i`.
pub fn id_param_list(i: &[u8]) -> (r: crate::parser::base::IResult<'_, Option<Vec<(String, String)>>>)
    ensures
        crate::parser::base::iresult_is(i@, r, spec_id_param_list(i@, 0)),
{
    crate::parser::base::finish(i, p_id_param_list(i, 0))
}

/// The ID response at the start of `i`.
pub fn resp_id(i: &[u8]) -> (r: crate::parser::base::IResult<'_, Response>)
    ensures
        crate::parser::base::iresult_is(i@, r, spec_resp_id(i@, 0)),
{
    crate::parser::base::finish(i, p_resp_id(i, 0))
}

} // verus!

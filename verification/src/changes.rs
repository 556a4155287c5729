//! The changeset: the declared delta between two builds, read from a JSON
//! object with string metadata fields and three arrays of relative paths
//! (`added`, `removed`, `modified`).
//!
//! Only the subset of JSON that changeset files use is accepted: one flat
//! object whose values are strings or arrays of strings, with the common
//! single-character escapes. Anything else is a format error, as is a
//! changeset whose three path lists are not pairwise disjoint once
//! separators are normalized.

use vstd::prelude::*;
use crate::text;

verus! {

// ---------------------------------------------------------------------
// Specification of the accepted JSON subset.
// ---------------------------------------------------------------------

/// A parsed JSON value of the accepted subset.
pub enum JsonText {
    Str(Seq<char>),
    Arr(Seq<Seq<char>>),
}

/// First index at or after `i` holding a non-whitespace character.
pub open spec fn spec_skip_ws(s: Seq<char>, i: int) -> int
    decreases s.len() - i,
{
    if 0 <= i < s.len() && text::spec_is_space(s[i]) {
        spec_skip_ws(s, i + 1)
    } else {
        i
    }
}

pub proof fn lemma_skip_ws_bounds(s: Seq<char>, i: int)
    requires
        0 <= i <= s.len(),
    ensures
        i <= spec_skip_ws(s, i) <= s.len(),
    decreases s.len() - i,
{
    if 0 <= i < s.len() && text::spec_is_space(s[i]) {
        lemma_skip_ws_bounds(s, i + 1);
    }
}

/// The character an escape sequence `\c` denotes, if `c` is a supported
/// escape.
pub open spec fn spec_unescape(c: char) -> Option<char> {
    if c == '"' {
        Some('"')
    } else if c == '\\' {
        Some('\\')
    } else if c == '/' {
        Some('/')
    } else if c == 'n' {
        Some('\n')
    } else if c == 't' {
        Some('\t')
    } else if c == 'r' {
        Some('\r')
    } else {
        None
    }
}

/// Parses a string body starting at `i` (just after the opening quote):
/// the decoded characters and the index just after the closing quote.
pub open spec fn spec_str_body(s: Seq<char>, i: int) -> Option<(Seq<char>, int)>
    decreases s.len() - i,
{
    if i < 0 || i >= s.len() {
        None
    } else if s[i] == '"' {
        Some((Seq::empty(), i + 1))
    } else if s[i] == '\\' {
        if i + 1 < s.len() {
            match spec_unescape(s[i + 1]) {
                Some(c) => match spec_str_body(s, i + 2) {
                    Some(t) => Some((seq![c] + t.0, t.1)),
                    None => None,
                },
                None => None,
            }
        } else {
            None
        }
    } else {
        match spec_str_body(s, i + 1) {
            Some(t) => Some((seq![s[i]] + t.0, t.1)),
            None => None,
        }
    }
}

pub proof fn lemma_str_body_bounds(s: Seq<char>, i: int)
    requires
        spec_str_body(s, i) is Some,
    ensures
        i < spec_str_body(s, i).unwrap().1 <= s.len(),
    decreases s.len() - i,
{
    if i < 0 || i >= s.len() {
    } else if s[i] == '"' {
    } else if s[i] == '\\' {
        lemma_str_body_bounds(s, i + 2);
    } else {
        lemma_str_body_bounds(s, i + 1);
    }
}

/// Parses the remainder of a string array after one element: either a
/// comma and another string element, or the closing bracket.
pub open spec fn spec_arr_tail(s: Seq<char>, i: int) -> Option<(Seq<Seq<char>>, int)>
    decreases s.len() - i,
    when 0 <= i <= s.len()
    via spec_arr_tail_decreases
{
    let k = spec_skip_ws(s, i);
    if k < s.len() && s[k] == ',' {
        let k2 = spec_skip_ws(s, k + 1);
        if k2 < s.len() && s[k2] == '"' {
            match spec_str_body(s, k2 + 1) {
                Some(t) => match spec_arr_tail(s, t.1) {
                    Some(r) => Some((seq![t.0] + r.0, r.1)),
                    None => None,
                },
                None => None,
            }
        } else {
            None
        }
    } else if k < s.len() && s[k] == ']' {
        Some((Seq::empty(), k + 1))
    } else {
        None
    }
}

#[via_fn]
proof fn spec_arr_tail_decreases(s: Seq<char>, i: int) {
    lemma_skip_ws_bounds(s, i);
    let k = spec_skip_ws(s, i);
    if k < s.len() && s[k] == ',' {
        lemma_skip_ws_bounds(s, k + 1);
        let k2 = spec_skip_ws(s, k + 1);
        if k2 < s.len() && s[k2] == '"' {
            if spec_str_body(s, k2 + 1) is Some {
                lemma_str_body_bounds(s, k2 + 1);
            }
        }
    }
}

pub proof fn lemma_arr_tail_bounds(s: Seq<char>, i: int)
    requires
        0 <= i <= s.len(),
        spec_arr_tail(s, i) is Some,
    ensures
        i <= spec_arr_tail(s, i).unwrap().1 <= s.len(),
    decreases s.len() - i,
{
    lemma_skip_ws_bounds(s, i);
    let k = spec_skip_ws(s, i);
    if k < s.len() && s[k] == ',' {
        lemma_skip_ws_bounds(s, k + 1);
        let k2 = spec_skip_ws(s, k + 1);
        if k2 < s.len() && s[k2] == '"' {
            if spec_str_body(s, k2 + 1) is Some {
                lemma_str_body_bounds(s, k2 + 1);
                lemma_arr_tail_bounds(s, spec_str_body(s, k2 + 1).unwrap().1);
            }
        }
    }
}

/// Parses a string array starting at `i` (at the opening bracket).
pub open spec fn spec_str_array(s: Seq<char>, i: int) -> Option<(Seq<Seq<char>>, int)> {
    if 0 <= i < s.len() && s[i] == '[' {
        let k = spec_skip_ws(s, i + 1);
        if k < s.len() && s[k] == ']' {
            Some((Seq::empty(), k + 1))
        } else if k < s.len() && s[k] == '"' {
            match spec_str_body(s, k + 1) {
                Some(t) => match spec_arr_tail(s, t.1) {
                    Some(r) => Some((seq![t.0] + r.0, r.1)),
                    None => None,
                },
                None => None,
            }
        } else {
            None
        }
    } else {
        None
    }
}

pub proof fn lemma_str_array_bounds(s: Seq<char>, i: int)
    requires
        spec_str_array(s, i) is Some,
    ensures
        i < spec_str_array(s, i).unwrap().1 <= s.len(),
{
    lemma_skip_ws_bounds(s, i + 1);
    let k = spec_skip_ws(s, i + 1);
    if k < s.len() && s[k] == ']' {
    } else {
        lemma_str_body_bounds(s, k + 1);
        lemma_arr_tail_bounds(s, spec_str_body(s, k + 1).unwrap().1);
    }
}

/// Parses a value of the accepted subset at `i`: a string or an array of
/// strings.
pub open spec fn spec_value(s: Seq<char>, i: int) -> Option<(JsonText, int)> {
    if 0 <= i < s.len() && s[i] == '"' {
        match spec_str_body(s, i + 1) {
            Some(t) => Some((JsonText::Str(t.0), t.1)),
            None => None,
        }
    } else if 0 <= i < s.len() && s[i] == '[' {
        match spec_str_array(s, i) {
            Some(t) => Some((JsonText::Arr(t.0), t.1)),
            None => None,
        }
    } else {
        None
    }
}

pub proof fn lemma_value_bounds(s: Seq<char>, i: int)
    requires
        spec_value(s, i) is Some,
    ensures
        i < spec_value(s, i).unwrap().1 <= s.len(),
{
    if 0 <= i < s.len() && s[i] == '"' {
        lemma_str_body_bounds(s, i + 1);
    } else {
        lemma_str_array_bounds(s, i);
    }
}

/// Parses one `"key": value` member starting at `i` (at the key's opening
/// quote).
pub open spec fn spec_member(s: Seq<char>, i: int) -> Option<((Seq<char>, JsonText), int)> {
    if 0 <= i < s.len() && s[i] == '"' {
        match spec_str_body(s, i + 1) {
            Some(kt) => {
                let k = spec_skip_ws(s, kt.1);
                if k < s.len() && s[k] == ':' {
                    let v = spec_skip_ws(s, k + 1);
                    match spec_value(s, v) {
                        Some(vt) => Some(((kt.0, vt.0), vt.1)),
                        None => None,
                    }
                } else {
                    None
                }
            },
            None => None,
        }
    } else {
        None
    }
}

pub proof fn lemma_member_bounds(s: Seq<char>, i: int)
    requires
        spec_member(s, i) is Some,
    ensures
        i < spec_member(s, i).unwrap().1 <= s.len(),
{
    lemma_str_body_bounds(s, i + 1);
    let kt = spec_str_body(s, i + 1).unwrap();
    lemma_skip_ws_bounds(s, kt.1);
    let k = spec_skip_ws(s, kt.1);
    lemma_skip_ws_bounds(s, k + 1);
    lemma_value_bounds(s, spec_skip_ws(s, k + 1));
}

/// Parses the remainder of an object after one member: either a comma and
/// another member, or the closing brace.
pub open spec fn spec_obj_tail(s: Seq<char>, i: int) -> Option<
    (Seq<(Seq<char>, JsonText)>, int),
>
    decreases s.len() - i,
    when 0 <= i <= s.len()
    via spec_obj_tail_decreases
{
    let k = spec_skip_ws(s, i);
    if k < s.len() && s[k] == ',' {
        let k2 = spec_skip_ws(s, k + 1);
        match spec_member(s, k2) {
            Some(m) => match spec_obj_tail(s, m.1) {
                Some(r) => Some((seq![m.0] + r.0, r.1)),
                None => None,
            },
            None => None,
        }
    } else if k < s.len() && s[k] == '}' {
        Some((Seq::empty(), k + 1))
    } else {
        None
    }
}

#[via_fn]
proof fn spec_obj_tail_decreases(s: Seq<char>, i: int) {
    lemma_skip_ws_bounds(s, i);
    let k = spec_skip_ws(s, i);
    if k < s.len() && s[k] == ',' {
        lemma_skip_ws_bounds(s, k + 1);
        let k2 = spec_skip_ws(s, k + 1);
        if spec_member(s, k2) is Some {
            lemma_member_bounds(s, k2);
        }
    }
}

pub proof fn lemma_obj_tail_bounds(s: Seq<char>, i: int)
    requires
        0 <= i <= s.len(),
        spec_obj_tail(s, i) is Some,
    ensures
        i <= spec_obj_tail(s, i).unwrap().1 <= s.len(),
    decreases s.len() - i,
{
    lemma_skip_ws_bounds(s, i);
    let k = spec_skip_ws(s, i);
    if k < s.len() && s[k] == ',' {
        lemma_skip_ws_bounds(s, k + 1);
        let k2 = spec_skip_ws(s, k + 1);
        if spec_member(s, k2) is Some {
            lemma_member_bounds(s, k2);
            lemma_obj_tail_bounds(s, spec_member(s, k2).unwrap().1);
        }
    }
}

/// Parses a whole flat object starting at `i` (at the opening brace).
pub open spec fn spec_object(s: Seq<char>, i: int) -> Option<(Seq<(Seq<char>, JsonText)>, int)> {
    if 0 <= i < s.len() && s[i] == '{' {
        let k = spec_skip_ws(s, i + 1);
        if k < s.len() && s[k] == '}' {
            Some((Seq::empty(), k + 1))
        } else {
            match spec_member(s, k) {
                Some(m) => match spec_obj_tail(s, m.1) {
                    Some(r) => Some((seq![m.0] + r.0, r.1)),
                    None => None,
                },
                None => None,
            }
        }
    } else {
        None
    }
}

/// The member list of a changeset document: one object, nothing but
/// whitespace around it.
pub open spec fn spec_doc(s: Seq<char>) -> Option<Seq<(Seq<char>, JsonText)>> {
    let i = spec_skip_ws(s, 0);
    match spec_object(s, i) {
        Some(r) => if spec_skip_ws(s, r.1) == s.len() {
            Some(r.0)
        } else {
            None
        },
        None => None,
    }
}

/// The value of the first member with the given key.
pub open spec fn spec_lookup(ms: Seq<(Seq<char>, JsonText)>, key: Seq<char>) -> Option<JsonText>
    decreases ms.len(),
{
    if ms.len() == 0 {
        None
    } else if ms[0].0 == key {
        Some(ms[0].1)
    } else {
        spec_lookup(ms.skip(1), key)
    }
}

// ---------------------------------------------------------------------
// Executable parser, mirroring the specification.
// ---------------------------------------------------------------------

/// An executable value of the accepted subset.
pub enum FieldData {
    Text(Vec<char>),
    List(Vec<Vec<char>>),
}

impl View for FieldData {
    type V = JsonText;

    open spec fn view(&self) -> JsonText {
        match self {
            FieldData::Text(v) => JsonText::Str(v@),
            FieldData::List(v) => JsonText::Arr(v.deep_view()),
        }
    }
}

fn skip_ws(s: &Vec<char>, i: usize) -> (r: usize)
    requires
        i <= s@.len(),
    ensures
        r == spec_skip_ws(s@, i as int),
        i <= r <= s@.len(),
{
    let mut j: usize = i;
    while j < s.len() && text::is_space(s[j])
        invariant
            i <= j <= s@.len(),
            spec_skip_ws(s@, i as int) == spec_skip_ws(s@, j as int),
        decreases s@.len() - j,
    {
        j = j + 1;
    }
    j
}

fn unescape(c: char) -> (r: Option<char>)
    ensures
        r == spec_unescape(c),
{
    if c == '"' {
        Some('"')
    } else if c == '\\' {
        Some('\\')
    } else if c == '/' {
        Some('/')
    } else if c == 'n' {
        Some('\n')
    } else if c == 't' {
        Some('\t')
    } else if c == 'r' {
        Some('\r')
    } else {
        None
    }
}

fn str_body(s: &Vec<char>, i: usize) -> (r: Option<(Vec<char>, usize)>)
    requires
        i <= s@.len(),
    ensures
        (r is Some) == (spec_str_body(s@, i as int) is Some),
        r matches Some(t) ==> spec_str_body(s@, i as int) == Some((t.0@, t.1 as int)) && i < t.1
            <= s@.len(),
    decreases s@.len() - i,
{
    if i >= s.len() {
        return None;
    }
    let c = s[i];
    if c == '"' {
        let v: Vec<char> = Vec::new();
        proof {
            assert(v@ =~= Seq::<char>::empty());
        }
        return Some((v, i + 1));
    }
    if c == '\\' {
        if i + 1 < s.len() {
            match unescape(s[i + 1]) {
                Some(e) => match str_body(s, i + 2) {
                    Some(t) => {
                        let (mut tail, j) = t;
                        let mut v: Vec<char> = Vec::new();
                        v.push(e);
                        let ghost tv = tail@;
                        v.append(&mut tail);
                        proof {
                            assert(v@ =~= seq![e] + tv);
                        }
                        Some((v, j))
                    },
                    None => None,
                },
                None => None,
            }
        } else {
            None
        }
    } else {
        match str_body(s, i + 1) {
            Some(t) => {
                let (mut tail, j) = t;
                let mut v: Vec<char> = Vec::new();
                v.push(c);
                let ghost tv = tail@;
                v.append(&mut tail);
                proof {
                    assert(v@ =~= seq![c] + tv);
                }
                Some((v, j))
            },
            None => None,
        }
    }
}

fn arr_tail(s: &Vec<char>, i: usize) -> (r: Option<(Vec<Vec<char>>, usize)>)
    requires
        i <= s@.len(),
    ensures
        (r is Some) == (spec_arr_tail(s@, i as int) is Some),
        r matches Some(t) ==> spec_arr_tail(s@, i as int) == Some((t.0.deep_view(), t.1 as int))
            && i <= t.1 <= s@.len(),
    decreases s@.len() - i,
{
    let k = skip_ws(s, i);
    if k < s.len() && s[k] == ',' {
        let k2 = skip_ws(s, k + 1);
        if k2 < s.len() && s[k2] == '"' {
            match str_body(s, k2 + 1) {
                Some(t) => {
                    let (elem, j) = t;
                    match arr_tail(s, j) {
                        Some(rt) => {
                            let (mut rest, j2) = rt;
                            let ghost rv = rest.deep_view();
                            let mut v: Vec<Vec<char>> = Vec::new();
                            let ghost ev = elem@;
                            proof {
                                assert(elem.deep_view() =~= elem@);
                            }
                            v.push(elem);
                            v.append(&mut rest);
                            proof {
                                assert(v.deep_view() =~= seq![ev] + rv);
                            }
                            Some((v, j2))
                        },
                        None => None,
                    }
                },
                None => None,
            }
        } else {
            None
        }
    } else if k < s.len() && s[k] == ']' {
        let v: Vec<Vec<char>> = Vec::new();
        proof {
            assert(v.deep_view() =~= Seq::<Seq<char>>::empty());
        }
        Some((v, k + 1))
    } else {
        None
    }
}

fn str_array(s: &Vec<char>, i: usize) -> (r: Option<(Vec<Vec<char>>, usize)>)
    requires
        i <= s@.len(),
    ensures
        (r is Some) == (spec_str_array(s@, i as int) is Some),
        r matches Some(t) ==> spec_str_array(s@, i as int) == Some((t.0.deep_view(), t.1 as int))
            && i < t.1 <= s@.len(),
{
    if i < s.len() && s[i] == '[' {
        let k = skip_ws(s, i + 1);
        if k < s.len() && s[k] == ']' {
            let v: Vec<Vec<char>> = Vec::new();
            proof {
                assert(v.deep_view() =~= Seq::<Seq<char>>::empty());
            }
            Some((v, k + 1))
        } else if k < s.len() && s[k] == '"' {
            match str_body(s, k + 1) {
                Some(t) => {
                    let (elem, j) = t;
                    match arr_tail(s, j) {
                        Some(rt) => {
                            let (mut rest, j2) = rt;
                            let ghost rv = rest.deep_view();
                            let mut v: Vec<Vec<char>> = Vec::new();
                            let ghost ev = elem@;
                            proof {
                                assert(elem.deep_view() =~= elem@);
                            }
                            v.push(elem);
                            v.append(&mut rest);
                            proof {
                                assert(v.deep_view() =~= seq![ev] + rv);
                            }
                            Some((v, j2))
                        },
                        None => None,
                    }
                },
                None => None,
            }
        } else {
            None
        }
    } else {
        None
    }
}

fn value_at(s: &Vec<char>, i: usize) -> (r: Option<(FieldData, usize)>)
    requires
        i <= s@.len(),
    ensures
        (r is Some) == (spec_value(s@, i as int) is Some),
        r matches Some(t) ==> spec_value(s@, i as int) == Some((t.0@, t.1 as int)) && i < t.1
            <= s@.len(),
{
    if i < s.len() && s[i] == '"' {
        match str_body(s, i + 1) {
            Some(t) => {
                let (body, j) = t;
                Some((FieldData::Text(body), j))
            },
            None => None,
        }
    } else if i < s.len() && s[i] == '[' {
        match str_array(s, i) {
            Some(t) => {
                let (items, j) = t;
                Some((FieldData::List(items), j))
            },
            None => None,
        }
    } else {
        None
    }
}

fn member_at(s: &Vec<char>, i: usize) -> (r: Option<((Vec<char>, FieldData), usize)>)
    requires
        i <= s@.len(),
    ensures
        (r is Some) == (spec_member(s@, i as int) is Some),
        r matches Some(t) ==> spec_member(s@, i as int) == Some((((t.0).0@, (t.0).1@), t.1 as int))
            && i < t.1 <= s@.len(),
{
    if i < s.len() && s[i] == '"' {
        match str_body(s, i + 1) {
            Some(t) => {
                let (key, j) = t;
                let k = skip_ws(s, j);
                if k < s.len() && s[k] == ':' {
                    let v = skip_ws(s, k + 1);
                    match value_at(s, v) {
                        Some(vt) => {
                            let (val, j2) = vt;
                            Some(((key, val), j2))
                        },
                        None => None,
                    }
                } else {
                    None
                }
            },
            None => None,
        }
    } else {
        None
    }
}

/// The (key, value) views of an executable member list.
pub open spec fn members_view(ms: Seq<(Vec<char>, FieldData)>) -> Seq<(Seq<char>, JsonText)> {
    ms.map_values(|m: (Vec<char>, FieldData)| (m.0@, m.1@))
}

fn obj_tail(s: &Vec<char>, i: usize) -> (r: Option<(Vec<(Vec<char>, FieldData)>, usize)>)
    requires
        i <= s@.len(),
    ensures
        (r is Some) == (spec_obj_tail(s@, i as int) is Some),
        r matches Some(t) ==> spec_obj_tail(s@, i as int) == Some((members_view(t.0@), t.1 as int))
            && i <= t.1 <= s@.len(),
    decreases s@.len() - i,
{
    let k = skip_ws(s, i);
    if k < s.len() && s[k] == ',' {
        let k2 = skip_ws(s, k + 1);
        match member_at(s, k2) {
            Some(m) => {
                let (pair, j) = m;
                match obj_tail(s, j) {
                    Some(rt) => {
                        let (mut rest, j2) = rt;
                        let ghost rv = members_view(rest@);
                        let ghost pv = (pair.0@, pair.1@);
                        let mut v: Vec<(Vec<char>, FieldData)> = Vec::new();
                        v.push(pair);
                        v.append(&mut rest);
                        proof {
                            assert(members_view(v@) =~= seq![pv] + rv);
                        }
                        Some((v, j2))
                    },
                    None => None,
                }
            },
            None => None,
        }
    } else if k < s.len() && s[k] == '}' {
        let v: Vec<(Vec<char>, FieldData)> = Vec::new();
        proof {
            assert(members_view(v@) =~= Seq::<(Seq<char>, JsonText)>::empty());
        }
        Some((v, k + 1))
    } else {
        None
    }
}

fn object_at(s: &Vec<char>, i: usize) -> (r: Option<(Vec<(Vec<char>, FieldData)>, usize)>)
    requires
        i <= s@.len(),
    ensures
        (r is Some) == (spec_object(s@, i as int) is Some),
        r matches Some(t) ==> spec_object(s@, i as int) == Some((members_view(t.0@), t.1 as int))
            && i < t.1 <= s@.len(),
{
    if i < s.len() && s[i] == '{' {
        let k = skip_ws(s, i + 1);
        if k < s.len() && s[k] == '}' {
            let v: Vec<(Vec<char>, FieldData)> = Vec::new();
            proof {
                assert(members_view(v@) =~= Seq::<(Seq<char>, JsonText)>::empty());
            }
            Some((v, k + 1))
        } else {
            match member_at(s, k) {
                Some(m) => {
                    let (pair, j) = m;
                    match obj_tail(s, j) {
                        Some(rt) => {
                            let (mut rest, j2) = rt;
                            let ghost rv = members_view(rest@);
                            let ghost pv = (pair.0@, pair.1@);
                            let mut v: Vec<(Vec<char>, FieldData)> = Vec::new();
                            v.push(pair);
                            v.append(&mut rest);
                            proof {
                                assert(members_view(v@) =~= seq![pv] + rv);
                            }
                            Some((v, j2))
                        },
                        None => None,
                    }
                },
                None => None,
            }
        }
    } else {
        None
    }
}

fn doc_members(s: &Vec<char>) -> (r: Option<Vec<(Vec<char>, FieldData)>>)
    ensures
        (r is Some) == (spec_doc(s@) is Some),
        r matches Some(v) ==> spec_doc(s@) == Some(members_view(v@)),
{
    let i = skip_ws(s, 0);
    match object_at(s, i) {
        Some(t) => {
            let (ms, j) = t;
            let k = skip_ws(s, j);
            if k == s.len() {
                Some(ms)
            } else {
                None
            }
        },
        None => None,
    }
}

fn lookup_field<'a>(ms: &'a Vec<(Vec<char>, FieldData)>, key: &str) -> (r: Option<
    &'a FieldData,
>)
    ensures
        match spec_lookup(members_view(ms@), key@) {
            Some(v) => r matches Some(f) && f@ == v,
            None => r is None,
        },
{
    let ghost mv = members_view(ms@);
    let mut i: usize = 0;
    proof {
        assert(mv.skip(0) =~= mv);
    }
    while i < ms.len()
        invariant
            i <= ms@.len(),
            mv == members_view(ms@),
            spec_lookup(mv, key@) == spec_lookup(mv.skip(i as int), key@),
        decreases ms@.len() - i,
    {
        proof {
            assert(mv.skip(i as int).skip(1) =~= mv.skip(i + 1));
            assert(mv.skip(i as int)[0] == mv[i as int]);
        }
        if text::eq_str(&ms[i].0, key) {
            return Some(&ms[i].1);
        }
        i = i + 1;
    }
    proof {
        assert(mv.skip(mv.len() as int) =~= Seq::<(Seq<char>, JsonText)>::empty());
    }
    None
}


// ---------------------------------------------------------------------
// The changeset itself.
// ---------------------------------------------------------------------

/// Why a changeset could not be produced.
#[derive(Debug, Clone, Copy, PartialEq, Eq, Structural)]
pub enum ChangesError {
    /// No changeset file is configured.
    NotFound,
    /// The configured file could not be read.
    IoError,
    /// The content does not conform to the changeset schema.
    FormatError,
}

/// The mathematical content of a changeset.
#[verifier::ext_equal]
pub struct ChangesData {
    pub name: Seq<char>,
    pub app: Seq<char>,
    pub initial_build: Seq<char>,
    pub final_build: Seq<char>,
    pub depot: Seq<char>,
    pub manifest: Seq<char>,
    pub added: Seq<Seq<char>>,
    pub removed: Seq<Seq<char>>,
    pub modified: Seq<Seq<char>>,
}

/// No path of `a` normalizes to a path of `b`.
pub open spec fn spec_no_common(a: Seq<Seq<char>>, b: Seq<Seq<char>>) -> bool {
    forall|i: int, j: int|
        0 <= i < a.len() && 0 <= j < b.len() ==> text::spec_normalize(#[trigger] a[i])
            != text::spec_normalize(#[trigger] b[j])
}

/// The normalized paths of a list, as a set.
pub open spec fn spec_norm_set(ps: Seq<Seq<char>>) -> Set<Seq<char>> {
    ps.map_values(|p: Seq<char>| text::spec_normalize(p)).to_set()
}

/// A build delta: metadata and the three path lists.
#[derive(Clone)]
pub struct Changes {
    pub name: String,
    pub app: String,
    pub initial_build: String,
    pub final_build: String,
    pub depot: String,
    pub manifest: String,
    pub added: Vec<String>,
    pub removed: Vec<String>,
    pub modified: Vec<String>,
}

impl View for Changes {
    type V = ChangesData;

    open spec fn view(&self) -> ChangesData {
        ChangesData {
            name: self.name@,
            app: self.app@,
            initial_build: self.initial_build@,
            final_build: self.final_build@,
            depot: self.depot@,
            manifest: self.manifest@,
            added: self.added.deep_view(),
            removed: self.removed.deep_view(),
            modified: self.modified.deep_view(),
        }
    }
}

impl Changes {
    /// The three path lists are pairwise disjoint, comparing normalized
    /// paths.
    pub open spec fn wf(&self) -> bool {
        spec_no_common(self.added.deep_view(), self.removed.deep_view()) && spec_no_common(
            self.added.deep_view(),
            self.modified.deep_view(),
        ) && spec_no_common(self.removed.deep_view(), self.modified.deep_view())
    }

    /// The added and modified paths merged into one working list, leaving
    /// the changeset itself untouched.
    pub fn added_modified(&self) -> (r: Vec<String>)
        ensures
            r.deep_view() == self.added.deep_view() + self.modified.deep_view(),
    {
        let mut r: Vec<String> = Vec::new();
        let mut i: usize = 0;
        while i < self.added.len()
            invariant
                i <= self.added@.len(),
                r.deep_view() == self.added.deep_view().take(i as int),
            decreases self.added@.len() - i,
        {
            let ghost old_dv = r.deep_view();
            let s = text::clone_string(&self.added[i]);
            r.push(s);
            proof {
                assert(r.deep_view() =~= old_dv.push(s@));
                assert(self.added.deep_view().take(i + 1) =~= self.added.deep_view().take(
                    i as int,
                ).push(self.added.deep_view()[i as int]));
            }
            i = i + 1;
        }
        proof {
            assert(self.added.deep_view().take(self.added@.len() as int) =~= self.added.deep_view());
        }
        let mut j: usize = 0;
        while j < self.modified.len()
            invariant
                j <= self.modified@.len(),
                r.deep_view() == self.added.deep_view() + self.modified.deep_view().take(j as int),
            decreases self.modified@.len() - j,
        {
            let ghost old_dv = r.deep_view();
            let s = text::clone_string(&self.modified[j]);
            r.push(s);
            proof {
                assert(r.deep_view() =~= old_dv.push(s@));
                assert(self.modified.deep_view().take(j + 1) =~= self.modified.deep_view().take(
                    j as int,
                ).push(self.modified.deep_view()[j as int]));
                assert(self.added.deep_view() + self.modified.deep_view().take(j + 1) =~= (
                self.added.deep_view() + self.modified.deep_view().take(j as int)).push(
                    self.modified.deep_view()[j as int],
                ));
            }
            j = j + 1;
        }
        proof {
            assert(self.modified.deep_view().take(self.modified@.len() as int)
                =~= self.modified.deep_view());
        }
        r
    }
}

/// For any well-formed changeset the three path sets are pairwise
/// disjoint: added and removed, added and modified, and removed and
/// modified share no path, comparing normalized paths.
pub proof fn lemma_changes_disjoint(c: &Changes)
    requires
        c.wf(),
    ensures
        spec_norm_set(c.added.deep_view()).intersect(spec_norm_set(c.removed.deep_view()))
            =~= Set::<Seq<char>>::empty(),
        spec_norm_set(c.added.deep_view()).intersect(spec_norm_set(c.modified.deep_view()))
            =~= Set::<Seq<char>>::empty(),
        spec_norm_set(c.removed.deep_view()).intersect(spec_norm_set(c.modified.deep_view()))
            =~= Set::<Seq<char>>::empty(),
{
    lemma_no_common_disjoint(c.added.deep_view(), c.removed.deep_view());
    lemma_no_common_disjoint(c.added.deep_view(), c.modified.deep_view());
    lemma_no_common_disjoint(c.removed.deep_view(), c.modified.deep_view());
}

proof fn lemma_no_common_disjoint(a: Seq<Seq<char>>, b: Seq<Seq<char>>)
    requires
        spec_no_common(a, b),
    ensures
        spec_norm_set(a).intersect(spec_norm_set(b)) =~= Set::<Seq<char>>::empty(),
{
    let na = a.map_values(|p: Seq<char>| text::spec_normalize(p));
    let nb = b.map_values(|p: Seq<char>| text::spec_normalize(p));
    assert forall|x: Seq<char>| !(spec_norm_set(a).intersect(spec_norm_set(b)).contains(
        x,
    )) by {
        if spec_norm_set(a).contains(x) && spec_norm_set(b).contains(x) {
            let i = choose|i: int| 0 <= i < na.len() && na[i] == x;
            let j = choose|j: int| 0 <= j < nb.len() && nb[j] == x;
            assert(text::spec_normalize(a[i]) == text::spec_normalize(b[j]));
        }
    }
}

/// The text field of the first member with the given key, if that member
/// is a string.
pub open spec fn spec_field_str(ms: Seq<(Seq<char>, JsonText)>, key: Seq<char>) -> Option<
    Seq<char>,
> {
    match spec_lookup(ms, key) {
        Some(JsonText::Str(t)) => Some(t),
        _ => None,
    }
}

/// The list field of the first member with the given key, if that member
/// is an array of strings.
pub open spec fn spec_field_arr(ms: Seq<(Seq<char>, JsonText)>, key: Seq<char>) -> Option<
    Seq<Seq<char>>,
> {
    match spec_lookup(ms, key) {
        Some(JsonText::Arr(t)) => Some(t),
        _ => None,
    }
}

/// The changeset a document denotes, if it parses, has every required
/// field of the right kind, and its path lists are pairwise disjoint.
pub open spec fn spec_changes_of(s: Seq<char>) -> Option<ChangesData> {
    match spec_doc(s) {
        None => None,
        Some(ms) => {
            if spec_field_str(ms, "name"@) is Some && spec_field_str(ms, "app"@) is Some
                && spec_field_str(ms, "initial_build"@) is Some && spec_field_str(
                ms,
                "final_build"@,
            ) is Some && spec_field_str(ms, "depot"@) is Some && spec_field_str(
                ms,
                "manifest"@,
            ) is Some && spec_field_arr(ms, "added"@) is Some && spec_field_arr(
                ms,
                "removed"@,
            ) is Some && spec_field_arr(ms, "modified"@) is Some && spec_no_common(
                spec_field_arr(ms, "added"@).unwrap(),
                spec_field_arr(ms, "removed"@).unwrap(),
            ) && spec_no_common(
                spec_field_arr(ms, "added"@).unwrap(),
                spec_field_arr(ms, "modified"@).unwrap(),
            ) && spec_no_common(
                spec_field_arr(ms, "removed"@).unwrap(),
                spec_field_arr(ms, "modified"@).unwrap(),
            ) {
                Some(
                    ChangesData {
                        name: spec_field_str(ms, "name"@).unwrap(),
                        app: spec_field_str(ms, "app"@).unwrap(),
                        initial_build: spec_field_str(ms, "initial_build"@).unwrap(),
                        final_build: spec_field_str(ms, "final_build"@).unwrap(),
                        depot: spec_field_str(ms, "depot"@).unwrap(),
                        manifest: spec_field_str(ms, "manifest"@).unwrap(),
                        added: spec_field_arr(ms, "added"@).unwrap(),
                        removed: spec_field_arr(ms, "removed"@).unwrap(),
                        modified: spec_field_arr(ms, "modified"@).unwrap(),
                    },
                )
            } else {
                None
            }
        },
    }
}

fn field_str(ms: &Vec<(Vec<char>, FieldData)>, key: &str) -> (r: Option<String>)
    ensures
        (r is Some) == (spec_field_str(members_view(ms@), key@) is Some),
        r matches Some(x) ==> spec_field_str(members_view(ms@), key@) == Some(x@),
{
    match lookup_field(ms, key) {
        Some(f) => match f {
            FieldData::Text(v) => Some(text::string_of(v)),
            FieldData::List(_) => None,
        },
        None => None,
    }
}

fn field_arr(ms: &Vec<(Vec<char>, FieldData)>, key: &str) -> (r: Option<Vec<String>>)
    ensures
        (r is Some) == (spec_field_arr(members_view(ms@), key@) is Some),
        r matches Some(x) ==> spec_field_arr(members_view(ms@), key@) == Some(x.deep_view()),
{
    match lookup_field(ms, key) {
        Some(f) => match f {
            FieldData::List(items) => {
                let mut out: Vec<String> = Vec::new();
                let mut i: usize = 0;
                while i < items.len()
                    invariant
                        i <= items@.len(),
                        out.deep_view() == items.deep_view().take(i as int),
                    decreases items@.len() - i,
                {
                    let ghost old_dv = out.deep_view();
                    let s = text::string_of(&items[i]);
                    proof {
                        assert(items.deep_view()[i as int] =~= items@[i as int]@);
                    }
                    out.push(s);
                    proof {
                        assert(out.deep_view() =~= old_dv.push(s@));
                        assert(items.deep_view().take(i + 1) =~= items.deep_view().take(
                            i as int,
                        ).push(items.deep_view()[i as int]));
                    }
                    i = i + 1;
                }
                proof {
                    assert(items.deep_view().take(items@.len() as int) =~= items.deep_view());
                }
                Some(out)
            },
            FieldData::Text(_) => None,
        },
        None => None,
    }
}

/// The normalized image of every path in the list.
pub fn norm_all_paths(v: &Vec<String>) -> (r: Vec<Vec<char>>)
    ensures
        r.deep_view() == v.deep_view().map_values(|p: Seq<char>| text::spec_normalize(p)),
{
    let ghost goal = v.deep_view().map_values(|p: Seq<char>| text::spec_normalize(p));
    let mut r: Vec<Vec<char>> = Vec::new();
    let mut i: usize = 0;
    while i < v.len()
        invariant
            i <= v@.len(),
            goal == v.deep_view().map_values(|p: Seq<char>| text::spec_normalize(p)),
            r.deep_view() == goal.take(i as int),
        decreases v@.len() - i,
    {
        let ghost old_dv = r.deep_view();
        let cs = text::chars_of(v[i].as_str());
        let n = text::normalize_separators(&cs);
        proof {
            assert(v.deep_view()[i as int] =~= v@[i as int]@);
            assert(n.deep_view() =~= n@);
        }
        r.push(n);
        proof {
            assert(r.deep_view() =~= old_dv.push(n@));
            assert(goal.take(i + 1) =~= goal.take(i as int).push(goal[i as int]));
        }
        i = i + 1;
    }
    proof {
        assert(goal.take(goal.len() as int) =~= goal);
        assert(r.deep_view() =~= goal);
    }
    r
}

/// Some path of `a` equals some path of `b` (both already normalized).
fn have_common(a: &Vec<Vec<char>>, b: &Vec<Vec<char>>) -> (r: bool)
    ensures
        r == exists|i: int, j: int|
            0 <= i < a.deep_view().len() && 0 <= j < b.deep_view().len()
                && #[trigger] a.deep_view()[i] == #[trigger] b.deep_view()[j],
{
    let ghost adv = a.deep_view();
    let ghost bdv = b.deep_view();
    let mut i: usize = 0;
    while i < a.len()
        invariant
            i <= a@.len(),
            adv == a.deep_view(),
            bdv == b.deep_view(),
            forall|x: int, y: int|
                0 <= x < i && 0 <= y < bdv.len() ==> #[trigger] adv[x] != #[trigger] bdv[y],
        decreases a@.len() - i,
    {
        let mut j: usize = 0;
        while j < b.len()
            invariant
                i < a@.len(),
                j <= b@.len(),
                adv == a.deep_view(),
                bdv == b.deep_view(),
                forall|y: int| 0 <= y < j ==> #[trigger] bdv[y] != adv[i as int],
            decreases b@.len() - j,
        {
            proof {
                assert(adv[i as int] =~= a@[i as int]@);
                assert(bdv[j as int] =~= b@[j as int]@);
            }
            if text::eq_chars(&a[i], &b[j]) {
                return true;
            }
            j = j + 1;
        }
        i = i + 1;
    }
    false
}

/// Parses a configured changeset file's content into a changeset.
///
/// With no path configured the answer is `NotFound`; with a path whose
/// content could not be read it is `IoError`; content that does not
/// denote a well-formed changeset is `FormatError`.
pub fn parse_changes(path: &Option<String>, content: &Option<String>) -> (r: Result<
    Changes,
    ChangesError,
>)
    ensures
        path is None ==> (r matches Err(e) && e is NotFound),
        path is Some && content is None ==> (r matches Err(e) && e is IoError),
        path is Some ==> (content matches Some(c) ==> match spec_changes_of(c@) {
            Some(d) => r matches Ok(ch) && ch@ == d && ch.wf(),
            None => r matches Err(e) && e is FormatError,
        }),
{
    if path.is_none() {
        return Err(ChangesError::NotFound);
    }
    let c = match content {
        Some(c) => c,
        None => {
            return Err(ChangesError::IoError);
        },
    };
    let cs = text::chars_of(c.as_str());
    let ms = match doc_members(&cs) {
        Some(ms) => ms,
        None => {
            return Err(ChangesError::FormatError);
        },
    };
    let name = field_str(&ms, "name");
    let app = field_str(&ms, "app");
    let initial_build = field_str(&ms, "initial_build");
    let final_build = field_str(&ms, "final_build");
    let depot = field_str(&ms, "depot");
    let manifest = field_str(&ms, "manifest");
    let added = field_arr(&ms, "added");
    let removed = field_arr(&ms, "removed");
    let modified = field_arr(&ms, "modified");
    if name.is_none() || app.is_none() || initial_build.is_none() || final_build.is_none()
        || depot.is_none() || manifest.is_none() || added.is_none() || removed.is_none()
        || modified.is_none() {
        return Err(ChangesError::FormatError);
    }
    let added = added.unwrap();
    let removed = removed.unwrap();
    let modified = modified.unwrap();
    let na = norm_all_paths(&added);
    let nr = norm_all_paths(&removed);
    let nm = norm_all_paths(&modified);
    let c1 = have_common(&na, &nr);
    let c2 = have_common(&na, &nm);
    let c3 = have_common(&nr, &nm);
    proof {
        lemma_norm_common(added.deep_view(), removed.deep_view(), na.deep_view(), nr.deep_view(), c1);
        lemma_norm_common(added.deep_view(), modified.deep_view(), na.deep_view(), nm.deep_view(), c2);
        lemma_norm_common(removed.deep_view(), modified.deep_view(), nr.deep_view(), nm.deep_view(), c3);
    }
    if c1 || c2 || c3 {
        return Err(ChangesError::FormatError);
    }
    let ch = Changes {
        name: name.unwrap(),
        app: app.unwrap(),
        initial_build: initial_build.unwrap(),
        final_build: final_build.unwrap(),
        depot: depot.unwrap(),
        manifest: manifest.unwrap(),
        added,
        removed,
        modified,
    };
    proof {
        assert(ch@ =~= spec_changes_of(c@).unwrap());
    }
    Ok(ch)
}

/// Relates the element-wise common test on normalized lists to
/// `spec_no_common` on the lists themselves.
proof fn lemma_norm_common(
    a: Seq<Seq<char>>,
    b: Seq<Seq<char>>,
    na: Seq<Seq<char>>,
    nb: Seq<Seq<char>>,
    common: bool,
)
    requires
        na == a.map_values(|p: Seq<char>| text::spec_normalize(p)),
        nb == b.map_values(|p: Seq<char>| text::spec_normalize(p)),
        common == exists|i: int, j: int|
            0 <= i < na.len() && 0 <= j < nb.len() && #[trigger] na[i] == #[trigger] nb[j],
    ensures
        common == !spec_no_common(a, b),
{
    if common {
        let (i, j) = choose|i: int, j: int|
            0 <= i < na.len() && 0 <= j < nb.len() && #[trigger] na[i] == #[trigger] nb[j];
        assert(text::spec_normalize(a[i]) == text::spec_normalize(b[j]));
    } else {
        assert forall|i: int, j: int|
            0 <= i < a.len() && 0 <= j < b.len() implies text::spec_normalize(#[trigger] a[i])
            != text::spec_normalize(#[trigger] b[j]) by {
            assert(na[i] == text::spec_normalize(a[i]));
            assert(nb[j] == text::spec_normalize(b[j]));
        }
    }
}


} // verus!

//! Circuit inputs: a mapping from signal name to one or more field-element
//! values, written by the caller as a small textual object, e.g.
//! `{"x": 2, "h": "3", "y": [4, 5]}`.  Every value is an exact decimal
//! numeral (scalar, quoted scalar, or an ordered sequence of either);
//! whitespace may stand around names, separators and values.
//!
//! The grammar is given by the `sp_*` specification functions; the
//! executable parser is proved to return exactly what they denote.

use vstd::prelude::*;

use crate::numerals::{is_digit_char, is_numeral};

verus! {

/// One signal's value: a single field element or an ordered sequence.
pub enum InputValue {
    Scalar(String),
    Array(Vec<String>),
}

/// Specification-level value of an `InputValue`.
#[verifier::ext_equal]
pub enum InputValueV {
    Scalar(Seq<char>),
    Array(Seq<Seq<char>>),
}

impl View for InputValue {
    type V = InputValueV;

    open spec fn view(&self) -> InputValueV {
        match self {
            InputValue::Scalar(s) => InputValueV::Scalar(s@),
            InputValue::Array(v) => InputValueV::Array(v@.map_values(|x: String| x@)),
        }
    }
}

/// Named inputs for one circuit invocation, in the order they were written.
pub struct CircuitInputs {
    pub entries: Vec<(String, InputValue)>,
}

pub open spec fn entries_view(es: Seq<(String, InputValue)>) -> Seq<(Seq<char>, InputValueV)> {
    es.map_values(|p: (String, InputValue)| (p.0@, p.1@))
}

impl View for CircuitInputs {
    type V = Seq<(Seq<char>, InputValueV)>;

    open spec fn view(&self) -> Seq<(Seq<char>, InputValueV)> {
        entries_view(self.entries@)
    }
}

pub open spec fn is_ws_char(c: char) -> bool {
    c == ' ' || c == '\t' || c == '\n' || c == '\r'
}

pub open spec fn is_name_char(c: char) -> bool {
    ||| is_digit_char(c)
    ||| (97 <= c as u32 && c as u32 <= 122)
    ||| (65 <= c as u32 && c as u32 <= 90)
    ||| c == '_'
    ||| c == '$'
}

/// A well-formed signal name: non-empty, name characters only.
pub open spec fn is_name(s: Seq<char>) -> bool {
    s.len() > 0 && forall|i: int| 0 <= i < s.len() ==> is_name_char(#[trigger] s[i])
}

/// True iff `s` is a well-formed signal name.
pub fn check_name(s: &str) -> (r: bool)
    ensures
        r == is_name(s@),
{
    let n = s.unicode_len();
    if n == 0 {
        return false;
    }
    let mut i: usize = 0;
    while i < n
        invariant
            0 <= i <= n,
            n == s@.len(),
            forall|j: int| 0 <= j < i ==> is_name_char(#[trigger] s@[j]),
        decreases n - i,
    {
        let c = s.get_char(i);
        let u = c as u32;
        if !((48 <= u && u <= 57) || (97 <= u && u <= 122) || (65 <= u && u <= 90) || c == '_'
            || c == '$') {
            return false;
        }
        i += 1;
    }
    true
}

/// Every entry has a well-formed name and only numeral values; only such
/// entries have a faithful canonical backend form.
pub open spec fn wf_entry_value(v: InputValueV) -> bool {
    match v {
        InputValueV::Scalar(x) => is_numeral(x),
        InputValueV::Array(vs) => forall|j: int| 0 <= j < vs.len() ==> is_numeral(#[trigger] vs[j]),
    }
}

pub open spec fn wf_entries(es: Seq<(Seq<char>, InputValueV)>) -> bool {
    forall|i: int|
        0 <= i < es.len() ==> is_name((#[trigger] es[i]).0) && wf_entry_value(es[i].1)
}

/// Position of the first non-whitespace character at or after `i`.
pub open spec fn skip_ws(s: Seq<char>, i: int) -> int
    decreases s.len() - i,
    when 0 <= i <= s.len()
{
    if i < s.len() && is_ws_char(s[i]) {
        skip_ws(s, i + 1)
    } else {
        i
    }
}

pub proof fn lemma_skip_ws_bounds(s: Seq<char>, i: int)
    requires
        0 <= i <= s.len(),
    ensures
        i <= skip_ws(s, i) <= s.len(),
    decreases s.len() - i,
{
    if i < s.len() && is_ws_char(s[i]) {
        lemma_skip_ws_bounds(s, i + 1);
    }
}

/// End of the run of decimal digits starting at `i`.
pub open spec fn scan_digits(s: Seq<char>, i: int) -> int
    decreases s.len() - i,
    when 0 <= i <= s.len()
{
    if i < s.len() && is_digit_char(s[i]) {
        scan_digits(s, i + 1)
    } else {
        i
    }
}

pub proof fn lemma_scan_digits_bounds(s: Seq<char>, i: int)
    requires
        0 <= i <= s.len(),
    ensures
        i <= scan_digits(s, i) <= s.len(),
    decreases s.len() - i,
{
    if i < s.len() && is_digit_char(s[i]) {
        lemma_scan_digits_bounds(s, i + 1);
    }
}

/// End of the run of name characters starting at `i`.
pub open spec fn scan_name(s: Seq<char>, i: int) -> int
    decreases s.len() - i,
    when 0 <= i <= s.len()
{
    if i < s.len() && is_name_char(s[i]) {
        scan_name(s, i + 1)
    } else {
        i
    }
}

pub proof fn lemma_scan_name_bounds(s: Seq<char>, i: int)
    requires
        0 <= i <= s.len(),
    ensures
        i <= scan_name(s, i) <= s.len(),
    decreases s.len() - i,
{
    if i < s.len() && is_name_char(s[i]) {
        lemma_scan_name_bounds(s, i + 1);
    }
}

/// A bare numeral at `i`: the token and the position after it.
pub open spec fn sp_numeral(s: Seq<char>, i: int) -> Option<(Seq<char>, int)> {
    let j = scan_digits(s, i);
    if j > i && is_numeral(s.subrange(i, j)) {
        Some((s.subrange(i, j), j))
    } else {
        None
    }
}

/// A numeral in double quotes at `i`.
pub open spec fn sp_quoted_numeral(s: Seq<char>, i: int) -> Option<(Seq<char>, int)> {
    if i < s.len() && s[i] == '"' {
        match sp_numeral(s, i + 1) {
            Some((tok, j)) => if j < s.len() && s[j] == '"' {
                Some((tok, j + 1))
            } else {
                None
            },
            None => None,
        }
    } else {
        None
    }
}

/// One array element: a numeral, bare or quoted.
pub open spec fn sp_elem(s: Seq<char>, i: int) -> Option<(Seq<char>, int)> {
    if i < s.len() && s[i] == '"' {
        sp_quoted_numeral(s, i)
    } else {
        sp_numeral(s, i)
    }
}

pub proof fn lemma_sp_numeral_bounds(s: Seq<char>, i: int)
    requires
        0 <= i <= s.len(),
    ensures
        sp_numeral(s, i) matches Some(r) ==> i < r.1 <= s.len(),
{
    lemma_scan_digits_bounds(s, i);
}

pub proof fn lemma_sp_elem_bounds(s: Seq<char>, i: int)
    requires
        0 <= i <= s.len(),
    ensures
        sp_elem(s, i) matches Some(r) ==> i < r.1 <= s.len(),
{
    lemma_sp_numeral_bounds(s, i);
    if i < s.len() && s[i] == '"' {
        lemma_sp_numeral_bounds(s, i + 1);
    }
}

/// Elements of a non-empty array from `i` up to and including the closing
/// bracket: the values and the position after `]`.
pub open spec fn sp_elems(s: Seq<char>, i: int) -> Option<(Seq<Seq<char>>, int)>
    decreases s.len() - i,
    when 0 <= i <= s.len()
    via sp_elems_dec
{
    match sp_elem(s, i) {
        Some((v, j)) => {
            let k = skip_ws(s, j);
            if k < s.len() && s[k] == ',' {
                match sp_elems(s, skip_ws(s, k + 1)) {
                    Some((vs, end)) => Some((seq![v] + vs, end)),
                    None => None,
                }
            } else if k < s.len() && s[k] == ']' {
                Some((seq![v], k + 1))
            } else {
                None
            }
        },
        None => None,
    }
}

#[via_fn]
proof fn sp_elems_dec(s: Seq<char>, i: int) {
    lemma_sp_elem_bounds(s, i);
    match sp_elem(s, i) {
        Some((v, j)) => {
            lemma_skip_ws_bounds(s, j);
            let k = skip_ws(s, j);
            if k < s.len() {
                lemma_skip_ws_bounds(s, k + 1);
            }
        },
        None => {},
    }
}

pub proof fn lemma_sp_elems_bounds(s: Seq<char>, i: int)
    requires
        0 <= i <= s.len(),
    ensures
        sp_elems(s, i) matches Some(r) ==> i < r.1 <= s.len(),
    decreases s.len() - i,
{
    lemma_sp_elem_bounds(s, i);
    match sp_elem(s, i) {
        Some((v, j)) => {
            lemma_skip_ws_bounds(s, j);
            let k = skip_ws(s, j);
            if k < s.len() && s[k] == ',' {
                lemma_skip_ws_bounds(s, k + 1);
                lemma_sp_elems_bounds(s, skip_ws(s, k + 1));
            }
        },
        None => {},
    }
}

/// A value at `i`: a scalar numeral (bare or quoted) or an array of them.
pub open spec fn sp_value(s: Seq<char>, i: int) -> Option<(InputValueV, int)> {
    if i < s.len() && s[i] == '[' {
        let j = skip_ws(s, i + 1);
        if j < s.len() && s[j] == ']' {
            Some((InputValueV::Array(Seq::empty()), j + 1))
        } else {
            match sp_elems(s, j) {
                Some((vs, end)) => Some((InputValueV::Array(vs), end)),
                None => None,
            }
        }
    } else {
        match sp_elem(s, i) {
            Some((v, j)) => Some((InputValueV::Scalar(v), j)),
            None => None,
        }
    }
}

pub proof fn lemma_sp_value_bounds(s: Seq<char>, i: int)
    requires
        0 <= i <= s.len(),
    ensures
        sp_value(s, i) matches Some(r) ==> i < r.1 <= s.len(),
{
    lemma_sp_elem_bounds(s, i);
    if i < s.len() && s[i] == '[' {
        lemma_skip_ws_bounds(s, i + 1);
        lemma_sp_elems_bounds(s, skip_ws(s, i + 1));
    }
}

/// A quoted signal name at `i`: the name and the position after the
/// closing quote.
pub open spec fn sp_name(s: Seq<char>, i: int) -> Option<(Seq<char>, int)> {
    if i < s.len() && s[i] == '"' {
        let j = scan_name(s, i + 1);
        if j > i + 1 && j < s.len() && s[j] == '"' {
            Some((s.subrange(i + 1, j), j + 1))
        } else {
            None
        }
    } else {
        None
    }
}

pub proof fn lemma_sp_name_bounds(s: Seq<char>, i: int)
    requires
        0 <= i <= s.len(),
    ensures
        sp_name(s, i) matches Some(r) ==> i < r.1 <= s.len(),
{
    if i < s.len() && s[i] == '"' {
        lemma_scan_name_bounds(s, i + 1);
    }
}

/// Members of a non-empty object from `i` up to and including the closing
/// brace: the named values and the position after `}`.
pub open spec fn sp_members(s: Seq<char>, i: int) -> Option<
    (Seq<(Seq<char>, InputValueV)>, int),
>
    decreases s.len() - i,
    when 0 <= i <= s.len()
    via sp_members_dec
{
    match sp_name(s, i) {
        Some((nm, j)) => {
            let j2 = skip_ws(s, j);
            if j2 < s.len() && s[j2] == ':' {
                match sp_value(s, skip_ws(s, j2 + 1)) {
                    Some((v, k)) => {
                        let k2 = skip_ws(s, k);
                        if k2 < s.len() && s[k2] == ',' {
                            match sp_members(s, skip_ws(s, k2 + 1)) {
                                Some((es, end)) => Some((seq![(nm, v)] + es, end)),
                                None => None,
                            }
                        } else if k2 < s.len() && s[k2] == '}' {
                            Some((seq![(nm, v)], k2 + 1))
                        } else {
                            None
                        }
                    },
                    None => None,
                }
            } else {
                None
            }
        },
        None => None,
    }
}

#[via_fn]
proof fn sp_members_dec(s: Seq<char>, i: int) {
    lemma_sp_name_bounds(s, i);
    match sp_name(s, i) {
        Some((nm, j)) => {
            lemma_skip_ws_bounds(s, j);
            let j2 = skip_ws(s, j);
            if j2 < s.len() {
                lemma_skip_ws_bounds(s, j2 + 1);
                lemma_sp_value_bounds(s, skip_ws(s, j2 + 1));
                match sp_value(s, skip_ws(s, j2 + 1)) {
                    Some((v, k)) => {
                        lemma_skip_ws_bounds(s, k);
                        let k2 = skip_ws(s, k);
                        if k2 < s.len() {
                            lemma_skip_ws_bounds(s, k2 + 1);
                        }
                    },
                    None => {},
                }
            }
        },
        None => {},
    }
}

/// The whole input text: a braced object of named values, possibly empty,
/// with nothing but whitespace around it.
pub open spec fn sp_inputs(s: Seq<char>) -> Option<Seq<(Seq<char>, InputValueV)>> {
    let i0 = skip_ws(s, 0);
    if i0 < s.len() && s[i0] == '{' {
        let i1 = skip_ws(s, i0 + 1);
        if i1 < s.len() && s[i1] == '}' {
            if skip_ws(s, i1 + 1) == s.len() {
                Some(Seq::empty())
            } else {
                None
            }
        } else {
            match sp_members(s, i1) {
                Some((es, j)) => if skip_ws(s, j) == s.len() {
                    Some(es)
                } else {
                    None
                },
                None => None,
            }
        }
    } else {
        None
    }
}

pub proof fn lemma_scan_digits_run(s: Seq<char>, i: int)
    requires
        0 <= i <= s.len(),
    ensures
        forall|k: int| i <= k < scan_digits(s, i) ==> is_digit_char(#[trigger] s[k]),
    decreases s.len() - i,
{
    if i < s.len() && is_digit_char(s[i]) {
        lemma_scan_digits_run(s, i + 1);
    }
}

fn skip_ws_x(s: &str, n: usize, i: usize) -> (r: usize)
    requires
        i <= n,
        n == s@.len(),
    ensures
        r == skip_ws(s@, i as int),
        i <= r <= n,
    decreases n - i,
{
    if i < n {
        let c = s.get_char(i);
        if c == ' ' || c == '\t' || c == '\n' || c == '\r' {
            return skip_ws_x(s, n, i + 1);
        }
    }
    i
}

fn scan_digits_x(s: &str, n: usize, i: usize) -> (r: usize)
    requires
        i <= n,
        n == s@.len(),
    ensures
        r == scan_digits(s@, i as int),
        i <= r <= n,
    decreases n - i,
{
    if i < n {
        let c = s.get_char(i);
        if 48 <= c as u32 && c as u32 <= 57 {
            return scan_digits_x(s, n, i + 1);
        }
    }
    i
}

fn scan_name_x(s: &str, n: usize, i: usize) -> (r: usize)
    requires
        i <= n,
        n == s@.len(),
    ensures
        r == scan_name(s@, i as int),
        i <= r <= n,
    decreases n - i,
{
    if i < n {
        let c = s.get_char(i);
        let u = c as u32;
        if (48 <= u && u <= 57) || (97 <= u && u <= 122) || (65 <= u && u <= 90) || c == '_'
            || c == '$' {
            return scan_name_x(s, n, i + 1);
        }
    }
    i
}

fn numeral_x(s: &str, n: usize, i: usize) -> (r: Option<(String, usize)>)
    requires
        i <= n,
        n == s@.len(),
    ensures
        match r {
            Some(rr) => sp_numeral(s@, i as int) == Some((rr.0@, rr.1 as int)) && i < rr.1 <= n,
            None => sp_numeral(s@, i as int) is None,
        },
{
    let j = scan_digits_x(s, n, i);
    if j == i {
        return None;
    }
    proof {
        lemma_scan_digits_run(s@, i as int);
        assert(s@.subrange(i as int, j as int)[0] == s@[i as int]);
    }
    let first = s.get_char(i);
    if first as u32 == 48 && j > i + 1 {
        proof {
            crate::numerals::lemma_char_inj(first, '0');
        }
        return None;
    }
    let tok = s.substring_char(i, j).to_owned();
    proof {
        if first as u32 != 48 {
            assert(s@[i as int] != '0') by {
                if s@[i as int] == '0' {
                    crate::numerals::lemma_char_inj(first, '0');
                }
            }
        }
        assert(is_numeral(s@.subrange(i as int, j as int)));
    }
    Some((tok, j))
}

fn quoted_numeral_x(s: &str, n: usize, i: usize) -> (r: Option<(String, usize)>)
    requires
        i <= n,
        n == s@.len(),
    ensures
        match r {
            Some(rr) => sp_quoted_numeral(s@, i as int) == Some((rr.0@, rr.1 as int)) && i < rr.1
                <= n,
            None => sp_quoted_numeral(s@, i as int) is None,
        },
{
    if i < n && s.get_char(i) == '"' {
        match numeral_x(s, n, i + 1) {
            Some((tok, j)) => {
                if j < n && s.get_char(j) == '"' {
                    Some((tok, j + 1))
                } else {
                    None
                }
            },
            None => None,
        }
    } else {
        None
    }
}

fn elem_x(s: &str, n: usize, i: usize) -> (r: Option<(String, usize)>)
    requires
        i <= n,
        n == s@.len(),
    ensures
        match r {
            Some(rr) => sp_elem(s@, i as int) == Some((rr.0@, rr.1 as int)) && i < rr.1 <= n,
            None => sp_elem(s@, i as int) is None,
        },
{
    if i < n && s.get_char(i) == '"' {
        quoted_numeral_x(s, n, i)
    } else {
        numeral_x(s, n, i)
    }
}

fn elems_x(s: &str, n: usize, i: usize) -> (r: Option<(Vec<String>, usize)>)
    requires
        i <= n,
        n == s@.len(),
    ensures
        match r {
            Some(rr) => sp_elems(s@, i as int) == Some(
                (rr.0@.map_values(|x: String| x@), rr.1 as int),
            ) && i < rr.1 <= n,
            None => sp_elems(s@, i as int) is None,
        },
    decreases n - i,
{
    match elem_x(s, n, i) {
        Some((v, j)) => {
            let k = skip_ws_x(s, n, j);
            if k < n && s.get_char(k) == ',' {
                let k2 = skip_ws_x(s, n, k + 1);
                match elems_x(s, n, k2) {
                    Some((mut vs, end)) => {
                        vs.insert(0, v);
                        proof {
                            assert(vs@.map_values(|x: String| x@) =~= seq![v@] + vs@.drop_first()
                                .map_values(|x: String| x@));
                        }
                        Some((vs, end))
                    },
                    None => None,
                }
            } else if k < n && s.get_char(k) == ']' {
                let mut vs: Vec<String> = Vec::new();
                vs.push(v);
                proof {
                    assert(vs@.map_values(|x: String| x@) =~= seq![v@]);
                }
                Some((vs, k + 1))
            } else {
                None
            }
        },
        None => None,
    }
}

fn value_x(s: &str, n: usize, i: usize) -> (r: Option<(InputValue, usize)>)
    requires
        i <= n,
        n == s@.len(),
    ensures
        match r {
            Some(rr) => sp_value(s@, i as int) == Some((rr.0@, rr.1 as int)) && i < rr.1 <= n,
            None => sp_value(s@, i as int) is None,
        },
{
    if i < n && s.get_char(i) == '[' {
        let j = skip_ws_x(s, n, i + 1);
        if j < n && s.get_char(j) == ']' {
            let empty_vals: Vec<String> = Vec::new();
            let rv = InputValue::Array(empty_vals);
            proof {
                assert(rv@ =~~= InputValueV::Array(Seq::<Seq<char>>::empty()));
                assert(sp_value(s@, i as int) == Some((rv@, j + 1 as int)));
            }
            Some((rv, j + 1))
        } else {
            match elems_x(s, n, j) {
                Some((vs, end)) => {
                    let rv = InputValue::Array(vs);
                    proof {
                        assert(sp_value(s@, i as int) == Some((rv@, end as int)));
                    }
                    Some((rv, end))
                },
                None => None,
            }
        }
    } else {
        match elem_x(s, n, i) {
            Some((v, j)) => Some((InputValue::Scalar(v), j)),
            None => None,
        }
    }
}

fn name_x(s: &str, n: usize, i: usize) -> (r: Option<(String, usize)>)
    requires
        i <= n,
        n == s@.len(),
    ensures
        match r {
            Some(rr) => sp_name(s@, i as int) == Some((rr.0@, rr.1 as int)) && i < rr.1 <= n,
            None => sp_name(s@, i as int) is None,
        },
{
    if i < n && s.get_char(i) == '"' {
        let j = scan_name_x(s, n, i + 1);
        if j > i + 1 && j < n && s.get_char(j) == '"' {
            let nm = s.substring_char(i + 1, j).to_owned();
            Some((nm, j + 1))
        } else {
            None
        }
    } else {
        None
    }
}

fn members_x(s: &str, n: usize, i: usize) -> (r: Option<(Vec<(String, InputValue)>, usize)>)
    requires
        i <= n,
        n == s@.len(),
    ensures
        match r {
            Some(rr) => sp_members(s@, i as int) == Some((entries_view(rr.0@), rr.1 as int)) && i
                < rr.1 <= n,
            None => sp_members(s@, i as int) is None,
        },
    decreases n - i,
{
    match name_x(s, n, i) {
        Some((nm, j)) => {
            let j2 = skip_ws_x(s, n, j);
            if j2 < n && s.get_char(j2) == ':' {
                let j3 = skip_ws_x(s, n, j2 + 1);
                match value_x(s, n, j3) {
                    Some((v, k)) => {
                        let k2 = skip_ws_x(s, n, k);
                        if k2 < n && s.get_char(k2) == ',' {
                            let k3 = skip_ws_x(s, n, k2 + 1);
                            match members_x(s, n, k3) {
                                Some((mut es, end)) => {
                                    let ghost tail = es@;
                                    es.insert(0, (nm, v));
                                    proof {
                                        assert(entries_view(es@) =~= seq![(nm@, v@)]
                                            + entries_view(tail));
                                    }
                                    Some((es, end))
                                },
                                None => None,
                            }
                        } else if k2 < n && s.get_char(k2) == '}' {
                            let mut es: Vec<(String, InputValue)> = Vec::new();
                            es.push((nm, v));
                            proof {
                                assert(entries_view(es@) =~= seq![(nm@, v@)]);
                            }
                            Some((es, k2 + 1))
                        } else {
                            None
                        }
                    },
                    None => None,
                }
            } else {
                None
            }
        },
        None => None,
    }
}

pub open spec fn json_quoted(n: Seq<char>) -> Seq<char> {
    seq!['"'] + n + seq!['"']
}

pub open spec fn json_items(vs: Seq<Seq<char>>) -> Seq<char>
    decreases vs.len(),
{
    if vs.len() == 0 {
        Seq::empty()
    } else if vs.len() == 1 {
        json_quoted(vs[0])
    } else {
        json_quoted(vs[0]) + seq![','] + json_items(vs.drop_first())
    }
}

/// The canonical backend form of one value: always an array of quoted
/// numerals, a scalar becoming the one-element array.
pub open spec fn json_value(v: InputValueV) -> Seq<char> {
    match v {
        InputValueV::Scalar(x) => seq!['['] + json_quoted(x) + seq![']'],
        InputValueV::Array(vs) => seq!['['] + json_items(vs) + seq![']'],
    }
}

pub open spec fn json_members(es: Seq<(Seq<char>, InputValueV)>) -> Seq<char>
    decreases es.len(),
{
    if es.len() == 0 {
        Seq::empty()
    } else if es.len() == 1 {
        json_quoted(es[0].0) + seq![':'] + json_value(es[0].1)
    } else {
        json_quoted(es[0].0) + seq![':'] + json_value(es[0].1) + seq![','] + json_members(
            es.drop_first(),
        )
    }
}

/// The canonical textual form handed to the witness generator.
pub open spec fn backend_json_of(es: Seq<(Seq<char>, InputValueV)>) -> Seq<char> {
    seq!['{'] + json_members(es) + seq!['}']
}

fn json_quoted_x(n: &String) -> (r: String)
    ensures
        r@ == json_quoted(n@),
{
    let mut out = "\"".to_owned();
    out.append(n.as_str());
    out.append("\"");
    proof {
        reveal_strlit("\"");
        assert(out@ =~= json_quoted(n@));
    }
    out
}

fn json_items_x(vs: &Vec<String>, i: usize) -> (r: String)
    requires
        i <= vs.len(),
    ensures
        r@ == json_items(vs@.map_values(|x: String| x@).skip(i as int)),
    decreases vs.len() - i,
{
    let ghost tail = vs@.map_values(|x: String| x@).skip(i as int);
    if i == vs.len() {
        proof {
            reveal_strlit("");
            assert(tail =~= Seq::<Seq<char>>::empty());
        }
        "".to_owned()
    } else {
        let mut out = json_quoted_x(&vs[i]);
        if i + 1 == vs.len() {
            proof {
                assert(tail.len() == 1);
                assert(tail[0] == vs@[i as int]@);
                assert(out@ =~= json_items(tail));
            }
            out
        } else {
            let rest = json_items_x(vs, i + 1);
            out.append(",");
            out.append(rest.as_str());
            proof {
                reveal_strlit(",");
                assert(tail.drop_first() =~= vs@.map_values(|x: String| x@).skip(i + 1 as int));
                assert(tail[0] == vs@[i as int]@);
                assert(tail.len() > 1);
                assert(out@ =~= json_items(tail));
            }
            out
        }
    }
}

fn json_value_x(v: &InputValue) -> (r: String)
    ensures
        r@ == json_value(v@),
{
    proof {
        reveal_strlit("[");
        reveal_strlit("]");
    }
    match v {
        InputValue::Scalar(x) => {
            let mut out = "[".to_owned();
            let q = json_quoted_x(x);
            out.append(q.as_str());
            out.append("]");
            proof {
                assert(out@ =~= json_value(v@));
            }
            out
        },
        InputValue::Array(vs) => {
            let mut out = "[".to_owned();
            let items = json_items_x(vs, 0);
            proof {
                assert(vs@.map_values(|x: String| x@).skip(0) =~= vs@.map_values(
                    |x: String| x@,
                ));
            }
            out.append(items.as_str());
            out.append("]");
            proof {
                assert(out@ =~= json_value(v@));
            }
            out
        },
    }
}

fn json_members_x(es: &Vec<(String, InputValue)>, i: usize) -> (r: String)
    requires
        i <= es.len(),
    ensures
        r@ == json_members(entries_view(es@).skip(i as int)),
    decreases es.len() - i,
{
    let ghost tail = entries_view(es@).skip(i as int);
    if i == es.len() {
        proof {
            reveal_strlit("");
            assert(tail =~= Seq::<(Seq<char>, InputValueV)>::empty());
        }
        "".to_owned()
    } else {
        let mut out = json_quoted_x(&es[i].0);
        out.append(":");
        let vj = json_value_x(&es[i].1);
        out.append(vj.as_str());
        proof {
            reveal_strlit(":");
            assert(tail[0] == (es@[i as int].0@, es@[i as int].1@));
        }
        if i + 1 == es.len() {
            proof {
                assert(tail.len() == 1);
                assert(out@ =~= json_members(tail));
            }
            out
        } else {
            let rest = json_members_x(es, i + 1);
            out.append(",");
            out.append(rest.as_str());
            proof {
                reveal_strlit(",");
                assert(tail.drop_first() =~= entries_view(es@).skip(i + 1 as int));
                assert(tail.len() > 1);
                assert(out@ =~= json_members(tail));
            }
            out
        }
    }
}

/// Writes the canonical backend form of the inputs: every signal bound to
/// an array of quoted numerals, in the order the caller wrote them.
pub fn to_backend_json(ci: &CircuitInputs) -> (r: String)
    ensures
        r@ == backend_json_of(ci@),
{
    let mut out = "{".to_owned();
    let members = json_members_x(&ci.entries, 0);
    out.append(members.as_str());
    out.append("}");
    proof {
        reveal_strlit("{");
        reveal_strlit("}");
        assert(entries_view(ci.entries@).skip(0) =~= entries_view(ci.entries@));
        assert(out@ =~= backend_json_of(ci@));
    }
    out
}

/// Parses the textual form of circuit inputs.  Returns `Some` exactly when
/// the text is in the input grammar, and then returns its denotation.
pub fn parse_inputs(s: &str) -> (r: Option<CircuitInputs>)
    ensures
        match r {
            Some(ci) => sp_inputs(s@) == Some(ci@),
            None => sp_inputs(s@) is None,
        },
{
    let n = s.unicode_len();
    let i0 = skip_ws_x(s, n, 0);
    if i0 < n && s.get_char(i0) == '{' {
        let i1 = skip_ws_x(s, n, i0 + 1);
        if i1 < n && s.get_char(i1) == '}' {
            if skip_ws_x(s, n, i1 + 1) == n {
                let ci = CircuitInputs { entries: Vec::new() };
                proof {
                    assert(ci@ =~= Seq::<(Seq<char>, InputValueV)>::empty());
                }
                Some(ci)
            } else {
                None
            }
        } else {
            match members_x(s, n, i1) {
                Some((es, j)) => {
                    if skip_ws_x(s, n, j) == n {
                        Some(CircuitInputs { entries: es })
                    } else {
                        None
                    }
                },
                None => None,
            }
        }
    } else {
        None
    }
}

} // verus!

//! Canonical decimal numerals: the exact, arbitrary-precision encoding of
//! field elements used throughout the bridge.  A numeral is a non-empty
//! sequence of ASCII digits with no leading zero (except "0" itself);
//! `dec_val` gives its mathematical value.

use vstd::prelude::*;

verus! {

/// Two characters with the same code point are the same character.
pub proof fn lemma_char_inj(c: char, d: char)
    requires
        c as u32 == d as u32,
    ensures
        c == d,
{
}

pub open spec fn is_digit_char(c: char) -> bool {
    48 <= c as u32 && c as u32 <= 57
}

pub open spec fn digit_val(c: char) -> nat {
    (c as u32 - 48) as nat
}

/// A canonical decimal numeral: non-empty, all digits, no leading zero.
pub open spec fn is_numeral(s: Seq<char>) -> bool {
    &&& s.len() > 0
    &&& (forall|i: int| 0 <= i < s.len() ==> is_digit_char(#[trigger] s[i]))
    &&& (s[0] == '0' ==> s.len() == 1)
}

pub open spec fn pow10(n: nat) -> nat
    decreases n,
{
    if n == 0 {
        1
    } else {
        10 * pow10((n - 1) as nat)
    }
}

/// The value of a digit sequence, most significant digit first.
pub open spec fn dec_val(s: Seq<char>) -> nat
    decreases s.len(),
{
    if s.len() == 0 {
        0
    } else {
        digit_val(s[0]) * pow10((s.len() - 1) as nat) + dec_val(s.drop_first())
    }
}

pub proof fn lemma_pow10_pos(n: nat)
    ensures
        pow10(n) >= 1,
    decreases n,
{
    if n > 0 {
        lemma_pow10_pos((n - 1) as nat);
    }
}

pub proof fn lemma_pow10_mono(m: nat, n: nat)
    requires
        m <= n,
    ensures
        pow10(m) <= pow10(n),
    decreases n,
{
    if m < n {
        lemma_pow10_mono(m, (n - 1) as nat);
        lemma_pow10_pos((n - 1) as nat);
    }
}

/// Any digit sequence of length L has value below 10^L.
pub proof fn lemma_dec_val_upper(s: Seq<char>)
    requires
        forall|i: int| 0 <= i < s.len() ==> is_digit_char(#[trigger] s[i]),
    ensures
        dec_val(s) < pow10(s.len()),
    decreases s.len(),
{
    if s.len() == 0 {
    } else {
        let rest = s.drop_first();
        assert(forall|i: int| 0 <= i < rest.len() ==> is_digit_char(#[trigger] rest[i]));
        lemma_dec_val_upper(rest);
        let p = pow10((s.len() - 1) as nat);
        let d = digit_val(s[0]);
        assert(d <= 9);
        assert(d * p <= 9 * p) by (nonlinear_arith)
            requires d <= 9, p >= 0;
        assert(pow10(s.len()) == 10 * p);
        assert(dec_val(s) == d * p + dec_val(rest));
        assert(dec_val(rest) < p);
    }
}

/// A canonical numeral of length L has value at least 10^(L-1).
pub proof fn lemma_numeral_lower(s: Seq<char>)
    requires
        is_numeral(s),
        s[0] != '0',
    ensures
        dec_val(s) >= pow10((s.len() - 1) as nat),
{
    let p = pow10((s.len() - 1) as nat);
    let d = digit_val(s[0]);
    if s[0] as u32 == 48 {
        lemma_char_inj(s[0], '0');
    }
    assert(d >= 1);
    assert(d * p >= 1 * p) by (nonlinear_arith)
        requires d >= 1, p >= 0;
}

/// Equal-length digit sequences that agree up to position i and differ
/// there are ordered by their digit at i.
pub proof fn lemma_lex_lt(a: Seq<char>, b: Seq<char>, i: int)
    requires
        a.len() == b.len(),
        forall|j: int| 0 <= j < a.len() ==> is_digit_char(#[trigger] a[j]),
        forall|j: int| 0 <= j < b.len() ==> is_digit_char(#[trigger] b[j]),
        0 <= i < a.len(),
        forall|j: int| 0 <= j < i ==> a[j] == b[j],
        (a[i] as u32) < (b[i] as u32),
    ensures
        dec_val(a) < dec_val(b),
    decreases i,
{
    let p = pow10((a.len() - 1) as nat);
    if i == 0 {
        let da = digit_val(a[0]);
        let db = digit_val(b[0]);
        assert(da + 1 <= db);
        lemma_dec_val_upper(a.drop_first());
        assert(dec_val(a) == da * p + dec_val(a.drop_first()));
        assert(dec_val(b) == db * p + dec_val(b.drop_first()));
        assert(da * p + p <= db * p) by (nonlinear_arith)
            requires da + 1 <= db, p >= 0;
        assert(dec_val(a.drop_first()) < p);
    } else {
        let ra = a.drop_first();
        let rb = b.drop_first();
        assert(forall|j: int| 0 <= j < ra.len() ==> is_digit_char(#[trigger] ra[j]));
        assert(forall|j: int| 0 <= j < rb.len() ==> is_digit_char(#[trigger] rb[j]));
        assert(forall|j: int| 0 <= j < i - 1 ==> ra[j] == rb[j]);
        lemma_lex_lt(ra, rb, i - 1);
        assert(a[0] == b[0]);
        assert(dec_val(a) == digit_val(a[0]) * p + dec_val(ra));
        assert(dec_val(b) == digit_val(b[0]) * p + dec_val(rb));
    }
}

/// Law: the canonical numeral encoding is faithful — two canonical numerals
/// with the same value are the same text, so field elements written this
/// way are parsed exactly, with no two spellings of one value.
pub proof fn lemma_numeral_faithful(a: Seq<char>, b: Seq<char>)
    requires
        is_numeral(a),
        is_numeral(b),
        dec_val(a) == dec_val(b),
    ensures
        a == b,
{
    if a.len() < b.len() {
        lemma_numeral_value_order(a, b);
    } else if b.len() < a.len() {
        lemma_numeral_value_order(b, a);
    } else {
        if a != b {
            assert(exists|i: int| 0 <= i < a.len() && a[i] != b[i]) by {
                if forall|i: int| 0 <= i < a.len() ==> a[i] == b[i] {
                    assert(a =~= b);
                }
            }
            let j = first_difference(a, b, 0);
            lemma_first_difference(a, b, 0);
            if (a[j] as u32) < (b[j] as u32) {
                lemma_lex_lt(a, b, j);
            } else {
                assert(a[j] as u32 != b[j] as u32) by {
                    if a[j] as u32 == b[j] as u32 {
                        lemma_char_inj(a[j], b[j]);
                    }
                }
                lemma_lex_lt(b, a, j);
            }
        }
    }
}

/// A shorter canonical numeral has a strictly smaller value.
proof fn lemma_numeral_value_order(a: Seq<char>, b: Seq<char>)
    requires
        is_numeral(a),
        is_numeral(b),
        a.len() < b.len(),
    ensures
        dec_val(a) < dec_val(b),
{
    lemma_dec_val_upper(a);
    lemma_pow10_mono(a.len(), (b.len() - 1) as nat);
    if b[0] as u32 == 48 {
        lemma_char_inj(b[0], '0');
        assert(b.len() == 1);
    }
    lemma_numeral_lower(b);
}

/// The first position where two equal-length differing sequences differ.
spec fn first_difference(a: Seq<char>, b: Seq<char>, i: int) -> int
    decreases a.len() - i,
    when 0 <= i <= a.len()
{
    if i < a.len() && a[i] == b[i] {
        first_difference(a, b, i + 1)
    } else {
        i
    }
}

proof fn lemma_first_difference(a: Seq<char>, b: Seq<char>, i: int)
    requires
        a.len() == b.len(),
        0 <= i <= a.len(),
        exists|j: int| i <= j < a.len() && a[j] != b[j],
    ensures
        i <= first_difference(a, b, i) < a.len(),
        a[first_difference(a, b, i)] != b[first_difference(a, b, i)],
        forall|j: int| 0 <= j < first_difference(a, b, i) && i <= j ==> a[j] == b[j],
    decreases a.len() - i,
{
    if i < a.len() && a[i] == b[i] {
        assert(exists|j: int| i + 1 <= j < a.len() && a[j] != b[j]) by {
            let j0 = choose|j: int| i <= j < a.len() && a[j] != b[j];
            assert(i + 1 <= j0 < a.len() && a[j0] != b[j0]);
        }
        lemma_first_difference(a, b, i + 1);
    }
}

/// True iff every character of `s` is an ASCII digit and the whole is a
/// canonical numeral.
pub fn check_numeral(s: &str) -> (r: bool)
    ensures
        r == is_numeral(s@),
{
    let n = s.unicode_len();
    if n == 0 {
        return false;
    }
    let first = s.get_char(0);
    if first as u32 == 48 && n > 1 {
        return false;
    }
    let mut i: usize = 0;
    while i < n
        invariant
            0 <= i <= n,
            n == s@.len(),
            forall|j: int| 0 <= j < i ==> is_digit_char(#[trigger] s@[j]),
        decreases n - i,
    {
        let c = s.get_char(i);
        if (c as u32) < 48 || (c as u32) > 57 {
            return false;
        }
        i += 1;
    }
    true
}

/// Compares two canonical numerals by their values.
pub fn numeral_lt(a: &str, b: &str) -> (r: bool)
    requires
        is_numeral(a@),
        is_numeral(b@),
    ensures
        r == (dec_val(a@) < dec_val(b@)),
{
    let la = a.unicode_len();
    let lb = b.unicode_len();
    if la < lb {
        proof {
            lemma_dec_val_upper(a@);
            lemma_pow10_mono(a@.len(), (b@.len() - 1) as nat);
            if b@[0] == '0' {
                assert(b@.len() == 1);
                assert(a@.len() == 0);
            }
            lemma_numeral_lower(b@);
        }
        return true;
    }
    if lb < la {
        proof {
            lemma_dec_val_upper(b@);
            lemma_pow10_mono(b@.len(), (a@.len() - 1) as nat);
            if a@[0] == '0' {
                assert(a@.len() == 1);
                assert(b@.len() == 0);
            }
            lemma_numeral_lower(a@);
        }
        return false;
    }
    let mut i: usize = 0;
    while i < la
        invariant
            0 <= i <= la,
            la == a@.len(),
            la == b@.len(),
            is_numeral(a@),
            is_numeral(b@),
            forall|j: int| 0 <= j < i ==> a@[j] == b@[j],
        decreases la - i,
    {
        let ca = a.get_char(i);
        let cb = b.get_char(i);
        if (ca as u32) < (cb as u32) {
            proof {
                lemma_lex_lt(a@, b@, i as int);
            }
            return true;
        }
        if (cb as u32) < (ca as u32) {
            proof {
                lemma_lex_lt(b@, a@, i as int);
            }
            return false;
        }
        proof {
            assert(ca as u32 == cb as u32);
            assert(ca == cb) by {
                assert(ca as char == cb as char);
            }
        }
        i += 1;
    }
    proof {
        assert(a@ =~= b@);
    }
    false
}

} // verus!

//! Small string helpers: exact string comparison and extraction of the file
//! name (the part after the last `/`) from a proving-key path, which serves
//! as the registry key.

use vstd::prelude::*;

verus! {

/// Character-wise string equality.
pub fn str_eq(a: &str, b: &str) -> (r: bool)
    ensures
        r == (a@ == b@),
{
    let na = a.unicode_len();
    let nb = b.unicode_len();
    if na != nb {
        return false;
    }
    let mut i: usize = 0;
    while i < na
        invariant
            0 <= i <= na,
            na == a@.len(),
            na == b@.len(),
            forall|j: int| 0 <= j < i ==> a@[j] == b@[j],
        decreases na - i,
    {
        if a.get_char(i) != b.get_char(i) {
            return false;
        }
        i += 1;
    }
    proof {
        assert(a@ =~= b@);
    }
    true
}

/// `suffix` stands at the end of `s`.
pub open spec fn ends_with(s: Seq<char>, suffix: Seq<char>) -> bool {
    suffix.len() <= s.len() && s.subrange(s.len() - suffix.len(), s.len() as int) == suffix
}

/// The suffix of a path after its last `/` (the whole path if it has none).
pub open spec fn file_name_of(p: Seq<char>) -> Seq<char>
    decreases p.len(),
{
    if p.len() == 0 {
        p
    } else if p.last() == '/' {
        Seq::empty()
    } else {
        file_name_of(p.drop_last()) + seq![p.last()]
    }
}

proof fn lemma_file_name_no_slash(p: Seq<char>)
    requires
        forall|j: int| 0 <= j < p.len() ==> p[j] != '/',
    ensures
        file_name_of(p) == p,
    decreases p.len(),
{
    if p.len() > 0 {
        lemma_file_name_no_slash(p.drop_last());
        assert(file_name_of(p.drop_last()) + seq![p.last()] =~= p);
    }
}

proof fn lemma_file_name_suffix(p: Seq<char>, k: int)
    requires
        0 <= k < p.len(),
        p[k] == '/',
        forall|j: int| k < j < p.len() ==> p[j] != '/',
    ensures
        file_name_of(p) == p.subrange(k + 1, p.len() as int),
    decreases p.len(),
{
    if k == p.len() - 1 {
        assert(p.last() == '/');
        assert(p.subrange(k + 1, p.len() as int) =~= Seq::<char>::empty());
    } else {
        lemma_file_name_suffix(p.drop_last(), k);
        assert(file_name_of(p) == file_name_of(p.drop_last()) + seq![p.last()]);
        assert(p.drop_last().subrange(k + 1, p.len() - 1) + seq![p.last()] =~= p.subrange(
            k + 1,
            p.len() as int,
        ));
    }
}

/// The registry key of a proving-key path: its file name.
pub fn zkey_file_name(path: &str) -> (r: String)
    ensures
        r@ == file_name_of(path@),
{
    let n = path.unicode_len();
    let mut i: usize = n;
    while i > 0
        invariant
            0 <= i <= n,
            n == path@.len(),
            forall|j: int| i <= j < n ==> path@[j] != '/',
        decreases i,
    {
        let c = path.get_char(i - 1);
        if c == '/' {
            let r = path.substring_char(i, n).to_owned();
            proof {
                lemma_file_name_suffix(path@, i - 1);
            }
            return r;
        }
        i -= 1;
    }
    let r = path.substring_char(0, n).to_owned();
    proof {
        lemma_file_name_no_slash(path@);
        assert(path@.subrange(0, n as int) =~= path@);
    }
    r
}

} // verus!

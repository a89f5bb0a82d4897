//! Verified string helpers: lexicographic comparison, splitting on a
//! separator, prefix and suffix handling. All contracts are stated over
//! `Seq<char>` views.

use vstd::prelude::*;

verus! {

/// Lexicographic "less than" on character sequences, compared from index `i` on.
pub open spec fn lex_lt_from(a: Seq<char>, b: Seq<char>, i: int) -> bool
    decreases b.len() - i,
{
    if i < 0 || i >= b.len() {
        false
    } else if i >= a.len() {
        true
    } else if a[i] == b[i] {
        lex_lt_from(a, b, i + 1)
    } else {
        (a[i] as int) < (b[i] as int)
    }
}

/// Strict lexicographic order on character sequences.
pub open spec fn lex_lt(a: Seq<char>, b: Seq<char>) -> bool {
    lex_lt_from(a, b, 0)
}

pub proof fn lemma_lex_lt_from_irrefl(a: Seq<char>, i: int)
    ensures
        !lex_lt_from(a, a, i),
    decreases a.len() - i,
{
    if 0 <= i < a.len() {
        lemma_lex_lt_from_irrefl(a, i + 1);
    }
}

/// A strictly smaller sequence is a different sequence.
pub proof fn lemma_lex_lt_neq(a: Seq<char>, b: Seq<char>)
    ensures
        lex_lt(a, b) ==> a != b,
{
    if a == b {
        lemma_lex_lt_from_irrefl(a, 0);
    }
}

pub proof fn lemma_lex_lt_from_trans(a: Seq<char>, b: Seq<char>, c: Seq<char>, i: int)
    requires
        lex_lt_from(a, b, i),
        lex_lt_from(b, c, i),
    ensures
        lex_lt_from(a, c, i),
    decreases c.len() - i,
{
    if i < b.len() && i < c.len() && i < a.len() {
        if a[i] == b[i] && b[i] == c[i] {
            lemma_lex_lt_from_trans(a, b, c, i + 1);
        }
    }
}

pub proof fn lemma_lex_lt_trans(a: Seq<char>, b: Seq<char>, c: Seq<char>)
    requires
        lex_lt(a, b),
        lex_lt(b, c),
    ensures
        lex_lt(a, c),
{
    lemma_lex_lt_from_trans(a, b, c, 0);
}

proof fn lemma_lex_lt_from_connex(a: Seq<char>, b: Seq<char>, i: int)
    requires
        0 <= i <= a.len(),
        i <= b.len(),
        !lex_lt_from(a, b, i),
        !lex_lt_from(b, a, i),
    ensures
        a.skip(i) == b.skip(i),
    decreases a.len() - i,
{
    if i >= b.len() {
        assert(i >= a.len());
        assert(a.skip(i) =~= b.skip(i));
    } else if i >= a.len() {
        assert(false);
    } else if a[i] == b[i] {
        lemma_lex_lt_from_connex(a, b, i + 1);
        assert(a.skip(i + 1).len() == b.skip(i + 1).len());
        assert(a.len() == b.len());
        assert forall|j: int| 0 <= j < a.skip(i).len() implies a.skip(i)[j] == b.skip(i)[j] by {
            assert(a.skip(i)[j] == a[i + j]);
            assert(b.skip(i)[j] == b[i + j]);
            if j > 0 {
                assert(a.skip(i + 1)[j - 1] == a[i + j]);
                assert(b.skip(i + 1)[j - 1] == b[i + j]);
            }
        }
        assert(a.skip(i) =~= b.skip(i));
    } else {
        assert(a[i] as int != b[i] as int);
        assert(false);
    }
}

/// The lexicographic order is total: two sequences are ordered one way or the
/// other, or they are equal.
pub proof fn lemma_lex_total(a: Seq<char>, b: Seq<char>)
    ensures
        lex_lt(a, b) || lex_lt(b, a) || a == b,
{
    if !lex_lt(a, b) && !lex_lt(b, a) {
        lemma_lex_lt_from_connex(a, b, 0);
        assert(a.skip(0) =~= a);
        assert(b.skip(0) =~= b);
    }
}

/// Executable strict lexicographic comparison of two string slices.
pub fn str_lt(a: &str, b: &str) -> (r: bool)
    ensures
        r == lex_lt(a@, b@),
{
    let an = a.unicode_len();
    let bn = b.unicode_len();
    let mut i: usize = 0;
    loop
        invariant
            i <= an,
            i <= bn,
            an == a@.len(),
            bn == b@.len(),
            lex_lt(a@, b@) == lex_lt_from(a@, b@, i as int),
        decreases bn - i,
    {
        if i >= bn {
            return false;
        }
        if i >= an {
            return true;
        }
        let ca = a.get_char(i);
        let cb = b.get_char(i);
        if ca != cb {
            proof {
                assert(0 <= ca as int <= 0x10FFFF);
                assert(0 <= cb as int <= 0x10FFFF);
                assert((ca as u32) as int == ca as int);
                assert((cb as u32) as int == cb as int);
            }
            return (ca as u32) < (cb as u32);
        }
        i = i + 1;
    }
}

/// Executable equality of two string slices, stated over their views.
pub fn str_eq(a: &str, b: &str) -> (r: bool)
    ensures
        r == (a@ == b@),
{
    let an = a.unicode_len();
    let bn = b.unicode_len();
    if an != bn {
        return false;
    }
    let mut i: usize = 0;
    while i < an
        invariant
            i <= an,
            an == a@.len(),
            an == b@.len(),
            forall|j: int| 0 <= j < i ==> a@[j] == b@[j],
        decreases an - i,
    {
        if a.get_char(i) != b.get_char(i) {
            return false;
        }
        i = i + 1;
    }
    proof {
        assert(a@ =~= b@);
    }
    true
}

/// Executable equality of two string vectors, stated over their deep views.
pub fn vec_str_eq(a: &Vec<String>, b: &Vec<String>) -> (r: bool)
    ensures
        r == (a.deep_view() == b.deep_view()),
{
    if a.len() != b.len() {
        proof {
            assert(a.deep_view().len() == a@.len());
            assert(b.deep_view().len() == b@.len());
        }
        return false;
    }
    let mut i: usize = 0;
    while i < a.len()
        invariant
            i <= a.len(),
            a.len() == b.len(),
            forall|j: int| 0 <= j < i ==> (#[trigger] a@[j])@ == b@[j]@,
        decreases a.len() - i,
    {
        if !str_eq(a[i].as_str(), b[i].as_str()) {
            proof {
                assert(a.deep_view()[i as int] != b.deep_view()[i as int]);
            }
            return false;
        }
        i = i + 1;
    }
    proof {
        assert(a.deep_view() =~= b.deep_view());
    }
    true
}

/// A copy of a string vector; the copy has the same deep view.
pub fn clone_strings(v: &Vec<String>) -> (r: Vec<String>)
    ensures
        r.deep_view() == v.deep_view(),
{
    let mut r: Vec<String> = Vec::new();
    let mut i: usize = 0;
    while i < v.len()
        invariant
            i <= v.len(),
            r.len() == i,
            forall|j: int| 0 <= j < i ==> (#[trigger] r[j])@ == v[j]@,
        decreases v.len() - i,
    {
        r.push(v[i].clone());
        i = i + 1;
    }
    proof {
        assert(r.deep_view() =~= v.deep_view());
    }
    r
}

/// First index of `sep` in `s`, or -1 when `sep` does not occur.
pub open spec fn find_char(s: Seq<char>, sep: char) -> int
    decreases s.len(),
{
    if s.len() == 0 {
        -1
    } else if s[0] == sep {
        0
    } else {
        let r = find_char(s.skip(1), sep);
        if r < 0 {
            -1
        } else {
            r + 1
        }
    }
}

pub proof fn lemma_find_char(s: Seq<char>, sep: char)
    ensures
        find_char(s, sep) >= 0 ==> {
            &&& find_char(s, sep) < s.len()
            &&& s[find_char(s, sep)] == sep
            &&& forall|j: int| 0 <= j < find_char(s, sep) ==> s[j] != sep
        },
        find_char(s, sep) < 0 ==> forall|j: int| 0 <= j < s.len() ==> s[j] != sep,
    decreases s.len(),
{
    if s.len() != 0 && s[0] != sep {
        lemma_find_char(s.skip(1), sep);
        let r = find_char(s.skip(1), sep);
        if r >= 0 {
            assert(s[r + 1] == sep) by {
                assert(s.skip(1)[r] == s[r + 1]);
            }
            assert forall|j: int| 0 <= j < r + 1 implies s[j] != sep by {
                if j > 0 {
                    assert(s.skip(1)[j - 1] == s[j]);
                }
            }
        } else {
            assert forall|j: int| 0 <= j < s.len() implies s[j] != sep by {
                if j > 0 {
                    assert(s.skip(1)[j - 1] == s[j]);
                }
            }
        }
    }
}

/// `s` split on `sep`; the separator itself appears in no segment. A sequence
/// without the separator is a single segment, so the result is never empty.
pub open spec fn spec_split(s: Seq<char>, sep: char) -> Seq<Seq<char>>
    decreases s.len(),
{
    let i = find_char(s, sep);
    if 0 <= i < s.len() {
        seq![s.take(i)] + spec_split(s.skip(i + 1), sep)
    } else {
        seq![s]
    }
}

pub proof fn lemma_split_nonempty(s: Seq<char>, sep: char)
    ensures
        spec_split(s, sep).len() >= 1,
{
}

/// Splits a string slice on a separator character.
pub fn split_on(s: &str, sep: char) -> (r: Vec<String>)
    ensures
        r.deep_view() == spec_split(s@, sep),
    decreases s@.len(),
{
    let n = s.unicode_len();
    let mut i: usize = 0;
    while i < n && s.get_char(i) != sep
        invariant
            i <= n,
            n == s@.len(),
            forall|j: int| 0 <= j < i ==> s@[j] != sep,
        decreases n - i,
    {
        i = i + 1;
    }
    proof {
        lemma_find_char(s@, sep);
    }
    if i == n {
        let mut v: Vec<String> = Vec::new();
        v.push(s.to_owned());
        proof {
            assert(find_char(s@, sep) < 0) by {
                if find_char(s@, sep) >= 0 {
                    assert(s@[find_char(s@, sep)] == sep);
                }
            }
            assert(v.deep_view() =~= spec_split(s@, sep));
        }
        v
    } else {
        proof {
            assert(find_char(s@, sep) == i) by {
                let f = find_char(s@, sep);
                if f < 0 {
                } else if f < i {
                    assert(s@[f] == sep);
                } else if f > i {
                    assert(s@[i as int] == sep);
                }
            }
        }
        let head = s.substring_char(0, i).to_owned();
        let tail = s.substring_char(i + 1, n);
        let rest = split_on(tail, sep);
        let mut v: Vec<String> = Vec::new();
        v.push(head);
        let mut rest = rest;
        v.append(&mut rest);
        proof {
            assert(head@ == s@.take(i as int));
            assert(tail@ == s@.skip(i + 1));
            assert(v.deep_view() =~= spec_split(s@, sep));
        }
        v
    }
}

/// `Some((before, after))` around the first `sep`, `None` when `sep` is absent.
pub fn split_once_on(s: &str, sep: char) -> (r: Option<(String, String)>)
    ensures
        find_char(s@, sep) >= 0 ==> (r matches Some(p) && p.0@ == s@.take(find_char(s@, sep))
            && p.1@ == s@.skip(find_char(s@, sep) + 1)),
        find_char(s@, sep) < 0 ==> r is None,
{
    let n = s.unicode_len();
    let mut i: usize = 0;
    while i < n && s.get_char(i) != sep
        invariant
            i <= n,
            n == s@.len(),
            forall|j: int| 0 <= j < i ==> s@[j] != sep,
        decreases n - i,
    {
        i = i + 1;
    }
    proof {
        lemma_find_char(s@, sep);
    }
    if i == n {
        proof {
            assert(find_char(s@, sep) < 0) by {
                if find_char(s@, sep) >= 0 {
                    assert(s@[find_char(s@, sep)] == sep);
                }
            }
        }
        None
    } else {
        proof {
            assert(find_char(s@, sep) == i) by {
                let f = find_char(s@, sep);
                if f < 0 {
                } else if f < i {
                    assert(s@[f] == sep);
                } else if f > i {
                    assert(s@[i as int] == sep);
                }
            }
        }
        let before = s.substring_char(0, i).to_owned();
        let after = s.substring_char(i + 1, n).to_owned();
        Some((before, after))
    }
}

/// First index at which `target` occurs in `names`, or -1.
pub open spec fn index_of_name(names: Seq<Seq<char>>, target: Seq<char>) -> int
    decreases names.len(),
{
    if names.len() == 0 {
        -1
    } else if names[0] == target {
        0
    } else {
        let r = index_of_name(names.drop_first(), target);
        if r < 0 {
            -1
        } else {
            r + 1
        }
    }
}

pub proof fn lemma_index_of_name(names: Seq<Seq<char>>, target: Seq<char>)
    ensures
        index_of_name(names, target) >= 0 ==> {
            &&& index_of_name(names, target) < names.len()
            &&& names[index_of_name(names, target)] == target
            &&& forall|j: int| 0 <= j < index_of_name(names, target) ==> names[j] != target
        },
        index_of_name(names, target) < 0 ==> forall|j: int|
            0 <= j < names.len() ==> names[j] != target,
    decreases names.len(),
{
    if names.len() != 0 && names[0] != target {
        lemma_index_of_name(names.drop_first(), target);
        let r = index_of_name(names.drop_first(), target);
        if r >= 0 {
            assert(names.drop_first()[r] == names[r + 1]);
            assert forall|j: int| 0 <= j < r + 1 implies names[j] != target by {
                if j > 0 {
                    assert(names.drop_first()[j - 1] == names[j]);
                }
            }
        } else {
            assert forall|j: int| 0 <= j < names.len() implies names[j] != target by {
                if j > 0 {
                    assert(names.drop_first()[j - 1] == names[j]);
                }
            }
        }
    }
}

/// Whether `p` is a prefix of `s`.
pub open spec fn spec_starts_with(s: Seq<char>, p: Seq<char>) -> bool {
    s.len() >= p.len() && s.take(p.len() as int) == p
}

/// Whether `text` starts with `pattern`.
pub fn starts_with(text: &str, pattern: &str) -> (r: bool)
    ensures
        r == spec_starts_with(text@, pattern@),
{
    let tn = text.unicode_len();
    let pn = pattern.unicode_len();
    if tn < pn {
        proof {
            assert(!spec_starts_with(text@, pattern@));
        }
        return false;
    }
    let mut i: usize = 0;
    while i < pn
        invariant
            i <= pn,
            pn <= tn,
            tn == text@.len(),
            pn == pattern@.len(),
            forall|j: int| 0 <= j < i ==> text@[j] == pattern@[j],
        decreases pn - i,
    {
        if text.get_char(i) != pattern.get_char(i) {
            proof {
                assert(text@.take(pn as int)[i as int] != pattern@[i as int]);
            }
            return false;
        }
        i = i + 1;
    }
    proof {
        assert(text@.take(pn as int) =~= pattern@);
    }
    true
}

/// The text with one leading `pattern` removed, or unchanged when `pattern`
/// is not a prefix.
pub fn strip_prefix(text: &str, pattern: &str) -> (r: String)
    ensures
        spec_starts_with(text@, pattern@) ==> r@ == text@.skip(pattern@.len() as int),
        !spec_starts_with(text@, pattern@) ==> r@ == text@,
{
    if starts_with(text, pattern) {
        let tn = text.unicode_len();
        let pn = pattern.unicode_len();
        text.substring_char(pn, tn).to_owned()
    } else {
        text.to_owned()
    }
}

/// Whether `p` is a suffix of `s`.
pub open spec fn spec_ends_with(s: Seq<char>, p: Seq<char>) -> bool {
    s.len() >= p.len() && s.skip(s.len() - p.len()) == p
}

/// Whether `text` ends with `pattern`.
pub fn ends_with(text: &str, pattern: &str) -> (r: bool)
    ensures
        r == spec_ends_with(text@, pattern@),
{
    let tn = text.unicode_len();
    let pn = pattern.unicode_len();
    if tn < pn {
        return false;
    }
    let base = tn - pn;
    let mut i: usize = 0;
    while i < pn
        invariant
            i <= pn,
            pn <= tn,
            base == tn - pn,
            tn == text@.len(),
            pn == pattern@.len(),
            forall|j: int| 0 <= j < i ==> text@[base + j] == pattern@[j],
        decreases pn - i,
    {
        if text.get_char(base + i) != pattern.get_char(i) {
            proof {
                assert(text@.skip(base as int)[i as int] != pattern@[i as int]);
            }
            return false;
        }
        i = i + 1;
    }
    proof {
        assert(text@.skip(base as int) =~= pattern@);
    }
    true
}

/// The sequence with every trailing repetition of `p` removed.
pub open spec fn spec_trim_end_matches(s: Seq<char>, p: Seq<char>) -> Seq<char>
    decreases s.len(),
{
    if p.len() > 0 && spec_ends_with(s, p) {
        spec_trim_end_matches(s.take(s.len() - p.len()), p)
    } else {
        s
    }
}

/// Removes every trailing repetition of `pattern` from `text`.
pub fn trim_end_matches(text: &str, pattern: &str) -> (r: String)
    ensures
        r@ == spec_trim_end_matches(text@, pattern@),
    decreases text@.len(),
{
    let pn = pattern.unicode_len();
    if pn > 0 && ends_with(text, pattern) {
        let tn = text.unicode_len();
        let shorter = text.substring_char(0, tn - pn);
        trim_end_matches(shorter, pattern)
    } else {
        text.to_owned()
    }
}

} // verus!

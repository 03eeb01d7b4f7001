//! Character-sequence helpers shared by the shell core: prefix tests,
//! lexicographic ordering by Unicode scalar value, and building blocks for
//! keeping candidate lists sorted.

use vstd::prelude::*;

verus! {

/// Relies on `String::push`: appends the given character to the end of the
/// string.
pub assume_specification[ String::push ](s: &mut String, c: char)
    ensures
        final(s)@ == old(s)@.push(c),
;

/// `p` is a prefix of `s`.
pub open spec fn is_prefix_of(p: Seq<char>, s: Seq<char>) -> bool {
    p.len() <= s.len() && p == s.take(p.len() as int)
}

/// Strict lexicographic order by Unicode scalar value, decided at
/// position `i` onward: the usual order `String`s sort in, stated over
/// character sequences.
pub open spec fn lex_lt_from(a: Seq<char>, b: Seq<char>, i: int) -> bool
    decreases b.len() - i,
{
    if i >= b.len() {
        false
    } else if i >= a.len() {
        true
    } else if a[i] != b[i] {
        (a[i] as u32) < (b[i] as u32)
    } else {
        lex_lt_from(a, b, i + 1)
    }
}

/// Strict lexicographic order on character sequences.
pub open spec fn lex_lt(a: Seq<char>, b: Seq<char>) -> bool {
    lex_lt_from(a, b, 0)
}

/// Reflexive lexicographic order on character sequences.
pub open spec fn lex_le(a: Seq<char>, b: Seq<char>) -> bool {
    lex_lt(a, b) || a == b
}

/// Strictly ascending: sorted with no duplicates.
pub open spec fn strictly_sorted(s: Seq<Seq<char>>) -> bool {
    forall|i: int, j: int| 0 <= i < j < s.len() ==> lex_lt(#[trigger] s[i], #[trigger] s[j])
}

/// Ascending, duplicates allowed.
pub open spec fn sorted(s: Seq<Seq<char>>) -> bool {
    forall|i: int, j: int| 0 <= i < j < s.len() ==> lex_le(#[trigger] s[i], #[trigger] s[j])
}

proof fn lemma_char_cast_distinct(c: char, d: char)
    requires
        c != d,
    ensures
        (c as u32) != (d as u32),
{
    vstd::utf8::char_is_scalar(c);
    vstd::utf8::char_is_scalar(d);
}

proof fn lemma_lex_lt_from_connected(a: Seq<char>, b: Seq<char>, i: int)
    requires
        0 <= i <= a.len(),
        i <= b.len(),
    ensures
        lex_lt_from(a, b, i) || lex_lt_from(b, a, i) || a.skip(i) =~= b.skip(i),
    decreases a.len() + b.len() - 2 * i,
{
    if i >= a.len() && i >= b.len() {
        assert(a.skip(i) =~= b.skip(i));
    } else if i >= a.len() {
        assert(lex_lt_from(a, b, i));
    } else if i >= b.len() {
        assert(lex_lt_from(b, a, i));
    } else if a[i] != b[i] {
        lemma_char_cast_distinct(a[i], b[i]);
        assert(lex_lt_from(a, b, i) || lex_lt_from(b, a, i));
    } else if i < a.len() && i < b.len() && a[i] == b[i] {
        lemma_lex_lt_from_connected(a, b, i + 1);
        if !lex_lt_from(a, b, i) && !lex_lt_from(b, a, i) {
            assert(a.skip(i) =~= b.skip(i)) by {
                assert(a.skip(i + 1) =~= b.skip(i + 1));
                assert forall|j: int| 0 <= j < a.skip(i).len() implies a.skip(i)[j] == b.skip(
                    i,
                )[j] by {
                    if j > 0 {
                        assert(a.skip(i)[j] == a.skip(i + 1)[j - 1]);
                        assert(b.skip(i)[j] == b.skip(i + 1)[j - 1]);
                    }
                }
            }
        }
    }
}

/// Lexicographic order is total: two sequences are ordered one way or the
/// other, or they are equal.
pub proof fn lemma_lex_connected(a: Seq<char>, b: Seq<char>)
    ensures
        lex_lt(a, b) || lex_lt(b, a) || a == b,
{
    lemma_lex_lt_from_connected(a, b, 0);
    if !lex_lt(a, b) && !lex_lt(b, a) {
        assert(a.skip(0) =~= a);
        assert(b.skip(0) =~= b);
    }
}

proof fn lemma_lex_lt_from_trans(a: Seq<char>, b: Seq<char>, c: Seq<char>, i: int)
    requires
        lex_lt_from(a, b, i),
        lex_lt_from(b, c, i),
    ensures
        lex_lt_from(a, c, i),
    decreases c.len() - i,
{
    if i < a.len() && i < b.len() && i < c.len() && a[i] == b[i] && b[i] == c[i] {
        lemma_lex_lt_from_trans(a, b, c, i + 1);
    }
}

/// Lexicographic order is transitive.
pub proof fn lemma_lex_trans(a: Seq<char>, b: Seq<char>, c: Seq<char>)
    requires
        lex_lt(a, b),
        lex_lt(b, c),
    ensures
        lex_lt(a, c),
{
    lemma_lex_lt_from_trans(a, b, c, 0);
}

/// Whether `a` sorts strictly before `b` in lexicographic order, the order
/// candidate lists are kept in.
pub fn str_lt(a: &str, b: &str) -> (r: bool)
    ensures
        r == lex_lt(a@, b@),
{
    let alen: usize = a.unicode_len();
    let blen: usize = b.unicode_len();
    let mut i: usize = 0;
    while i < blen
        invariant
            i <= blen,
            alen == a@.len(),
            blen == b@.len(),
            lex_lt(a@, b@) == lex_lt_from(a@, b@, i as int),
        decreases blen - i,
    {
        if i >= alen {
            return true;
        }
        let ca = a.get_char(i);
        let cb = b.get_char(i);
        if ca != cb {
            return (ca as u32) < (cb as u32);
        }
        i = i + 1;
    }
    false
}

/// Character-wise string equality.
pub fn str_eq(a: &str, b: &str) -> (r: bool)
    ensures
        r == (a@ == b@),
{
    let alen: usize = a.unicode_len();
    let blen: usize = b.unicode_len();
    if alen != blen {
        return false;
    }
    let mut i: usize = 0;
    while i < alen
        invariant
            i <= alen,
            alen == a@.len(),
            alen == b@.len(),
            forall|j: int| 0 <= j < i ==> a@[j] == b@[j],
        decreases alen - i,
    {
        if a.get_char(i) != b.get_char(i) {
            return false;
        }
        i = i + 1;
    }
    proof {
        assert(a@ =~= b@);
    }
    true
}

/// Whether `p` is a prefix of `s`, character by character.
pub fn str_starts_with(s: &str, p: &str) -> (r: bool)
    ensures
        r == is_prefix_of(p@, s@),
{
    let slen: usize = s.unicode_len();
    let plen: usize = p.unicode_len();
    if plen > slen {
        return false;
    }
    let mut i: usize = 0;
    while i < plen
        invariant
            i <= plen,
            plen <= slen,
            slen == s@.len(),
            plen == p@.len(),
            forall|j: int| 0 <= j < i ==> p@[j] == s@[j],
        decreases plen - i,
    {
        if s.get_char(i) != p.get_char(i) {
            proof {
                if p@ == s@.take(p@.len() as int) {
                    assert(p@[i as int] == s@.take(p@.len() as int)[i as int]);
                }
            }
            return false;
        }
        i = i + 1;
    }
    proof {
        assert(p@ =~= s@.take(p@.len() as int));
    }
    true
}

/// Inserts `x` into a sorted list, keeping it sorted; duplicates are kept.
pub fn insert_sorted(v: &mut Vec<String>, x: String)
    requires
        sorted(old(v).deep_view()),
    ensures
        sorted(final(v).deep_view()),
        final(v).deep_view().to_multiset() == old(v).deep_view().to_multiset().insert(x@),
        forall|s: Seq<char>|
            #[trigger] final(v).deep_view().contains(s) <==> (old(v).deep_view().contains(s) || s
                == x@),
{
    let ghost orig = v.deep_view();
    let mut k: usize = 0;
    while k < v.len() && str_lt(v[k].as_str(), x.as_str())
        invariant
            k <= v.len(),
            v.deep_view() == orig,
            sorted(orig),
            forall|j: int| 0 <= j < k ==> lex_lt(#[trigger] orig[j], x@),
        decreases v.len() - k,
    {
        k = k + 1;
    }
    proof {
        if (k as int) < orig.len() {
            lemma_lex_connected(x@, orig[k as int]);
        }
    }
    v.insert(k, x);
    proof {
        assert(v.deep_view() =~= orig.insert(k as int, x@));
        vstd::seq_lib::to_multiset_insert(orig, k as int, x@);
        assert forall|i: int, j: int|
            0 <= i < j < v.deep_view().len() implies lex_le(
            #[trigger] v.deep_view()[i],
            #[trigger] v.deep_view()[j],
        ) by {
            let d = v.deep_view();
            if i < k && j == k {
                assert(lex_lt(orig[i], x@));
            } else if i == k && j > k {
                assert(d[j] == orig[j - 1]);
                if lex_lt(x@, orig[j - 1]) || x@ == orig[j - 1] {
                } else {
                    assert(lex_lt(orig[j - 1], x@) || orig[j - 1] == x@) by {
                        lemma_lex_connected(x@, orig[j - 1]);
                    }
                    assert(lex_lt(orig[j - 1], x@));
                    assert(k < orig.len());
                    assert(lex_le(orig[k as int], orig[j - 1]));
                    assert(lex_lt(orig[k as int], x@)) by {
                        if orig[k as int] == orig[j - 1] {
                        } else {
                            lemma_lex_trans(orig[k as int], orig[j - 1], x@);
                        }
                    }
                    assert(false);
                }
            } else if i < k && j > k {
                assert(d[i] == orig[i]);
                assert(d[j] == orig[j - 1]);
                assert(lex_le(orig[i], orig[j - 1]));
            } else if i > k && j > k {
                assert(lex_le(orig[i - 1], orig[j - 1]));
            } else if i < k && j < k {
                assert(lex_le(orig[i], orig[j]));
            }
        }
        assert forall|s: Seq<char>| #[trigger]
            v.deep_view().contains(s) <==> (orig.contains(s) || s == x@) by {
            if v.deep_view().contains(s) {
                let w = choose|w: int| 0 <= w < v.deep_view().len() && v.deep_view()[w] == s;
                if w < k {
                    assert(orig[w] == s);
                } else if w > k {
                    assert(orig[w - 1] == s);
                }
            }
            if orig.contains(s) {
                let w = choose|w: int| 0 <= w < orig.len() && orig[w] == s;
                if w < k {
                    assert(v.deep_view()[w] == s);
                } else {
                    assert(v.deep_view()[w + 1] == s);
                }
            }
            if s == x@ {
                assert(v.deep_view()[k as int] == s);
            }
        }
    }
}

/// Inserts `x` into a strictly sorted list unless an equal entry is already
/// present, keeping the list strictly sorted.
pub fn insert_sorted_unique(v: &mut Vec<String>, x: String)
    requires
        strictly_sorted(old(v).deep_view()),
    ensures
        strictly_sorted(final(v).deep_view()),
        forall|s: Seq<char>|
            #[trigger] final(v).deep_view().contains(s) <==> (old(v).deep_view().contains(s) || s
                == x@),
{
    let ghost orig = v.deep_view();
    let mut k: usize = 0;
    while k < v.len() && str_lt(v[k].as_str(), x.as_str())
        invariant
            k <= v.len(),
            v.deep_view() == orig,
            strictly_sorted(orig),
            forall|j: int| 0 <= j < k ==> lex_lt(#[trigger] orig[j], x@),
        decreases v.len() - k,
    {
        k = k + 1;
    }
    if k < v.len() && str_eq(v[k].as_str(), x.as_str()) {
        proof {
            assert(orig.contains(orig[k as int]));
            assert forall|s: Seq<char>| #[trigger]
                v.deep_view().contains(s) <==> (orig.contains(s) || s == x@) by {}
        }
        return ;
    }
    proof {
        if (k as int) < orig.len() {
            lemma_lex_connected(x@, orig[k as int]);
        }
    }
    v.insert(k, x);
    proof {
        assert(v.deep_view() =~= orig.insert(k as int, x@));
        assert forall|i: int, j: int|
            0 <= i < j < v.deep_view().len() implies lex_lt(
            #[trigger] v.deep_view()[i],
            #[trigger] v.deep_view()[j],
        ) by {
            let d = v.deep_view();
            if i < k && j == k {
                assert(lex_lt(orig[i], x@));
            } else if i == k && j > k {
                assert(d[j] == orig[j - 1]);
                assert(lex_lt(x@, orig[j - 1])) by {
                    if j - 1 == k as int {
                    } else {
                        assert(lex_lt(orig[k as int], orig[j - 1]));
                        if lex_lt(orig[j - 1], x@) {
                            lemma_lex_trans(orig[k as int], orig[j - 1], x@);
                            assert(false);
                        } else {
                            lemma_lex_connected(x@, orig[j - 1]);
                        }
                    }
                }
            } else if i < k && j > k {
                assert(lex_lt(orig[i], orig[j - 1])) by {
                    if i == j - 1 {
                        assert(lex_lt(orig[i], x@));
                        assert(false);
                    }
                }
            } else if i > k && j > k {
                assert(lex_lt(orig[i - 1], orig[j - 1]));
            } else if i < k && j < k {
                assert(lex_lt(orig[i], orig[j]));
            }
        }
        assert forall|s: Seq<char>| #[trigger]
            v.deep_view().contains(s) <==> (orig.contains(s) || s == x@) by {
            if v.deep_view().contains(s) {
                let w = choose|w: int| 0 <= w < v.deep_view().len() && v.deep_view()[w] == s;
                if w < k {
                    assert(orig[w] == s);
                } else if w > k {
                    assert(orig[w - 1] == s);
                }
            }
            if orig.contains(s) {
                let w = choose|w: int| 0 <= w < orig.len() && orig[w] == s;
                if w < k {
                    assert(v.deep_view()[w] == s);
                } else {
                    assert(v.deep_view()[w + 1] == s);
                }
            }
            if s == x@ {
                assert(v.deep_view()[k as int] == s);
            }
        }
    }
}

} // verus!

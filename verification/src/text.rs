//! Verified text primitives shared by every tag component: matching a literal
//! pattern at a position, lexicographic ordering of names, and replacement of
//! every non-overlapping occurrence of a literal pattern, scanning the input
//! left to right.

use vstd::prelude::*;

verus! {

/// The pattern `pat` occurs in `s` at position `i`.
pub open spec fn match_at(s: Seq<char>, pat: Seq<char>, i: int) -> bool {
    &&& 0 <= i
    &&& i + pat.len() <= s.len()
    &&& forall|k: int| 0 <= k < pat.len() ==> s[i + k] == pat[k]
}

/// The pattern `pat` occurs somewhere in `s`.
pub open spec fn contains_pat(s: Seq<char>, pat: Seq<char>) -> bool {
    exists|i: int| match_at(s, pat, i)
}

/// What is left of `s` from position `i` on, once every occurrence of `pat`
/// from position `i` on is replaced by `rep`.  Occurrences are found in the
/// original text, leftmost first and non-overlapping; the text a replacement
/// inserts is never rescanned.
pub open spec fn replace_all_from(s: Seq<char>, pat: Seq<char>, rep: Seq<char>, i: int) -> Seq<
    char,
>
    decreases s.len() - i,
    when 0 <= i <= s.len() && pat.len() > 0
{
    if i + pat.len() <= s.len() {
        if match_at(s, pat, i) {
            rep + replace_all_from(s, pat, rep, i + pat.len())
        } else {
            seq![s[i]] + replace_all_from(s, pat, rep, i + 1)
        }
    } else {
        s.subrange(i, s.len() as int)
    }
}

/// `s` with every non-overlapping occurrence of `pat` replaced by `rep`.
pub open spec fn replace_all_spec(s: Seq<char>, pat: Seq<char>, rep: Seq<char>) -> Seq<char> {
    replace_all_from(s, pat, rep, 0)
}

/// `a` comes strictly before `b` in lexicographic order of characters.
pub open spec fn lex_lt(a: Seq<char>, b: Seq<char>) -> bool
    decreases a.len(),
{
    if b.len() == 0 {
        false
    } else if a.len() == 0 {
        true
    } else if a[0] != b[0] {
        (a[0] as int) < (b[0] as int)
    } else {
        lex_lt(a.drop_first(), b.drop_first())
    }
}

/// Whether two string slices hold the same characters.
pub fn str_eq(a: &str, b: &str) -> (r: bool)
    ensures
        r == (a@ == b@),
{
    let na = a.unicode_len();
    let nb = b.unicode_len();
    if na != nb {
        return false;
    }
    let mut i: usize = 0;
    while i < na
        invariant
            0 <= i <= na,
            na == a@.len(),
            nb == b@.len(),
            na == nb,
            forall|k: int| 0 <= k < i ==> a@[k] == b@[k],
        decreases na - i,
    {
        if a.get_char(i) != b.get_char(i) {
            proof {
                assert(a@[i as int] != b@[i as int]);
            }
            return false;
        }
        i = i + 1;
    }
    proof {
        assert(a@ =~= b@);
    }
    true
}

/// Whether `a` comes strictly before `b` in lexicographic order.
pub fn str_lt(a: &str, b: &str) -> (r: bool)
    ensures
        r == lex_lt(a@, b@),
{
    let na = a.unicode_len();
    let nb = b.unicode_len();
    let mut i: usize = 0;
    proof {
        assert(a@.skip(0) =~= a@);
        assert(b@.skip(0) =~= b@);
    }
    while i < na && i < nb
        invariant
            0 <= i <= na,
            0 <= i <= nb,
            na == a@.len(),
            nb == b@.len(),
            lex_lt(a@, b@) == lex_lt(a@.skip(i as int), b@.skip(i as int)),
        decreases na - i,
    {
        let ca = a.get_char(i);
        let cb = b.get_char(i);
        proof {
            assert(a@.skip(i as int)[0] == a@[i as int]);
            assert(b@.skip(i as int)[0] == b@[i as int]);
        }
        if ca != cb {
            return (ca as u32) < (cb as u32);
        }
        proof {
            assert(a@.skip(i as int).drop_first() =~= a@.skip(i + 1));
            assert(b@.skip(i as int).drop_first() =~= b@.skip(i + 1));
        }
        i = i + 1;
    }
    proof {
        if i == na {
            assert(a@.skip(i as int).len() == 0);
        } else {
            assert(b@.skip(i as int).len() == 0);
        }
    }
    na < nb
}

/// Whether `pat` occurs in `s` at position `i`.
pub fn check_match_at(s: &str, pat: &str, i: usize) -> (r: bool)
    ensures
        r == match_at(s@, pat@, i as int),
{
    let n = s.unicode_len();
    let m = pat.unicode_len();
    if i > n || m > n - i {
        return false;
    }
    let mut k: usize = 0;
    while k < m
        invariant
            i + m <= n,
            n == s@.len(),
            m == pat@.len(),
            0 <= k <= m,
            forall|j: int| 0 <= j < k ==> s@[i + j] == pat@[j],
        decreases m - k,
    {
        if s.get_char(i + k) != pat.get_char(k) {
            return false;
        }
        k = k + 1;
    }
    true
}

/// `s` with every non-overlapping occurrence of `pat` replaced by `rep`,
/// scanning left to right over the original text.
pub fn replace_all(s: &str, pat: &str, rep: &str) -> (r: String)
    requires
        pat@.len() > 0,
    ensures
        r@ == replace_all_spec(s@, pat@, rep@),
{
    let n = s.unicode_len();
    let m = pat.unicode_len();
    let mut out = String::new();
    let mut i: usize = 0;
    proof {
        assert(Seq::<char>::empty() + replace_all_from(s@, pat@, rep@, 0) =~= replace_all_from(
            s@,
            pat@,
            rep@,
            0,
        ));
    }
    while i < n && n - i >= m
        invariant
            0 <= i <= n,
            n == s@.len(),
            m == pat@.len(),
            m > 0,
            replace_all_spec(s@, pat@, rep@) == out@ + replace_all_from(s@, pat@, rep@, i as int),
        decreases n - i,
    {
        let ghost prev = out@;
        if check_match_at(s, pat, i) {
            out.append(rep);
            proof {
                assert((prev + rep@) + replace_all_from(s@, pat@, rep@, i + m) =~= prev + (rep@
                    + replace_all_from(s@, pat@, rep@, i + m)));
            }
            i = i + m;
        } else {
            let c = s.substring_char(i, i + 1);
            out.append(c);
            proof {
                assert(c@ =~= seq![s@[i as int]]);
                assert((prev + c@) + replace_all_from(s@, pat@, rep@, i + 1) =~= prev + (c@
                    + replace_all_from(s@, pat@, rep@, i + 1)));
            }
            i = i + 1;
        }
    }
    let tail = s.substring_char(i, n);
    out.append(tail);
    proof {
        assert(replace_all_from(s@, pat@, rep@, i as int) == s@.subrange(i as int, n as int));
    }
    out
}

proof fn lemma_replace_all_from_identity(s: Seq<char>, pat: Seq<char>, rep: Seq<char>, i: int)
    requires
        0 <= i <= s.len(),
        pat.len() > 0,
        forall|j: int| !match_at(s, pat, j),
    ensures
        replace_all_from(s, pat, rep, i) == s.subrange(i, s.len() as int),
    decreases s.len() - i,
{
    if i + pat.len() <= s.len() {
        assert(!match_at(s, pat, i));
        lemma_replace_all_from_identity(s, pat, rep, i + 1);
        assert(seq![s[i]] + s.subrange(i + 1, s.len() as int) =~= s.subrange(i, s.len() as int));
    }
}

/// Law: replacement is the identity on any text in which the pattern does not
/// occur.
pub proof fn lemma_replace_all_identity(s: Seq<char>, pat: Seq<char>, rep: Seq<char>)
    requires
        pat.len() > 0,
        !contains_pat(s, pat),
    ensures
        replace_all_spec(s, pat, rep) == s,
{
    assert forall|j: int| !match_at(s, pat, j) by {
        if match_at(s, pat, j) {
            assert(contains_pat(s, pat));
        }
    }
    lemma_replace_all_from_identity(s, pat, rep, 0);
    assert(s.subrange(0, s.len() as int) =~= s);
}

proof fn lemma_replace_all_from_no_marker(s: Seq<char>, pat: Seq<char>, rep: Seq<char>, i: int)
    requires
        0 <= i <= s.len(),
        pat.len() > 0,
        rep.len() > 0,
        forall|k: int| 0 <= k < rep.len() ==> rep[k] != pat[0],
        forall|k: int| 1 <= k < pat.len() ==> rep[0] != pat[k],
    ensures
        forall|j: int| !match_at(replace_all_from(s, pat, rep, i), pat, j),
        forall|d: int|
            1 <= d < pat.len() && match_at(
                replace_all_from(s, pat, rep, i),
                pat.subrange(d, pat.len() as int),
                0,
            ) ==> match_at(s, pat.subrange(d, pat.len() as int), i),
    decreases s.len() - i,
{
    let r = replace_all_from(s, pat, rep, i);
    if i + pat.len() <= s.len() {
        if match_at(s, pat, i) {
            let rest = replace_all_from(s, pat, rep, i + pat.len());
            lemma_replace_all_from_no_marker(s, pat, rep, i + pat.len());
            assert forall|j: int| !match_at(r, pat, j) by {
                if match_at(r, pat, j) {
                    if j < rep.len() {
                        assert(r[j] == pat[0]);
                        assert(r[j] == rep[j]);
                    } else {
                        assert forall|k: int| 0 <= k < pat.len() implies rest[(j - rep.len()) + k]
                            == pat[k] by {
                            assert(r[j + k] == pat[k]);
                            assert(r[j + k] == rest[j + k - rep.len()]);
                        }
                        assert(match_at(rest, pat, j - rep.len()));
                    }
                }
            }
            assert forall|d: int|
                1 <= d < pat.len() && match_at(
                    r,
                    pat.subrange(d, pat.len() as int),
                    0,
                ) implies match_at(s, pat.subrange(d, pat.len() as int), i) by {
                assert(r[0] == pat.subrange(d, pat.len() as int)[0]);
                assert(r[0] == rep[0]);
                assert(pat.subrange(d, pat.len() as int)[0] == pat[d]);
            }
        } else {
            let rest = replace_all_from(s, pat, rep, i + 1);
            lemma_replace_all_from_no_marker(s, pat, rep, i + 1);
            assert forall|j: int| !match_at(r, pat, j) by {
                if match_at(r, pat, j) {
                    if j == 0 {
                        // r starts with pat: s[i] == pat[0] and the rest of
                        // pat heads `rest`, which by induction comes straight
                        // from s at i + 1; together that is a match of pat in
                        // s at i, which this branch excluded.
                        assert(r[0] == pat[0]);
                        assert(r[0] == s[i]);
                        if pat.len() == 1 {
                            assert(match_at(s, pat, i));
                        } else {
                            assert forall|k: int|
                                0 <= k < pat.subrange(1, pat.len() as int).len() implies rest[k]
                                == pat.subrange(1, pat.len() as int)[k] by {
                                assert(r[1 + k] == pat[1 + k]);
                                assert(r[1 + k] == rest[k]);
                            }
                            assert(match_at(rest, pat.subrange(1, pat.len() as int), 0));
                            assert(match_at(s, pat.subrange(1, pat.len() as int), i + 1));
                            assert forall|k: int| 0 <= k < pat.len() implies s[i + k] == pat[k] by {
                                if k >= 1 {
                                    assert(s[(i + 1) + (k - 1)] == pat.subrange(
                                        1,
                                        pat.len() as int,
                                    )[k - 1]);
                                }
                            }
                            assert(match_at(s, pat, i));
                        }
                    } else {
                        assert forall|k: int| 0 <= k < pat.len() implies rest[(j - 1) + k]
                            == pat[k] by {
                            assert(r[j + k] == pat[k]);
                            assert(r[j + k] == rest[j + k - 1]);
                        }
                        assert(match_at(rest, pat, j - 1));
                    }
                }
            }
            assert forall|d: int|
                1 <= d < pat.len() && match_at(
                    r,
                    pat.subrange(d, pat.len() as int),
                    0,
                ) implies match_at(s, pat.subrange(d, pat.len() as int), i) by {
                let p = pat.subrange(d, pat.len() as int);
                assert(r[0] == p[0]);
                assert(r[0] == s[i]);
                if p.len() == 1 {
                    assert(s[i + 0] == p[0]);
                } else {
                    let q = pat.subrange(d + 1, pat.len() as int);
                    assert forall|k: int| 0 <= k < q.len() implies rest[k] == q[k] by {
                        assert(r[1 + k] == p[1 + k]);
                        assert(r[1 + k] == rest[k]);
                        assert(p[1 + k] == pat[d + 1 + k]);
                        assert(q[k] == pat[d + 1 + k]);
                    }
                    assert(match_at(rest, q, 0));
                    assert(match_at(s, q, i + 1));
                    assert forall|k: int| 0 <= k < p.len() implies s[i + k] == p[k] by {
                        if k >= 1 {
                            assert(s[(i + 1) + (k - 1)] == q[k - 1]);
                            assert(q[k - 1] == pat[d + k]);
                            assert(p[k] == pat[d + k]);
                        }
                    }
                }
            }
        }
    } else {
        assert forall|j: int| !match_at(r, pat, j) by {
            if match_at(r, pat, j) {
                assert(j + pat.len() <= r.len());
                assert(r.len() == s.len() - i);
            }
        }
        assert forall|d: int|
            1 <= d < pat.len() && match_at(
                r,
                pat.subrange(d, pat.len() as int),
                0,
            ) implies match_at(s, pat.subrange(d, pat.len() as int), i) by {
            let p = pat.subrange(d, pat.len() as int);
            assert forall|k: int| 0 <= k < p.len() implies s[i + k] == p[k] by {
                assert(r[k] == p[k]);
                assert(r[k] == s.subrange(i, s.len() as int)[k]);
            }
        }
    }
}

/// Law: if the replacement text is non-empty, never holds the pattern's first
/// character, and does not begin with any character the pattern continues
/// with, then no occurrence of the pattern is left in the output, however
/// many occurrences (zero or more) the input held.
///
/// Some restriction on the replacement is needed: replacing `@assets_path`
/// by `ath` in `@assets_p@assets_path` yields `@assets_path` again.
pub proof fn lemma_replace_all_no_marker(s: Seq<char>, pat: Seq<char>, rep: Seq<char>)
    requires
        pat.len() > 0,
        rep.len() > 0,
        forall|k: int| 0 <= k < rep.len() ==> rep[k] != pat[0],
        forall|k: int| 1 <= k < pat.len() ==> rep[0] != pat[k],
    ensures
        !contains_pat(replace_all_spec(s, pat, rep), pat),
{
    lemma_replace_all_from_no_marker(s, pat, rep, 0);
    if contains_pat(replace_all_spec(s, pat, rep), pat) {
        let j = choose|j: int| match_at(replace_all_spec(s, pat, rep), pat, j);
        assert(!match_at(replace_all_from(s, pat, rep, 0), pat, j));
    }
}

} // verus!

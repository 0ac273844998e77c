//! Substring occurrence model and executable first-occurrence search over
//! character sequences, together with first-occurrence replacement.

use vstd::prelude::*;

verus! {

/// `pat` occurs in `s` starting at character index `i`.
pub open spec fn occurs_at(s: Seq<char>, pat: Seq<char>, i: int) -> bool {
    0 <= i && i + pat.len() <= s.len() && s.subrange(i, i + pat.len() as int) == pat
}

/// `pat` occurs somewhere in `s`.
pub open spec fn contains_pat(s: Seq<char>, pat: Seq<char>) -> bool {
    exists|i: int| occurs_at(s, pat, i)
}

/// Index of the first occurrence of `pat` in `s`, if any.
pub open spec fn find_spec(s: Seq<char>, pat: Seq<char>) -> Option<int>
    decreases s.len(),
{
    if occurs_at(s, pat, 0) {
        Some(0)
    } else if s.len() == 0 {
        None
    } else {
        match find_spec(s.skip(1), pat) {
            Some(j) => Some(j + 1),
            None => None,
        }
    }
}

/// `s` with the first occurrence of `pat` (if any) replaced by `rep`.
pub open spec fn replace_first(s: Seq<char>, pat: Seq<char>, rep: Seq<char>) -> Seq<char> {
    match find_spec(s, pat) {
        Some(i) => s.subrange(0, i) + rep + s.subrange(i + pat.len() as int, s.len() as int),
        None => s,
    }
}

/// An occurrence of `pat` at `i + 1` in `s` is an occurrence at `i` in `s.skip(1)`,
/// and conversely.
proof fn lemma_occurs_skip(s: Seq<char>, pat: Seq<char>, i: int)
    requires
        s.len() > 0,
        i >= 0,
    ensures
        occurs_at(s, pat, i + 1) <==> occurs_at(s.skip(1), pat, i),
{
    if occurs_at(s, pat, i + 1) {
        assert(s.skip(1).subrange(i, i + pat.len() as int) =~= s.subrange(i + 1, i + 1
            + pat.len() as int));
    }
    if occurs_at(s.skip(1), pat, i) {
        assert(s.subrange(i + 1, i + 1 + pat.len() as int) =~= s.skip(1).subrange(i, i
            + pat.len() as int));
    }
}

/// `find_spec` returns the first occurrence of `pat`: the index it returns is an
/// occurrence, no earlier index is, and a `None` means there is no occurrence at all.
pub proof fn lemma_find_spec(s: Seq<char>, pat: Seq<char>)
    ensures
        match find_spec(s, pat) {
            Some(i) => occurs_at(s, pat, i) && forall|j: int|
                0 <= j < i ==> !occurs_at(s, pat, j),
            None => forall|j: int| !occurs_at(s, pat, j),
        },
    decreases s.len(),
{
    if occurs_at(s, pat, 0) {
    } else if s.len() == 0 {
    } else {
        lemma_find_spec(s.skip(1), pat);
        match find_spec(s.skip(1), pat) {
            Some(j) => {
                lemma_occurs_skip(s, pat, j);
                assert forall|m: int| 0 <= m < j + 1 implies !occurs_at(s, pat, m) by {
                    if m > 0 {
                        lemma_occurs_skip(s, pat, m - 1);
                    }
                }
            },
            None => {
                assert forall|m: int| occurs_at(s, pat, m) implies false by {
                    if m > 0 {
                        lemma_occurs_skip(s, pat, m - 1);
                    }
                }
            },
        }
    }
}

/// If `pat` does not occur in `s` at all, replacing its first occurrence
/// changes nothing.
pub proof fn lemma_replace_first_unchanged(s: Seq<char>, pat: Seq<char>, rep: Seq<char>)
    requires
        !contains_pat(s, pat),
    ensures
        replace_first(s, pat, rep) == s,
{
    lemma_find_spec(s, pat);
    if find_spec(s, pat) is Some {
        let i = find_spec(s, pat).unwrap();
        assert(occurs_at(s, pat, i));
    }
}

/// Replacing the first occurrence of `pat` by `rep` changes the length by
/// exactly the difference of the two patterns, and only when `pat` occurs.
pub proof fn lemma_replace_first_len(s: Seq<char>, pat: Seq<char>, rep: Seq<char>)
    ensures
        replace_first(s, pat, rep).len() == if contains_pat(s, pat) {
            s.len() - pat.len() + rep.len()
        } else {
            s.len() as int
        },
{
    lemma_find_spec(s, pat);
    match find_spec(s, pat) {
        Some(i) => {
            assert(occurs_at(s, pat, i));
        },
        None => {
            if contains_pat(s, pat) {
                let i = choose|i: int| occurs_at(s, pat, i);
                assert(!occurs_at(s, pat, i));
            }
        },
    }
}

/// If the first occurrence of `pat` in `s` is at `i`, then replacing it yields
/// exactly `s` with the characters `i .. i + pat.len()` replaced by `rep`, and
/// no other characters altered.
pub proof fn lemma_replace_first_at(s: Seq<char>, pat: Seq<char>, rep: Seq<char>, i: int)
    requires
        occurs_at(s, pat, i),
        forall|j: int| 0 <= j < i ==> !occurs_at(s, pat, j),
    ensures
        find_spec(s, pat) == Some(i),
        replace_first(s, pat, rep) == s.subrange(0, i) + rep + s.subrange(
            i + pat.len() as int,
            s.len() as int,
        ),
{
    lemma_find_spec(s, pat);
    match find_spec(s, pat) {
        Some(f) => {
            if f < i {
                assert(!occurs_at(s, pat, f));
            }
            if f > i {
                assert(!occurs_at(s, pat, i));
            }
        },
        None => {
            assert(!occurs_at(s, pat, i));
        },
    }
}

/// A later, non-overlapping occurrence of `pat` survives the replacement of the
/// first one, shifted left by the length difference.
pub proof fn lemma_replace_first_keeps_later(s: Seq<char>, pat: Seq<char>, rep: Seq<char>, i: int, j: int)
    requires
        occurs_at(s, pat, i),
        forall|m: int| 0 <= m < i ==> !occurs_at(s, pat, m),
        occurs_at(s, pat, j),
        j >= i + pat.len(),
    ensures
        occurs_at(replace_first(s, pat, rep), pat, j - pat.len() + rep.len()),
{
    lemma_replace_first_at(s, pat, rep, i);
    let r = replace_first(s, pat, rep);
    let q = j - pat.len() + rep.len();
    assert(r.subrange(q, q + pat.len() as int) =~= pat) by {
        assert forall|t: int| 0 <= t < pat.len() implies r[q + t] == pat[t] by {
            assert(r[q + t] == s.subrange(i + pat.len() as int, s.len() as int)[q + t - i
                - rep.len()]);
            assert(r[q + t] == s[j + t]);
            assert(s.subrange(j, j + pat.len() as int)[t] == s[j + t]);
        }
    }
}

/// Does `pat` occur in `s` at character index `i`?
pub fn matches_at(s: &str, s_len: usize, pat: &str, pat_len: usize, i: usize) -> (r: bool)
    requires
        s_len == s@.len(),
        pat_len == pat@.len(),
        i + pat_len <= s_len,
    ensures
        r == occurs_at(s@, pat@, i as int),
{
    let mut k: usize = 0;
    while k < pat_len
        invariant
            s_len == s@.len(),
            pat_len == pat@.len(),
            i + pat_len <= s_len,
            0 <= k <= pat_len,
            forall|m: int| 0 <= m < k ==> s@[i + m] == pat@[m],
        decreases pat_len - k,
    {
        if s.get_char(i + k) != pat.get_char(k) {
            assert(s@.subrange(i as int, i + pat@.len() as int) != pat@) by {
                assert(s@.subrange(i as int, i + pat@.len() as int)[k as int] != pat@[k as int]);
            }
            return false;
        }
        k = k + 1;
    }
    assert(s@.subrange(i as int, i + pat@.len() as int) =~= pat@);
    true
}

/// Character index of the first occurrence of `pat` in `s`, if there is one.
pub fn find_in(s: &str, pat: &str) -> (r: Option<usize>)
    ensures
        match r {
            Some(i) => find_spec(s@, pat@) == Some(i as int),
            None => find_spec(s@, pat@) is None,
        },
{
    let s_len = s.unicode_len();
    let pat_len = pat.unicode_len();
    if pat_len > s_len {
        proof {
            lemma_find_spec(s@, pat@);
            if find_spec(s@, pat@) is Some {
                let i = find_spec(s@, pat@).unwrap();
                assert(occurs_at(s@, pat@, i));
            }
        }
        return None;
    }
    if pat_len == 0 {
        proof {
            assert(s@.subrange(0, 0) =~= pat@);
        }
        return Some(0);
    }
    let mut i: usize = 0;
    while i <= s_len - pat_len
        invariant
            s_len == s@.len(),
            pat_len == pat@.len(),
            1 <= pat_len <= s_len,
            0 <= i <= s_len - pat_len + 1,
            forall|j: int| 0 <= j < i ==> !occurs_at(s@, pat@, j),
        decreases s_len - i,
    {
        if matches_at(s, s_len, pat, pat_len, i) {
            proof {
                lemma_find_spec(s@, pat@);
                match find_spec(s@, pat@) {
                    Some(f) => {
                        if f < i {
                            assert(!occurs_at(s@, pat@, f));
                        }
                        if f > i {
                            assert(!occurs_at(s@, pat@, i as int));
                        }
                    },
                    None => {
                        assert(!occurs_at(s@, pat@, i as int));
                    },
                }
            }
            return Some(i);
        }
        i = i + 1;
    }
    proof {
        lemma_find_spec(s@, pat@);
        if find_spec(s@, pat@) is Some {
            let f = find_spec(s@, pat@).unwrap();
            assert(occurs_at(s@, pat@, f));
            assert(f + pat@.len() <= s@.len());
            assert(!occurs_at(s@, pat@, f));
        }
    }
    None
}

/// `s` with the first occurrence of `pat` replaced by `rep`; `s` itself if `pat`
/// does not occur.
pub fn replace_first_in(s: &str, pat: &str, rep: &str) -> (r: String)
    ensures
        r@ == replace_first(s@, pat@, rep@),
{
    match find_in(s, pat) {
        Some(i) => {
            proof {
                lemma_find_spec(s@, pat@);
            }
            let s_len = s.unicode_len();
            let pat_len = pat.unicode_len();
            let mut out = String::new();
            out.append(s.substring_char(0, i));
            out.append(rep);
            out.append(s.substring_char(i + pat_len, s_len));
            proof {
                assert(out@ =~= replace_first(s@, pat@, rep@));
            }
            out
        },
        None => {
            let r = s.to_owned();
            r
        },
    }
}

} // verus!

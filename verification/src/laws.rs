//! Laws of the rewriting pipeline: what Rule A leaves alone, what the flag
//! removals do and do not touch, and when the full pipeline is idempotent.

use vstd::prelude::*;

use crate::search::contains_pat;
use crate::search::find_spec;
use crate::search::lemma_find_spec;
use crate::search::lemma_replace_first_at;
use crate::search::lemma_replace_first_keeps_later;
use crate::search::lemma_replace_first_len;
use crate::search::lemma_replace_first_unchanged;
use crate::search::occurs_at;
use crate::search::replace_first;
use crate::rewrite::abi_lp64;
use crate::rewrite::clang_target_stem;
use crate::rewrite::flag_conserve_stack;
use crate::rewrite::flag_no_store_races;
use crate::rewrite::flag_struct_debug;
use crate::rewrite::has_triple_match;
use crate::rewrite::is_triple_char;
use crate::rewrite::one_space;
use crate::rewrite::rewrite_spec;
use crate::rewrite::rule_a;
use crate::rewrite::rule_c;
use crate::rewrite::starts_with_gcc;
use crate::rewrite::triple_match_at;

verus! {

/// Rule A leaves every non-matching command byte-for-byte unchanged: one that
/// neither starts with `"gcc "` nor matches the `"<triple>-gcc "` pattern.
pub proof fn lemma_rule_a_nonmatching(s: Seq<char>, target: Seq<char>)
    requires
        !starts_with_gcc(s),
        !has_triple_match(s),
    ensures
        rule_a(s, target) == s,
{
}

/// A command containing `" -fconserve-stack "` exactly once has that substring
/// replaced by a single space and no other characters altered by the
/// conserve-stack step of Rule B.
pub proof fn lemma_conserve_stack_removed(s: Seq<char>, i: int)
    requires
        occurs_at(s, flag_conserve_stack(), i),
        forall|j: int| j != i ==> !occurs_at(s, flag_conserve_stack(), j),
    ensures
        replace_first(s, flag_conserve_stack(), one_space()) == s.subrange(0, i) + one_space()
            + s.subrange(i + flag_conserve_stack().len() as int, s.len() as int),
{
    lemma_replace_first_at(s, flag_conserve_stack(), one_space(), i);
}

/// A command containing `" -fconserve-stack "` twice has only the first
/// occurrence removed by the conserve-stack step of Rule B: the second one is
/// still present in the result.
pub proof fn lemma_conserve_stack_keeps_second(s: Seq<char>, i: int, j: int)
    requires
        occurs_at(s, flag_conserve_stack(), i),
        forall|m: int| 0 <= m < i ==> !occurs_at(s, flag_conserve_stack(), m),
        occurs_at(s, flag_conserve_stack(), j),
        j >= i + flag_conserve_stack().len(),
    ensures
        occurs_at(
            replace_first(s, flag_conserve_stack(), one_space()),
            flag_conserve_stack(),
            j - flag_conserve_stack().len() + 1,
        ),
{
    reveal_strlit(" ");
    lemma_replace_first_keeps_later(s, flag_conserve_stack(), one_space(), i, j);
}

/// Rule C replaces the first occurrence of `" -mabi=lp64"` by a single space
/// and alters nothing else.
pub proof fn lemma_rule_c_removes(s: Seq<char>, i: int)
    requires
        occurs_at(s, abi_lp64(), i),
        forall|j: int| 0 <= j < i ==> !occurs_at(s, abi_lp64(), j),
    ensures
        rule_c(s) == s.subrange(0, i) + one_space() + s.subrange(
            i + abi_lp64().len() as int,
            s.len() as int,
        ),
{
    lemma_replace_first_at(s, abi_lp64(), one_space(), i);
}

/// A command in which `" -mabi=lp64"` does not occur is left unchanged by
/// Rule C.
pub proof fn lemma_rule_c_unchanged(s: Seq<char>)
    requires
        !contains_pat(s, abi_lp64()),
    ensures
        rule_c(s) == s,
{
    lemma_replace_first_unchanged(s, abi_lp64(), one_space());
}

/// The command matches neither of Rule A's two patterns.
pub open spec fn rule_a_clean(s: Seq<char>) -> bool {
    !starts_with_gcc(s) && !has_triple_match(s)
}

/// The command begins with the six characters `"clang "`.
spec fn starts_clang(s: Seq<char>) -> bool {
    s.len() >= 6 && s.subrange(0, 6) == "clang "@
}

/// A command that begins with `"clang "` matches neither of Rule A's patterns.
proof fn lemma_starts_clang_clean(s: Seq<char>)
    requires
        starts_clang(s),
    ensures
        rule_a_clean(s),
{
    reveal_strlit("clang ");
    reveal_strlit("gcc ");
    reveal_strlit("-gcc ");
    assert forall|x: int| 0 <= x < 6 implies s[x] == "clang "@[x] by {
        assert(s.subrange(0, 6)[x] == s[x]);
    }
    if starts_with_gcc(s) {
        assert(s.subrange(0, 4)[0] == s[0]);
        assert(false);
    }
    if has_triple_match(s) {
        let i = choose|i: int| triple_match_at(s, i);
        assert(triple_match_at(s, i));
        if i > 5 {
            assert(is_triple_char(s[5]));
        } else {
            assert(s.subrange(i, i + 5)[0] == s[i]);
        }
        assert(false);
    }
}

/// Replacing a first occurrence of a pattern that begins with a space by one
/// space keeps a leading `"clang "` in place.
proof fn lemma_replace_preserves_clang(s: Seq<char>, pat: Seq<char>)
    requires
        starts_clang(s),
        pat.len() >= 1,
        pat[0] == ' ',
    ensures
        starts_clang(replace_first(s, pat, one_space())),
{
    reveal_strlit("clang ");
    reveal_strlit(" ");
    lemma_find_spec(s, pat);
    match find_spec(s, pat) {
        None => {},
        Some(k) => {
            let r = replace_first(s, pat, one_space());
            assert(occurs_at(s, pat, k));
            assert(s[k] == ' ') by {
                assert(s.subrange(k, k + pat.len() as int)[0] == s[k]);
            }
            assert forall|x: int| 0 <= x < 6 implies s[x] == "clang "@[x] by {
                assert(s.subrange(0, 6)[x] == s[x]);
            }
            assert(k >= 5);
            assert forall|x: int| 0 <= x < k implies r[x] == s[x] by {
                assert(r[x] == s.subrange(0, k)[x]);
            }
            if k == 5 {
                assert(r[5] == ' ');
            }
            assert(r.len() >= k + 1);
            assert(r.subrange(0, 6) =~= "clang "@);
        },
    }
}

/// Replacing a first occurrence of a pattern that begins with a space by one
/// space cannot make a clean command match either of Rule A's patterns.
proof fn lemma_replace_preserves_clean(s: Seq<char>, pat: Seq<char>)
    requires
        rule_a_clean(s),
        pat.len() >= 1,
        pat[0] == ' ',
    ensures
        rule_a_clean(replace_first(s, pat, one_space())),
{
    reveal_strlit("gcc ");
    reveal_strlit("-gcc ");
    reveal_strlit(" ");
    lemma_find_spec(s, pat);
    match find_spec(s, pat) {
        None => {},
        Some(k) => {
            let r = replace_first(s, pat, one_space());
            let len = pat.len() as int;
            assert(occurs_at(s, pat, k));
            assert(s[k] == ' ') by {
                assert(s.subrange(k, k + len)[0] == s[k]);
            }
            assert(r.len() == s.len() - len + 1);
            assert forall|x: int| 0 <= x < k implies r[x] == s[x] by {
                assert(r[x] == s.subrange(0, k)[x]);
            }
            assert(r[k] == ' ');
            assert forall|x: int| k < x < r.len() implies r[x] == s[x + len - 1] by {
                assert(r[x] == s.subrange(k + len, s.len() as int)[x - k - 1]);
            }
            if starts_with_gcc(r) {
                assert forall|x: int| 0 <= x < 4 implies r[x] == "gcc "@[x] by {
                    assert(r.subrange(0, 4)[x] == r[x]);
                }
                if k >= 4 {
                    assert(s.subrange(0, 4) =~= "gcc "@);
                } else if k == 3 {
                    assert(s.subrange(0, 4) =~= "gcc "@);
                }
                assert(false);
            }
            if has_triple_match(r) {
                let i = choose|i: int| triple_match_at(r, i);
                assert(triple_match_at(r, i));
                assert forall|x: int| i <= x < i + 5 implies r[x] == "-gcc "@[x - i] by {
                    assert(r.subrange(i, i + 5)[x - i] == r[x]);
                }
                if k < i {
                    assert(is_triple_char(r[k]));
                    assert(false);
                } else if k < i + 5 {
                    assert(k == i + 4);
                    assert(triple_match_at(s, i)) by {
                        assert(s.subrange(i, i + 5) =~= "-gcc "@);
                    }
                    assert(false);
                } else {
                    assert(triple_match_at(s, i)) by {
                        assert(s.subrange(i, i + 5) =~= "-gcc "@);
                    }
                    assert(false);
                }
            }
        },
    }
}

/// After one pass of the full pipeline a command matches neither of Rule A's
/// patterns any more, so Rule A leaves it unchanged.  This holds for every
/// command and every target.
pub proof fn lemma_rewrite_no_rematch(s: Seq<char>, target: Seq<char>)
    ensures
        rule_a(rewrite_spec(s, target), target) == rewrite_spec(s, target),
{
    reveal_strlit(" -fno-allow-store-data-races ");
    reveal_strlit(" -fconserve-stack ");
    reveal_strlit(" -femit-struct-debug-baseonly ");
    reveal_strlit(" -mabi=lp64");
    let a = rule_a(s, target);
    let b1 = replace_first(a, flag_no_store_races(), one_space());
    let b2 = replace_first(b1, flag_conserve_stack(), one_space());
    let b3 = replace_first(b2, flag_struct_debug(), one_space());
    let p = replace_first(b3, abi_lp64(), one_space());
    assert(p == rewrite_spec(s, target));
    if starts_with_gcc(s) || has_triple_match(s) {
        assert(starts_clang(a)) by {
            reveal_strlit("clang --target=");
            reveal_strlit("clang ");
            reveal_strlit(" ");
            assert forall|x: int| 0 <= x < 6 implies a[x] == "clang "@[x] by {
                assert(a[x] == clang_target_stem()[x]);
            }
            assert(a.subrange(0, 6) =~= "clang "@);
        }
        lemma_replace_preserves_clang(a, flag_no_store_races());
        lemma_replace_preserves_clang(b1, flag_conserve_stack());
        lemma_replace_preserves_clang(b2, flag_struct_debug());
        lemma_replace_preserves_clang(b3, abi_lp64());
        lemma_starts_clang_clean(p);
    } else {
        lemma_replace_preserves_clean(a, flag_no_store_races());
        lemma_replace_preserves_clean(b1, flag_conserve_stack());
        lemma_replace_preserves_clean(b2, flag_struct_debug());
        lemma_replace_preserves_clean(b3, abi_lp64());
    }
}

/// Idempotence of the pipeline.  A second pass changes nothing exactly when
/// the first pass left none of the four removed substrings behind: the
/// rewritten command no longer matches the gcc patterns (that part holds
/// always, see `lemma_rewrite_no_rematch`), and by this law's hypothesis it
/// no longer contains the stripped flags.  A command that contains one of the
/// flags twice is left with the second occurrence after one pass, and a second
/// pass would remove it.
pub proof fn lemma_rewrite_idempotent(s: Seq<char>, target: Seq<char>)
    requires
        !contains_pat(rewrite_spec(s, target), flag_no_store_races()),
        !contains_pat(rewrite_spec(s, target), flag_conserve_stack()),
        !contains_pat(rewrite_spec(s, target), flag_struct_debug()),
        !contains_pat(rewrite_spec(s, target), abi_lp64()),
    ensures
        rewrite_spec(rewrite_spec(s, target), target) == rewrite_spec(s, target),
{
    let p = rewrite_spec(s, target);
    lemma_rewrite_no_rematch(s, target);
    lemma_replace_first_unchanged(p, flag_no_store_races(), one_space());
    lemma_replace_first_unchanged(p, flag_conserve_stack(), one_space());
    lemma_replace_first_unchanged(p, flag_struct_debug(), one_space());
    lemma_replace_first_unchanged(p, abi_lp64(), one_space());
}

/// The hypothesis of `lemma_rewrite_idempotent` excludes exactly the inputs on
/// which idempotence fails: whenever the first pass leaves one of the four
/// removed substrings behind, the second pass strictly shortens the command,
/// so it cannot return the same string.
pub proof fn lemma_rewrite_second_pass_shrinks(s: Seq<char>, target: Seq<char>)
    requires
        contains_pat(rewrite_spec(s, target), flag_no_store_races()) || contains_pat(
            rewrite_spec(s, target),
            flag_conserve_stack(),
        ) || contains_pat(rewrite_spec(s, target), flag_struct_debug()) || contains_pat(
            rewrite_spec(s, target),
            abi_lp64(),
        ),
    ensures
        rewrite_spec(rewrite_spec(s, target), target).len() < rewrite_spec(s, target).len(),
{
    reveal_strlit(" -fno-allow-store-data-races ");
    reveal_strlit(" -fconserve-stack ");
    reveal_strlit(" -femit-struct-debug-baseonly ");
    reveal_strlit(" -mabi=lp64");
    reveal_strlit(" ");
    let p = rewrite_spec(s, target);
    lemma_rewrite_no_rematch(s, target);
    let b1 = replace_first(p, flag_no_store_races(), one_space());
    let b2 = replace_first(b1, flag_conserve_stack(), one_space());
    let b3 = replace_first(b2, flag_struct_debug(), one_space());
    lemma_replace_first_len(p, flag_no_store_races(), one_space());
    lemma_replace_first_len(b1, flag_conserve_stack(), one_space());
    lemma_replace_first_len(b2, flag_struct_debug(), one_space());
    lemma_replace_first_len(b3, abi_lp64(), one_space());
    if !contains_pat(p, flag_no_store_races()) {
        lemma_replace_first_unchanged(p, flag_no_store_races(), one_space());
        if !contains_pat(b1, flag_conserve_stack()) {
            lemma_replace_first_unchanged(b1, flag_conserve_stack(), one_space());
            if !contains_pat(b2, flag_struct_debug()) {
                lemma_replace_first_unchanged(b2, flag_struct_debug(), one_space());
            }
        }
    }
}

} // verus!

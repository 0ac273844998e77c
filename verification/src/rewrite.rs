//! The command-line rewriting engine: one record of a compilation database and
//! the three ordered rules that rewrite its `command` string.
//!
//! Rule A replaces a leading `"gcc "` with `"clang --target=<target> "`, or a
//! leading `"<triple>-gcc "` with `"clang --target=<triple> "`.  Rule B removes
//! the first occurrence of each of three GCC-only flags.  Rule C removes the
//! first occurrence of the ABI flag `" -mabi=lp64"`.

use vstd::prelude::*;

use crate::search::matches_at;
use crate::search::replace_first;
use crate::search::replace_first_in;

verus! {

/// Characters allowed in the target-triple-like prefix of a cross-compiler name.
pub open spec fn is_triple_char(c: char) -> bool {
    ('a' <= c && c <= 'z') || ('A' <= c && c <= 'Z') || ('0' <= c && c <= '9') || c == '-'
}

pub open spec fn gcc_prefix() -> Seq<char> {
    "gcc "@
}

pub open spec fn dash_gcc() -> Seq<char> {
    "-gcc "@
}

pub open spec fn clang_target_stem() -> Seq<char> {
    "clang --target="@
}

pub open spec fn flag_no_store_races() -> Seq<char> {
    " -fno-allow-store-data-races "@
}

pub open spec fn flag_conserve_stack() -> Seq<char> {
    " -fconserve-stack "@
}

pub open spec fn flag_struct_debug() -> Seq<char> {
    " -femit-struct-debug-baseonly "@
}

pub open spec fn abi_lp64() -> Seq<char> {
    " -mabi=lp64"@
}

pub open spec fn one_space() -> Seq<char> {
    " "@
}

/// The replacement prefix `"clang --target=" + t + " "`.
pub open spec fn clang_prefix(t: Seq<char>) -> Seq<char> {
    clang_target_stem() + t + one_space()
}

/// The command begins with the literal four characters `"gcc "`.
pub open spec fn starts_with_gcc(s: Seq<char>) -> bool {
    s.len() >= 4 && s.subrange(0, 4) == gcc_prefix()
}

/// `s` begins with a nonempty run of triple characters that ends at `i`,
/// followed immediately by `"-gcc "`.
pub open spec fn triple_match_at(s: Seq<char>, i: int) -> bool {
    &&& 1 <= i
    &&& i + 5 <= s.len()
    &&& (forall|j: int| 0 <= j < i ==> is_triple_char(s[j]))
    &&& s.subrange(i, i + 5) == dash_gcc()
}

/// The command matches the anchored cross-compiler pattern `<triple>-gcc `.
pub open spec fn has_triple_match(s: Seq<char>) -> bool {
    exists|i: int| triple_match_at(s, i)
}

/// The (unique) end of the captured triple prefix.
pub open spec fn triple_match_index(s: Seq<char>) -> int {
    choose|i: int| triple_match_at(s, i)
}

/// Rule A: compiler/target substitution.  A leading `"gcc "` becomes
/// `"clang --target=<target> "`; otherwise a leading `"<triple>-gcc "` becomes
/// `"clang --target=<triple> "` (the captured triple, not the configured one);
/// otherwise the command is unchanged.
pub open spec fn rule_a(s: Seq<char>, target: Seq<char>) -> Seq<char> {
    if starts_with_gcc(s) {
        clang_prefix(target) + s.skip(4)
    } else if has_triple_match(s) {
        clang_prefix(s.subrange(0, triple_match_index(s))) + s.skip(triple_match_index(s) + 5)
    } else {
        s
    }
}

/// Rule B: remove the first occurrence of each GCC-only flag, in this order.
pub open spec fn rule_b(s: Seq<char>) -> Seq<char> {
    replace_first(
        replace_first(
            replace_first(s, flag_no_store_races(), one_space()),
            flag_conserve_stack(),
            one_space(),
        ),
        flag_struct_debug(),
        one_space(),
    )
}

/// Rule C: remove the first occurrence of the ABI flag.
pub open spec fn rule_c(s: Seq<char>) -> Seq<char> {
    replace_first(s, abi_lp64(), one_space())
}

/// The whole pipeline: Rule A, then Rule B, then Rule C.
pub open spec fn rewrite_spec(s: Seq<char>, target: Seq<char>) -> Seq<char> {
    rule_c(rule_b(rule_a(s, target)))
}

/// At most one position can match the cross-compiler pattern: the `"-gcc "`
/// suffix of an earlier match would have to lie inside the triple-character
/// run of a later one, and neither its space nor its letters fit there.
pub proof fn lemma_triple_match_unique(s: Seq<char>, i: int, j: int)
    requires
        triple_match_at(s, i),
        triple_match_at(s, j),
    ensures
        i == j,
{
    reveal_strlit("-gcc ");
    if i < j {
        assert(s.subrange(i, i + 5)[4] == ' ');
        assert(s[i + 4] == ' ');
        if i + 4 < j {
            assert(is_triple_char(s[i + 4]));
        } else {
            assert(s.subrange(j, j + 5)[0] == '-');
            assert(s[j] == '-');
            assert(s.subrange(i, i + 5)[j - i] == s[j]);
        }
    } else if j < i {
        assert(s.subrange(j, j + 5)[4] == ' ');
        assert(s[j + 4] == ' ');
        if j + 4 < i {
            assert(is_triple_char(s[j + 4]));
        } else {
            assert(s.subrange(i, i + 5)[0] == '-');
            assert(s[i] == '-');
            assert(s.subrange(j, j + 5)[i - j] == s[i]);
        }
    }
}

/// Is `c` a triple character?
pub fn is_triple_char_exec(c: char) -> (r: bool)
    ensures
        r == is_triple_char(c),
{
    ('a' <= c && c <= 'z') || ('A' <= c && c <= 'Z') || ('0' <= c && c <= '9') || c == '-'
}

/// One entry of a compilation database: the build invocation for one source file.
pub struct BuildCommand {
    /// The full shell-style invocation; the sole target of rewriting.
    pub command: String,
    /// The build working directory; passed through unchanged.
    pub directory: String,
    /// The source file path; passed through unchanged.
    pub file: String,
}

impl BuildCommand {
    /// Build a record from its three fields.
    pub fn new(command: String, directory: String, file: String) -> (r: BuildCommand)
        ensures
            r.command == command,
            r.directory == directory,
            r.file == file,
    {
        BuildCommand { command, directory, file }
    }

    /// Rule A: replace a GCC invocation at the head of the command with an
    /// equivalent clang invocation carrying an explicit target triple.
    pub fn set_target(&mut self, target: &str)
        ensures
            final(self).command@ == rule_a(old(self).command@, target@),
            final(self).directory == old(self).directory,
            final(self).file == old(self).file,
    {
        proof {
            reveal_strlit("gcc ");
        }
        let cmd_len = self.command.as_str().unicode_len();
        if cmd_len >= 4 && matches_at(self.command.as_str(), cmd_len, "gcc ", 4, 0) {
            let mut out = prefix_string(target);
            out.append(self.command.as_str().substring_char(4, cmd_len));
            proof {
                assert(self.command@.subrange(0, 4) =~= self.command@.subrange(0, 0 + 4int));
                assert(out@ =~= rule_a(self.command@, target@));
            }
            self.command = out;
            return ;
        }
        proof {
            assert(!starts_with_gcc(self.command@)) by {
                if cmd_len >= 4 {
                    assert(self.command@.subrange(0, 4) =~= self.command@.subrange(0, 0 + 4int));
                }
            }
        }
        // Length of the leading run of triple characters.
        let mut run: usize = 0;
        while run < cmd_len && is_triple_char_exec(self.command.as_str().get_char(run))
            invariant
                cmd_len == self.command@.len(),
                0 <= run <= cmd_len,
                forall|j: int| 0 <= j < run ==> is_triple_char(self.command@[j]),
            decreases cmd_len - run,
        {
            run = run + 1;
        }
        let mut found: Option<usize> = None;
        if cmd_len >= 6 {
            let mut i: usize = 1;
            while found.is_none() && i <= run && i <= cmd_len - 5
                invariant
                    cmd_len == self.command@.len(),
                    cmd_len >= 6,
                    0 <= run <= cmd_len,
                    forall|j: int| 0 <= j < run ==> is_triple_char(self.command@[j]),
                    1 <= i <= cmd_len,
                    forall|k: int| 1 <= k < i ==> !triple_match_at(self.command@, k),
                    match found {
                        Some(f) => triple_match_at(self.command@, f as int),
                        None => true,
                    },
                decreases cmd_len - i + (if found.is_none() { 1int } else { 0int }),
            {
                proof {
                    reveal_strlit("-gcc ");
                }
                if matches_at(self.command.as_str(), cmd_len, "-gcc ", 5, i) {
                    proof {
                        assert(triple_match_at(self.command@, i as int));
                    }
                    found = Some(i);
                } else {
                    i = i + 1;
                }
            }
            proof {
                if found is None {
                    assert(!has_triple_match(self.command@)) by {
                        if has_triple_match(self.command@) {
                            let m = triple_match_index(self.command@);
                            assert(triple_match_at(self.command@, m));
                            if m > run {
                                assert(is_triple_char(self.command@[run as int]));
                            }
                            assert(!triple_match_at(self.command@, m));
                        }
                    }
                }
            }
        } else {
            proof {
                assert(!has_triple_match(self.command@)) by {
                    if has_triple_match(self.command@) {
                        let m = triple_match_index(self.command@);
                        assert(triple_match_at(self.command@, m));
                    }
                }
            }
        }
        match found {
            Some(i) => {
                proof {
                    lemma_triple_match_unique(
                        self.command@,
                        i as int,
                        triple_match_index(self.command@),
                    );
                }
                let mut out = prefix_string(self.command.as_str().substring_char(0, i));
                out.append(self.command.as_str().substring_char(i + 5, cmd_len));
                proof {
                    reveal_strlit("-gcc ");
                    assert(out@ =~= rule_a(old(self).command@, target@));
                }
                self.command = out;
            },
            None => {},
        }
    }

    /// Rule B: remove GCC-specific flags that the clang-based indexer does not
    /// understand (first occurrence of each, surrounding spaces required).
    pub fn hide_unknown_arguments(&mut self)
        ensures
            final(self).command@ == rule_b(old(self).command@),
            final(self).directory == old(self).directory,
            final(self).file == old(self).file,
    {
        let r1 = replace_first_in(self.command.as_str(), " -fno-allow-store-data-races ", " ");
        let r2 = replace_first_in(r1.as_str(), " -fconserve-stack ", " ");
        let r3 = replace_first_in(r2.as_str(), " -femit-struct-debug-baseonly ", " ");
        self.command = r3;
    }

    /// Rule C: remove the first occurrence of `" -mabi=lp64"` from the command.
    pub fn censor_mabi_lp64(&mut self)
        ensures
            final(self).command@ == rule_c(old(self).command@),
            final(self).directory == old(self).directory,
            final(self).file == old(self).file,
    {
        let r = replace_first_in(self.command.as_str(), " -mabi=lp64", " ");
        self.command = r;
    }

    /// The full rewrite: the three rules in their fixed order.  Never fails and
    /// touches nothing but the `command` field.
    pub fn rewrite(&mut self, target: &str)
        ensures
            final(self).command@ == rewrite_spec(old(self).command@, target@),
            final(self).directory == old(self).directory,
            final(self).file == old(self).file,
    {
        self.set_target(target);
        self.hide_unknown_arguments();
        self.censor_mabi_lp64();
    }
}

/// The string `"clang --target=" + t + " "`.
fn prefix_string(t: &str) -> (r: String)
    ensures
        r@ == clang_target_stem() + t@ + one_space(),
{
    let mut out = "clang --target=".to_owned();
    out.append(t);
    out.append(" ");
    out
}

} // verus!

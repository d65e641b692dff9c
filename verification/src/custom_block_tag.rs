//! Custom-block substitution: finds paired tag blocks of the form
//! `@kind ... @end[kind]` where kind is one of info, warn, danger or quote,
//! and rewrites each to `<blockquote class="{kind}-block">{content}</blockquote>`.
//!
//! Scanning is leftmost and non-overlapping: at an opening tag the content is
//! the shortest stretch that reaches a closing `@end`, optionally followed by
//! a kind name.  A block whose raw closing-tag text does not end with its
//! opening kind name is a hard error; an opening tag with no `@end` anywhere
//! after it simply passes through unchanged.  Matching is not depth-aware:
//! nested blocks are not supported.

use vstd::prelude::*;

use crate::components::Component;
use crate::error::WordsmithError;
use crate::text::{check_match_at, match_at};

verus! {

/// The four supported block kinds.
#[derive(Debug, Clone, Copy, PartialEq, Eq)]
pub enum BlockKind {
    Info,
    Warn,
    Danger,
    Quote,
}

/// The kind's name as written in its tags.
pub open spec fn kind_word(k: BlockKind) -> Seq<char> {
    match k {
        BlockKind::Info => seq!['i', 'n', 'f', 'o'],
        BlockKind::Warn => seq!['w', 'a', 'r', 'n'],
        BlockKind::Danger => seq!['d', 'a', 'n', 'g', 'e', 'r'],
        BlockKind::Quote => seq!['q', 'u', 'o', 't', 'e'],
    }
}

/// The opening tag of a kind: `@` followed by its name.
pub open spec fn opener_word(k: BlockKind) -> Seq<char> {
    seq!['@'] + kind_word(k)
}

/// The start of every closing tag.
pub open spec fn end_word() -> Seq<char> {
    seq!['@', 'e', 'n', 'd']
}

/// The kind whose opening tag occurs in `s` at position `i`, if any.  No
/// kind name is a prefix of another, so at most one fits.
pub open spec fn opener_at(s: Seq<char>, i: int) -> Option<BlockKind> {
    if match_at(s, opener_word(BlockKind::Info), i) {
        Some(BlockKind::Info)
    } else if match_at(s, opener_word(BlockKind::Warn), i) {
        Some(BlockKind::Warn)
    } else if match_at(s, opener_word(BlockKind::Danger), i) {
        Some(BlockKind::Danger)
    } else if match_at(s, opener_word(BlockKind::Quote), i) {
        Some(BlockKind::Quote)
    } else {
        None
    }
}

/// The kind whose bare name occurs in `s` at position `i`, if any: the
/// optional tail of a closing tag, right after `@end`.
pub open spec fn end_kind_at(s: Seq<char>, i: int) -> Option<BlockKind> {
    if match_at(s, kind_word(BlockKind::Info), i) {
        Some(BlockKind::Info)
    } else if match_at(s, kind_word(BlockKind::Warn), i) {
        Some(BlockKind::Warn)
    } else if match_at(s, kind_word(BlockKind::Danger), i) {
        Some(BlockKind::Danger)
    } else if match_at(s, kind_word(BlockKind::Quote), i) {
        Some(BlockKind::Quote)
    } else {
        None
    }
}

/// The length of the closing tag that starts at `j`: `@end` plus the kind
/// name that immediately follows it, if one does.
pub open spec fn end_tag_len(s: Seq<char>, j: int) -> int {
    end_word().len() + (match end_kind_at(s, j + end_word().len()) {
        Some(k) => kind_word(k).len() as int,
        None => 0,
    })
}

/// The first position at or after `j` where `@end` occurs, if any.
pub open spec fn find_end_from(s: Seq<char>, j: int) -> Option<int>
    decreases s.len() - j,
    when 0 <= j <= s.len()
{
    if j + end_word().len() <= s.len() {
        if match_at(s, end_word(), j) {
            Some(j)
        } else {
            find_end_from(s, j + 1)
        }
    } else {
        None
    }
}

/// `t` ends with `suffix`.
pub open spec fn ends_with(t: Seq<char>, suffix: Seq<char>) -> bool {
    suffix.len() <= t.len() && match_at(t, suffix, t.len() - suffix.len())
}

/// What a validated block is rewritten to.
pub open spec fn blockquote(k: BlockKind, content: Seq<char>) -> Seq<char> {
    "<blockquote class=\""@ + kind_word(k) + "-block\">"@ + content + "</blockquote>"@
}

/// Where `find_end_from` answers, `@end` occurs there and nowhere earlier;
/// where it does not, `@end` occurs nowhere at or after the start.
proof fn lemma_find_end_from_spec(s: Seq<char>, a: int)
    requires
        0 <= a <= s.len(),
    ensures
        match find_end_from(s, a) {
            Some(j) => a <= j && match_at(s, end_word(), j) && forall|t: int|
                a <= t < j ==> !match_at(s, end_word(), t),
            None => forall|t: int| t >= a ==> !match_at(s, end_word(), t),
        },
    decreases s.len() - a,
{
    if a + end_word().len() <= s.len() {
        if !match_at(s, end_word(), a) {
            lemma_find_end_from_spec(s, a + 1);
        }
    } else {
        assert forall|t: int| t >= a implies !match_at(s, end_word(), t) by {
            if match_at(s, end_word(), t) {
                assert(t + end_word().len() <= s.len());
            }
        }
    }
}

proof fn lemma_opener_bounds(s: Seq<char>, i: int)
    ensures
        match opener_at(s, i) {
            Some(k) => 0 <= i && i + 1 + kind_word(k).len() <= s.len(),
            None => true,
        },
{
}

/// What is left of `s` from position `i` on, once every block from position
/// `i` on is rewritten — or the first mismatched open/close pair.  At an
/// opening tag whose closing tag validates, the whole block is consumed; at
/// any other character, that character is kept and scanning moves on by one.
pub open spec fn custom_block_from(s: Seq<char>, i: int) -> Result<
    Seq<char>,
    (Seq<char>, Seq<char>),
>
    decreases s.len() - i,
    when 0 <= i <= s.len() via custom_block_from_dec
{
    if i >= s.len() {
        Ok(Seq::empty())
    } else {
        match opener_at(s, i) {
            Some(kind) => {
                let cstart = i + 1 + kind_word(kind).len();
                match find_end_from(s, cstart) {
                    Some(j) => {
                        let elen = end_tag_len(s, j);
                        let end_tag = s.subrange(j, j + elen);
                        if ends_with(end_tag, kind_word(kind)) {
                            match custom_block_from(s, j + elen) {
                                Ok(rest) => Ok(blockquote(kind, s.subrange(cstart, j)) + rest),
                                Err(e) => Err(e),
                            }
                        } else {
                            Err((kind_word(kind), end_tag))
                        }
                    },
                    None => match custom_block_from(s, i + 1) {
                        Ok(rest) => Ok(seq![s[i]] + rest),
                        Err(e) => Err(e),
                    },
                }
            },
            None => match custom_block_from(s, i + 1) {
                Ok(rest) => Ok(seq![s[i]] + rest),
                Err(e) => Err(e),
            },
        }
    }
}

#[via_fn]
proof fn custom_block_from_dec(s: Seq<char>, i: int) {
    if 0 <= i < s.len() {
        if let Some(kind) = opener_at(s, i) {
            lemma_opener_bounds(s, i);
            let cstart = i + 1 + kind_word(kind).len();
            if let Some(j) = find_end_from(s, cstart) {
                lemma_find_end_from_spec(s, cstart);
                assert(j + end_tag_len(s, j) <= s.len()) by {
                    if let Some(ek) = end_kind_at(s, j + end_word().len()) {
                        assert(match_at(s, kind_word(ek), j + end_word().len()));
                    }
                }
            }
        }
    }
}

/// The whole rewriting: every block validated, then every block rewritten.
pub open spec fn custom_block_spec(s: Seq<char>) -> Result<Seq<char>, (Seq<char>, Seq<char>)> {
    custom_block_from(s, 0)
}

/// The partial output already emitted, followed by what the rest of the scan
/// yields; an error swallows any partial output.
pub open spec fn compose_output(prefix: Seq<char>, r: Result<Seq<char>, (Seq<char>, Seq<char>)>) -> Result<
    Seq<char>,
    (Seq<char>, Seq<char>),
> {
    match r {
        Ok(t) => Ok(prefix + t),
        Err(e) => Err(e),
    }
}

/// The tag words as string slices equal the spec words.
proof fn lemma_words()
    ensures
        "info"@ == kind_word(BlockKind::Info),
        "warn"@ == kind_word(BlockKind::Warn),
        "danger"@ == kind_word(BlockKind::Danger),
        "quote"@ == kind_word(BlockKind::Quote),
        "@info"@ == opener_word(BlockKind::Info),
        "@warn"@ == opener_word(BlockKind::Warn),
        "@danger"@ == opener_word(BlockKind::Danger),
        "@quote"@ == opener_word(BlockKind::Quote),
        "@end"@ == end_word(),
{
    reveal_strlit("info");
    reveal_strlit("warn");
    reveal_strlit("danger");
    reveal_strlit("quote");
    reveal_strlit("@info");
    reveal_strlit("@warn");
    reveal_strlit("@danger");
    reveal_strlit("@quote");
    reveal_strlit("@end");
    assert("info"@ =~= kind_word(BlockKind::Info));
    assert("warn"@ =~= kind_word(BlockKind::Warn));
    assert("danger"@ =~= kind_word(BlockKind::Danger));
    assert("quote"@ =~= kind_word(BlockKind::Quote));
    assert("@info"@ =~= opener_word(BlockKind::Info));
    assert("@warn"@ =~= opener_word(BlockKind::Warn));
    assert("@danger"@ =~= opener_word(BlockKind::Danger));
    assert("@quote"@ =~= opener_word(BlockKind::Quote));
    assert("@end"@ =~= end_word());
}

/// The name of a kind, as written in its tags.
pub fn kind_str(k: BlockKind) -> (r: &'static str)
    ensures
        r@ == kind_word(k),
{
    proof {
        lemma_words();
    }
    match k {
        BlockKind::Info => "info",
        BlockKind::Warn => "warn",
        BlockKind::Danger => "danger",
        BlockKind::Quote => "quote",
    }
}

/// The length of a kind's name.
pub fn kind_len(k: BlockKind) -> (r: usize)
    ensures
        r == kind_word(k).len(),
{
    match k {
        BlockKind::Info => 4,
        BlockKind::Warn => 4,
        BlockKind::Danger => 6,
        BlockKind::Quote => 5,
    }
}

/// The kind whose opening tag occurs at `i`, if any.
fn opener_kind_at(s: &str, i: usize) -> (r: Option<BlockKind>)
    ensures
        r == opener_at(s@, i as int),
{
    proof {
        lemma_words();
    }
    if check_match_at(s, "@info", i) {
        Some(BlockKind::Info)
    } else if check_match_at(s, "@warn", i) {
        Some(BlockKind::Warn)
    } else if check_match_at(s, "@danger", i) {
        Some(BlockKind::Danger)
    } else if check_match_at(s, "@quote", i) {
        Some(BlockKind::Quote)
    } else {
        None
    }
}

/// The kind whose bare name occurs at `i`, if any.
fn end_kind_at_exec(s: &str, i: usize) -> (r: Option<BlockKind>)
    ensures
        r == end_kind_at(s@, i as int),
{
    proof {
        lemma_words();
    }
    if check_match_at(s, "info", i) {
        Some(BlockKind::Info)
    } else if check_match_at(s, "warn", i) {
        Some(BlockKind::Warn)
    } else if check_match_at(s, "danger", i) {
        Some(BlockKind::Danger)
    } else if check_match_at(s, "quote", i) {
        Some(BlockKind::Quote)
    } else {
        None
    }
}

/// Rewrite every block of `s`, or report the first mismatched pair.
#[verifier::rlimit(60)]
pub fn custom_block_compile(s: &str) -> (r: Result<String, WordsmithError>)
    ensures
        match custom_block_spec(s@) {
            Ok(t) => r matches Ok(x) && x@ == t,
            Err((opened, closed)) => r matches Err(
                WordsmithError::InvalidComponentClosingTag(a, b),
            ) && a@ == opened && b@ == closed,
        },
{
    proof {
        lemma_words();
    }
    let n = s.unicode_len();
    let mut out = String::new();
    let mut i: usize = 0;
    proof {
        assert(Seq::<char>::empty() + custom_block_from(s@, 0)->Ok_0 =~= custom_block_from(
            s@,
            0,
        )->Ok_0);
        assert(custom_block_spec(s@) == compose_output(out@, custom_block_from(s@, i as int)));
    }
    while i < n
        invariant
            0 <= i <= n,
            n == s@.len(),
            custom_block_spec(s@) == compose_output(out@, custom_block_from(s@, i as int)),
        decreases n - i,
    {
        proof {
            lemma_words();
        }
        let ghost prev = out@;
        let kind_opt = opener_kind_at(s, i);
        let mut matched = false;
        if let Some(kind) = kind_opt {
            proof {
                lemma_opener_bounds(s@, i as int);
            }
            let klen = kind_len(kind);
            let cstart = i + 1 + klen;
            let mut j = cstart;
            let mut found = false;
            while !found && j < n && n - j >= 4
                invariant
                    cstart <= j <= n,
                    n == s@.len(),
                    "@end"@ == end_word(),
                    found ==> match_at(s@, end_word(), j as int),
                    forall|t: int| cstart <= t < j ==> !match_at(s@, end_word(), t),
                decreases n - j, (if found { 0int } else { 1int }),
            {
                if check_match_at(s, "@end", j) {
                    found = true;
                } else {
                    j = j + 1;
                }
            }
            proof {
                lemma_find_end_from_spec(s@, cstart as int);
            }
            if found {
                proof {
                    // the loop found the leftmost occurrence of `@end`
                    match find_end_from(s@, cstart as int) {
                        Some(fj) => {
                            if fj < j {
                                assert(!match_at(s@, end_word(), fj));
                            }
                            if j < fj {
                                assert(!match_at(s@, end_word(), j as int));
                            }
                            assert(fj == j);
                        },
                        None => {
                            assert(!match_at(s@, end_word(), j as int));
                        },
                    }
                }
                let ek = end_kind_at_exec(s, j + 4);
                let elen: usize = match ek {
                    Some(k) => 4 + kind_len(k),
                    None => 4,
                };
                proof {
                    assert(elen == end_tag_len(s@, j as int));
                    if let Some(k) = ek {
                        assert(match_at(s@, kind_word(k), j + 4));
                    }
                    assert(j + elen <= n);
                }
                let ghost end_tag = s@.subrange(j as int, j + elen);
                // the raw closing-tag text must end with the opening kind name
                let closes = klen <= elen && check_match_at(s, kind_str(kind), j + elen - klen);
                proof {
                    if klen <= elen {
                        let p = elen - klen;
                        assert forall|k: int| 0 <= k < kind_word(kind).len() implies (#[trigger] end_tag[p
                            + k] == s@[j + p + k]) by {}
                        assert(match_at(end_tag, kind_word(kind), p as int) == match_at(
                            s@,
                            kind_word(kind),
                            j + p,
                        ));
                    }
                    assert(closes == ends_with(end_tag, kind_word(kind)));
                }
                if closes {
                    out.append("<blockquote class=\"");
                    out.append(kind_str(kind));
                    out.append("-block\">");
                    let content = s.substring_char(cstart, j);
                    out.append(content);
                    out.append("</blockquote>");
                    proof {
                        assert(out@ =~= prev + blockquote(kind, s@.subrange(
                            cstart as int,
                            j as int,
                        )));
                        match custom_block_from(s@, j + elen) {
                            Ok(rest) => {
                                assert(custom_block_from(s@, i as int) matches Ok(t) && t
                                    == blockquote(kind, s@.subrange(cstart as int, j as int))
                                    + rest);
                                assert(prev + (blockquote(kind, s@.subrange(cstart as int, j as int))
                                    + rest) =~= out@ + rest);
                            },
                            Err(e) => {
                                assert(custom_block_from(s@, i as int) == Err::<
                                    Seq<char>,
                                    (Seq<char>, Seq<char>),
                                >(e));
                            },
                        }
                    }
                    i = j + elen;
                    matched = true;
                } else {
                    let opened = String::from_str(kind_str(kind));
                    let closed = String::from_str(s.substring_char(j, j + elen));
                    proof {
                        assert(custom_block_from(s@, i as int) == Err::<
                            Seq<char>,
                            (Seq<char>, Seq<char>),
                        >((kind_word(kind), end_tag)));
                    }
                    return Err(WordsmithError::InvalidComponentClosingTag(opened, closed));
                }
            } else {
                proof {
                    // the loop ran out of room: no `@end` anywhere after the
                    // opening tag, so the block is unterminated
                    match find_end_from(s@, cstart as int) {
                        Some(fj) => {
                            if fj < j {
                                assert(!match_at(s@, end_word(), fj));
                            } else {
                                assert(fj + end_word().len() <= n);
                            }
                            assert(false);
                        },
                        None => {},
                    }
                    assert(find_end_from(s@, cstart as int) is None);
                }
            }
        }
        if !matched {
            let c = s.substring_char(i, i + 1);
            out.append(c);
            proof {
                assert(c@ =~= seq![s@[i as int]]);
                match custom_block_from(s@, i + 1) {
                    Ok(rest) => {
                        assert((prev + (c@ + rest)) =~= (out@ + rest));
                    },
                    Err(_) => {},
                }
            }
            i = i + 1;
        }
    }
    proof {
        assert(custom_block_from(s@, i as int) == Ok::<Seq<char>, (Seq<char>, Seq<char>)>(
            Seq::<char>::empty(),
        ));
        assert(out@ + Seq::<char>::empty() =~= out@);
    }
    Ok(out)
}

proof fn lemma_custom_block_from_identity(s: Seq<char>, i: int)
    requires
        0 <= i <= s.len(),
        forall|t: int| opener_at(s, t) is None,
    ensures
        custom_block_from(s, i) == Ok::<Seq<char>, (Seq<char>, Seq<char>)>(
            s.subrange(i, s.len() as int),
        ),
    decreases s.len() - i,
{
    if i < s.len() {
        lemma_custom_block_from_identity(s, i + 1);
        assert(seq![s[i]] + s.subrange(i + 1, s.len() as int) =~= s.subrange(i, s.len() as int));
    } else {
        assert(s.subrange(i, s.len() as int) =~= Seq::<char>::empty());
    }
}

/// Law: on text in which no opening tag occurs, the rewriting is the
/// identity and cannot fail.
pub proof fn lemma_custom_block_identity(s: Seq<char>)
    requires
        forall|t: int| opener_at(s, t) is None,
    ensures
        custom_block_spec(s) == Ok::<Seq<char>, (Seq<char>, Seq<char>)>(s),
{
    lemma_custom_block_from_identity(s, 0);
    assert(s.subrange(0, s.len() as int) =~= s);
}

proof fn lemma_custom_block_from_unterminated(s: Seq<char>, i: int)
    requires
        0 <= i <= s.len(),
        forall|t: int| !match_at(s, end_word(), t),
    ensures
        custom_block_from(s, i) == Ok::<Seq<char>, (Seq<char>, Seq<char>)>(
            s.subrange(i, s.len() as int),
        ),
    decreases s.len() - i,
{
    if i < s.len() {
        if let Some(kind) = opener_at(s, i) {
            lemma_opener_bounds(s, i);
            let cstart = i + 1 + kind_word(kind).len();
            lemma_find_end_from_spec(s, cstart);
            if let Some(j) = find_end_from(s, cstart) {
                assert(match_at(s, end_word(), j));
            }
            assert(find_end_from(s, cstart) is None);
        }
        lemma_custom_block_from_unterminated(s, i + 1);
        assert(seq![s[i]] + s.subrange(i + 1, s.len() as int) =~= s.subrange(i, s.len() as int));
    } else {
        assert(s.subrange(i, s.len() as int) =~= Seq::<char>::empty());
    }
}

/// Law: on text in which `@end` never occurs — in particular on an opening
/// tag whose block is unterminated — the rewriting is the identity: the
/// block is simply not matched, and that is no error.
pub proof fn lemma_custom_block_unterminated(s: Seq<char>)
    requires
        !crate::text::contains_pat(s, end_word()),
    ensures
        custom_block_spec(s) == Ok::<Seq<char>, (Seq<char>, Seq<char>)>(s),
{
    assert forall|t: int| !match_at(s, end_word(), t) by {
        if match_at(s, end_word(), t) {
            assert(crate::text::contains_pat(s, end_word()));
        }
    }
    lemma_custom_block_from_unterminated(s, 0);
    assert(s.subrange(0, s.len() as int) =~= s);
}

/// The custom-block substitution rule.
#[derive(Debug, Clone)]
pub struct CustomBlock;

impl CustomBlock {
    /// The rule carries no state.
    pub fn new() -> (r: Self) {
        Self {  }
    }
}

impl Component for CustomBlock {
    /// Every paired block is validated, then rewritten; a block whose closing
    /// tag does not correspond to its opening tag aborts the whole
    /// compilation with the mismatched pair, and no partial output is
    /// returned.
    open spec fn spec_compile(&self, input: Seq<char>) -> Result<Seq<char>, (Seq<char>, Seq<char>)> {
        custom_block_spec(input)
    }

    fn compile(&self, input: &str) -> (r: Result<String, WordsmithError>) {
        custom_block_compile(input)
    }
}

} // verus!

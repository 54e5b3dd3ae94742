//! Laws of the classification engine, stated and proved over the scan model.

use vstd::prelude::*;

use crate::comment_parser::{
    classify_batch_spec, classify_lua_spec, classify_python_spec, long_close, long_open,
    lua_opens_all_closed, TripleDelim,
};
use crate::engine::{
    classify_spec, params_of, scan, BlockComment, LineComment, ScanMode, ScanParams, StringRules,
};
use crate::scan::{
    find_outside, is_blank, lemma_find_outside_at_bounds, matches_at, QuoteMode,
};
use crate::tally::{mixed_count, tally_fold, verdict_seq};

verus! {

/// From inside a double-quoted literal, the scan runs inertly to the closing
/// quote: nothing between the quotes changes the flags or the carried state,
/// and the scan resumes right after the close in ordinary mode.
pub proof fn lemma_in_double_runs_to_close(
    s: Seq<u8>,
    i: int,
    j: int,
    code: bool,
    comment: bool,
    p: ScanParams,
)
    requires
        0 <= i <= j < s.len(),
        s[j] == '"' as u8,
        forall|k: int| i <= k < j ==> s[k] != '"' as u8 && s[k] != '\\' as u8,
    ensures
        scan(s, i, ScanMode::InDouble, code, comment, p) == scan(
            s,
            j + 1,
            ScanMode::Normal,
            code,
            comment,
            p,
        ),
    decreases j - i,
{
    if i < j {
        lemma_in_double_runs_to_close(s, i + 1, j, code, comment, p);
    }
}

/// From inside a single-quoted literal, the scan runs inertly to the closing
/// quote, as for double quotes.
pub proof fn lemma_in_single_runs_to_close(
    s: Seq<u8>,
    i: int,
    j: int,
    code: bool,
    comment: bool,
    p: ScanParams,
)
    requires
        0 <= i <= j < s.len(),
        s[j] == '\'' as u8,
        forall|k: int| i <= k < j ==> s[k] != '\'' as u8 && s[k] != '\\' as u8,
    ensures
        scan(s, i, ScanMode::InSingle, code, comment, p) == scan(
            s,
            j + 1,
            ScanMode::Normal,
            code,
            comment,
            p,
        ),
    decreases j - i,
{
    if i < j {
        lemma_in_single_runs_to_close(s, i + 1, j, code, comment, p);
    }
}

/// A comment marker occurring strictly inside a balanced double-quoted
/// literal never flips `has_comment`: in a string-aware family, a balanced
/// literal contributes exactly the code flag, and the verdict of the line is
/// that of the scan resuming after the closing quote.
pub proof fn lemma_marker_inside_double_quotes_inert(
    s: Seq<u8>,
    i: int,
    j: int,
    code: bool,
    comment: bool,
    p: ScanParams,
)
    requires
        p.strings,
        0 <= i < j < s.len(),
        s[i] == '"' as u8,
        s[j] == '"' as u8,
        forall|k: int| i < k < j ==> s[k] != '"' as u8 && s[k] != '\\' as u8,
    ensures
        scan(s, i, ScanMode::Normal, code, comment, p) == scan(
            s,
            j + 1,
            ScanMode::Normal,
            true,
            comment,
            p,
        ),
{
    lemma_in_double_runs_to_close(s, i + 1, j, true, comment, p);
}

/// A comment marker occurring strictly inside a balanced single-quoted
/// literal never flips `has_comment`, as for double quotes.
pub proof fn lemma_marker_inside_single_quotes_inert(
    s: Seq<u8>,
    i: int,
    j: int,
    code: bool,
    comment: bool,
    p: ScanParams,
)
    requires
        p.strings,
        0 <= i < j < s.len(),
        s[i] == '\'' as u8,
        s[j] == '\'' as u8,
        forall|k: int| i < k < j ==> s[k] != '\'' as u8 && s[k] != '\\' as u8,
    ensures
        scan(s, i, ScanMode::Normal, code, comment, p) == scan(
            s,
            j + 1,
            ScanMode::Normal,
            true,
            comment,
            p,
        ),
{
    lemma_in_single_runs_to_close(s, i + 1, j, true, comment, p);
}

/// From inside a block comment, the scan marks comment up to the first
/// closing delimiter and resumes right after it in ordinary mode.
pub proof fn lemma_in_block_runs_to_close(
    s: Seq<u8>,
    i: int,
    j: int,
    code: bool,
    comment: bool,
    p: ScanParams,
)
    requires
        p.block is Some,
        p.block->Some_0.1.len() > 0,
        0 <= i <= j,
        matches_at(s, j, p.block->Some_0.1),
        forall|k: int| i <= k < j ==> !matches_at(s, k, p.block->Some_0.1),
    ensures
        scan(s, i, ScanMode::InBlock, code, comment, p) == scan(
            s,
            j + p.block->Some_0.1.len(),
            ScanMode::Normal,
            code,
            true,
            p,
        ),
    decreases j - i,
{
    if i < j {
        lemma_in_block_runs_to_close(s, i + 1, j, code, true, p);
    }
}

/// Mixed same-line open and close of a block form never leaves lingering
/// open state: after a block comment that opens and closes on one line, the
/// verdict and the carried state are those of the scan resuming after the
/// closing delimiter, with the comment flag set.
pub proof fn lemma_block_open_closes_same_line(
    s: Seq<u8>,
    i: int,
    j: int,
    code: bool,
    comment: bool,
    p: ScanParams,
)
    requires
        p.block is Some,
        p.block->Some_0.0.len() > 0,
        p.block->Some_0.1.len() > 0,
        matches_at(s, i, p.block->Some_0.0),
        p.strings ==> s[i] != '\'' as u8 && s[i] != '"' as u8,
        i + p.block->Some_0.0.len() <= j,
        matches_at(s, j, p.block->Some_0.1),
        forall|k: int|
            i + p.block->Some_0.0.len() <= k < j ==> !matches_at(s, k, p.block->Some_0.1),
    ensures
        scan(s, i, ScanMode::Normal, code, comment, p) == scan(
            s,
            j + p.block->Some_0.1.len(),
            ScanMode::Normal,
            code,
            true,
            p,
        ),
{
    lemma_in_block_runs_to_close(s, i + p.block->Some_0.0.len(), j, code, true, p);
}

/// Mixed same-line open and close of the Lua long-comment form never leaves
/// lingering open state: out of a long comment, when every `--[[` the engine
/// finds outside string literals has a matching `]]` on the same line, the
/// carried state stays closed — and the line counts as comment whenever a
/// long comment was present.
pub proof fn lemma_lua_same_line_closes(bytes: Seq<u8>)
    requires
        lua_opens_all_closed(bytes),
    ensures
        classify_lua_spec(bytes, false).1 == false,
        !is_blank(bytes) && find_outside(bytes, long_open()) is Some ==> classify_lua_spec(
            bytes,
            false,
        ).0.1,
    decreases bytes.len(),
{
    if !is_blank(bytes) {
        match find_outside(bytes, long_open()) {
            Some(idx) => {
                lemma_find_outside_at_bounds(bytes, long_open(), 0, QuoteMode::Outside, idx);
                let after = bytes.subrange(idx + 4, bytes.len() as int);
                match find_outside(after, long_close()) {
                    Some(e) => {
                        lemma_find_outside_at_bounds(after, long_close(), 0, QuoteMode::Outside, e);
                        lemma_lua_same_line_closes(after.subrange(e + 2, after.len() as int));
                    },
                    None => {},
                }
            },
            None => {},
        }
    }
}

/// An empty or all-whitespace line yields `(false, false)` under every
/// family's rules, whatever the carried state, and the state is untouched.
pub proof fn lemma_blank_line_inert(
    bytes: Seq<u8>,
    in_block: bool,
    p: ScanParams,
    st: Option<TripleDelim>,
    in_long: bool,
)
    requires
        is_blank(bytes),
    ensures
        classify_spec(bytes, in_block, p) == (false, false, in_block),
        classify_python_spec(bytes, st) == ((false, false), st),
        classify_lua_spec(bytes, in_long) == ((false, false), in_long),
        classify_batch_spec(bytes) == (false, false),
{
}

/// Reclassifying the same lines from equal fresh states reproduces identical
/// per-line verdicts and identical tallies: the engine is deterministic, and
/// the carried state is its only memory.
pub proof fn lemma_reclassification_identical<St>(
    lines: Seq<Seq<char>>,
    init1: St,
    init2: St,
    step: spec_fn(Seq<char>, St) -> ((bool, bool), St),
)
    requires
        init1 == init2,
    ensures
        verdict_seq(lines, init1, step) == verdict_seq(lines, init2, step),
        tally_fold(lines, init1, step) == tally_fold(lines, init2, step),
{
}

/// Every physical line is attributed to exactly one of blank, comment-only,
/// or code — with a mixed line counted in both the comment and the code
/// tally — and never lost: the three counts sum to the line total plus the
/// number of mixed lines.
pub proof fn lemma_every_line_attributed<St>(
    lines: Seq<Seq<char>>,
    init: St,
    step: spec_fn(Seq<char>, St) -> ((bool, bool), St),
)
    ensures
        tally_fold(lines, init, step).0 + tally_fold(lines, init, step).1 + tally_fold(
            lines,
            init,
            step,
        ).2 == lines.len() + mixed_count(lines, init, step),
    decreases lines.len(),
{
    if lines.len() > 0 {
        lemma_every_line_attributed(lines.drop_last(), init, step);
    }
}

/// The two verdict flags are independent: under the C-like rules alone, each
/// of the four combinations of `(has_code, has_comment)` is realized by some
/// line, so neither flag can be inferred from the other.
pub proof fn lemma_verdict_flags_independent()
    ensures
        ({
            let p = params_of(
                LineComment::DoubleSlash,
                Some(BlockComment::SlashStar),
                StringRules::CStyle,
            );
            &&& classify_spec(Seq::empty(), false, p) == (false, false, false)
            &&& classify_spec(seq!['a' as u8], false, p) == (true, false, false)
            &&& classify_spec(seq!['/' as u8, '/' as u8], false, p) == (false, true, false)
            &&& classify_spec(seq!['a' as u8, '/' as u8, '/' as u8], false, p) == (
                true,
                true,
                false,
            )
        }),
{
    let p = params_of(LineComment::DoubleSlash, Some(BlockComment::SlashStar), StringRules::CStyle);
    reveal_with_fuel(scan, 5);
    assert(is_blank(Seq::<u8>::empty()));
    let s1 = seq!['a' as u8];
    assert(!crate::scan::is_ws(s1[0]));
    assert(!is_blank(s1));
    assert(scan(s1, 0, ScanMode::Normal, false, false, p) == (true, false, false));
    let s2 = seq!['/' as u8, '/' as u8];
    assert(!crate::scan::is_ws(s2[0]));
    assert(!is_blank(s2));
    assert(matches_at(s2, 0, seq!['/' as u8, '/' as u8]));
    assert(scan(s2, 0, ScanMode::Normal, false, false, p) == (false, true, false));
    let s3 = seq!['a' as u8, '/' as u8, '/' as u8];
    assert(!crate::scan::is_ws(s3[0]));
    assert(!is_blank(s3));
    assert(!matches_at(s3, 0, seq!['/' as u8, '/' as u8]));
    assert(!matches_at(s3, 0, seq!['/' as u8, '*' as u8]));
    assert(!matches_at(s3, 1, seq!['/' as u8, '*' as u8]));
    assert(matches_at(s3, 1, seq!['/' as u8, '/' as u8]));
    assert(scan(s3, 0, ScanMode::Normal, false, false, p) == (true, true, false));
}

} // verus!

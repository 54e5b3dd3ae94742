//! Per-family line classifiers.
//!
//! Each classifier takes one physical line (without its trailing newline) and
//! the family's carried state, and returns `(has_code, has_comment)` while
//! updating the state for multi-line constructs.  The result and the new
//! state are pinned to the recursive scan model in [`crate::engine`].

use vstd::prelude::*;

use crate::engine::{
    classify_spec, dash_scan, hash_scan, params_of, scan, start_mode, BlockComment, LineComment,
    ScanMode, StringRules,
};
use crate::scan::{
    blank_step, byte_is_ws, find2, find3, find_outside, find_outside2, find_outside4, find_plain,
    find_triple, find_triple_at, is_blank, is_blank_line, lemma_find_at_bounds,
    lemma_find_outside_at_bounds, match1, match2, match3, match4, matches_at, rfind3, rfind_plain,
    skip2, skip_blank, triple_of, ws_run_end, ws_width_at, QuoteMode,
};
use vstd::string::StringSliceAdditionalSpecFns;

verus! {

/// Carried state for the families with a single block-comment form.
#[derive(Debug, Clone, Copy, PartialEq, Eq, Structural)]
pub struct ParseState {
    pub in_block_comment: bool,
}

impl ParseState {
    /// A fresh state: not inside a block comment.
    pub fn new() -> (s: Self)
        ensures
            !s.in_block_comment,
    {
        Self { in_block_comment: false }
    }
}

/// The mode the scan loop stands in, as the model sees it.
pub open spec fn loop_mode(in_block: bool, in_single: bool, in_double: bool) -> ScanMode {
    if in_block {
        ScanMode::InBlock
    } else if in_single {
        ScanMode::InSingle
    } else if in_double {
        ScanMode::InDouble
    } else {
        ScanMode::Normal
    }
}

/// One pass of the delimiter-pair engine over part of a line, from the given
/// carried block-comment state, honoring the family's line-comment marker,
/// block-comment delimiters, and string rule.
pub(crate) fn scan_part(
    bytes: &[u8],
    in_block0: bool,
    lc: LineComment,
    bc: Option<BlockComment>,
    sr: StringRules,
) -> (r: (bool, bool, bool))
    ensures
        (r.0, r.1, r.2) == scan(bytes@, 0, start_mode(in_block0), false, false, params_of(lc, bc, sr)),
{
    let ghost p = params_of(lc, bc, sr);
    let n = bytes.len();
    let mut i: usize = 0;
    let mut saw_code = false;
    let mut saw_comment = false;
    let mut in_block = in_block0;
    let mut in_single = false;
    let mut in_double = false;
    let ghost init_mode = start_mode(in_block0);
    while i < n
        invariant
            n == bytes@.len(),
            i <= n,
            p == params_of(lc, bc, sr),
            sr == StringRules::CStyle || (!in_single && !in_double),
            !(in_single && in_double),
            in_block ==> !in_single && !in_double,
            scan(bytes@, i as int, loop_mode(in_block, in_single, in_double), saw_code, saw_comment, p)
                == scan(bytes@, 0, init_mode, false, false, p),
        decreases n - i,
    {
        if in_block {
            let mut close_len: usize = 0;
            match bc {
                Some(BlockComment::SlashStar) => {
                    if match2(bytes, i, '*' as u8, '/' as u8) {
                        close_len = 2;
                    }
                },
                Some(BlockComment::Xml) => {
                    if match3(bytes, i, '-' as u8, '-' as u8, '>' as u8) {
                        close_len = 3;
                    }
                },
                None => {},
            }
            saw_comment = true;
            if close_len > 0 {
                in_block = false;
                i += close_len;
            } else {
                i += 1;
            }
        } else if in_single {
            let b = bytes[i];
            if b == '\\' as u8 {
                proof {
                    assert(skip2(bytes@, i as int) == if i + 2 <= n { i + 2 } else { n as int });
                }
                i = if n - i >= 2 { i + 2 } else { n };
            } else {
                if b == '\'' as u8 {
                    in_single = false;
                }
                i += 1;
            }
        } else if in_double {
            let b = bytes[i];
            if b == '\\' as u8 {
                proof {
                    assert(skip2(bytes@, i as int) == if i + 2 <= n { i + 2 } else { n as int });
                }
                i = if n - i >= 2 { i + 2 } else { n };
            } else {
                if b == '"' as u8 {
                    in_double = false;
                }
                i += 1;
            }
        } else {
            let b = bytes[i];
            if sr == StringRules::CStyle && b == '\'' as u8 {
                in_single = true;
                saw_code = true;
                i += 1;
            } else if sr == StringRules::CStyle && b == '"' as u8 {
                in_double = true;
                saw_code = true;
                i += 1;
            } else {
                let mut open_len: usize = 0;
                match bc {
                    Some(BlockComment::SlashStar) => {
                        if match2(bytes, i, '/' as u8, '*' as u8) {
                            open_len = 2;
                        }
                    },
                    Some(BlockComment::Xml) => {
                        if match4(bytes, i, '<' as u8, '!' as u8, '-' as u8, '-' as u8) {
                            open_len = 4;
                        }
                    },
                    None => {},
                }
                if open_len > 0 {
                    in_block = true;
                    saw_comment = true;
                    i += open_len;
                } else {
                    let mut at_marker = false;
                    match lc {
                        LineComment::DoubleSlash => {
                            if match2(bytes, i, '/' as u8, '/' as u8) {
                                at_marker = true;
                            }
                        },
                        LineComment::DoubleDash => {
                            if match2(bytes, i, '-' as u8, '-' as u8) {
                                at_marker = true;
                            }
                        },
                        LineComment::Hash => {
                            if match1(bytes, i, '#' as u8) {
                                at_marker = true;
                            }
                        },
                        LineComment::NoMarker => {},
                    }
                    if at_marker {
                        // The rest of the line is comment: the scan is over,
                        // and finishing at the end of the line in ordinary
                        // mode leaves the same verdict and state.
                        saw_comment = true;
                        i = n;
                    } else {
                        if !byte_is_ws(b) {
                            saw_code = true;
                        }
                        i += 1;
                    }
                }
            }
        }
    }
    (saw_code, saw_comment, in_block)
}

/// The delimiter-pair engine on a whole line: a blank line is `(false, false)`
/// and leaves the state untouched; any other line is scanned from its first
/// byte with the carried state updated in place.
pub(crate) fn classify_line_generic(
    line: &str,
    state: &mut ParseState,
    lc: LineComment,
    bc: Option<BlockComment>,
    sr: StringRules,
) -> (r: (bool, bool))
    ensures
        ({
            let (code, comment, ib) = classify_spec(
                line.spec_bytes(),
                old(state).in_block_comment,
                params_of(lc, bc, sr),
            );
            r.0 == code && r.1 == comment && final(state).in_block_comment == ib
        }),
{
    let bytes = line.as_bytes();
    if is_blank_line(bytes) {
        return (false, false);
    }
    let (saw_code, saw_comment, in_block) = scan_part(bytes, state.in_block_comment, lc, bc, sr);
    state.in_block_comment = in_block;
    (saw_code, saw_comment)
}

/// C-like families: `//` line comments, `/* */` block comments, and single-
/// or double-quoted string literals that hide comment markers.
pub fn classify_line_c_like(line: &str, state: &mut ParseState) -> (r: (bool, bool))
    ensures
        ({
            let (code, comment, ib) = classify_spec(
                line.spec_bytes(),
                old(state).in_block_comment,
                params_of(
                    LineComment::DoubleSlash,
                    Some(BlockComment::SlashStar),
                    StringRules::CStyle,
                ),
            );
            r.0 == code && r.1 == comment && final(state).in_block_comment == ib
        }),
{
    classify_line_generic(
        line,
        state,
        LineComment::DoubleSlash,
        Some(BlockComment::SlashStar),
        StringRules::CStyle,
    )
}

/// SQL-like families: `--` line comments, `/* */` block comments, quoted
/// string literals honored.
pub fn classify_line_sql_like(line: &str, state: &mut ParseState) -> (r: (bool, bool))
    ensures
        ({
            let (code, comment, ib) = classify_spec(
                line.spec_bytes(),
                old(state).in_block_comment,
                params_of(
                    LineComment::DoubleDash,
                    Some(BlockComment::SlashStar),
                    StringRules::CStyle,
                ),
            );
            r.0 == code && r.1 == comment && final(state).in_block_comment == ib
        }),
{
    classify_line_generic(
        line,
        state,
        LineComment::DoubleDash,
        Some(BlockComment::SlashStar),
        StringRules::CStyle,
    )
}

/// XML/HTML-like families: `<!-- -->` block comments only; strings are not
/// tracked.
pub fn classify_line_xml_like(line: &str, state: &mut ParseState) -> (r: (bool, bool))
    ensures
        ({
            let (code, comment, ib) = classify_spec(
                line.spec_bytes(),
                old(state).in_block_comment,
                params_of(LineComment::NoMarker, Some(BlockComment::Xml), StringRules::NoStrings),
            );
            r.0 == code && r.1 == comment && final(state).in_block_comment == ib
        }),
{
    classify_line_generic(
        line,
        state,
        LineComment::NoMarker,
        Some(BlockComment::Xml),
        StringRules::NoStrings,
    )
}

/// CSS-like families: `/* */` block comments only; strings are not tracked.
pub fn classify_line_css_like(line: &str, state: &mut ParseState) -> (r: (bool, bool))
    ensures
        ({
            let (code, comment, ib) = classify_spec(
                line.spec_bytes(),
                old(state).in_block_comment,
                params_of(
                    LineComment::NoMarker,
                    Some(BlockComment::SlashStar),
                    StringRules::NoStrings,
                ),
            );
            r.0 == code && r.1 == comment && final(state).in_block_comment == ib
        }),
{
    classify_line_generic(
        line,
        state,
        LineComment::NoMarker,
        Some(BlockComment::SlashStar),
        StringRules::NoStrings,
    )
}

/// Which triple-quote delimiter opened the current block.
#[derive(Debug, Clone, Copy, PartialEq, Eq, Structural)]
pub enum TripleDelim {
    Double,
    Single,
}

/// The quote byte a triple delimiter repeats.
pub open spec fn triple_byte(d: TripleDelim) -> u8 {
    match d {
        TripleDelim::Double => '"' as u8,
        TripleDelim::Single => '\'' as u8,
    }
}

/// The delimiter a quote byte stands for.
pub open spec fn delim_of_byte(q: u8) -> TripleDelim {
    if q == '"' as u8 {
        TripleDelim::Double
    } else {
        TripleDelim::Single
    }
}

impl TripleDelim {
    /// The quote byte this delimiter repeats three times.
    pub fn quote_byte(self) -> (b: u8)
        ensures
            b == triple_byte(self),
    {
        match self {
            TripleDelim::Double => '"' as u8,
            TripleDelim::Single => '\'' as u8,
        }
    }

    /// The byte length of the delimiter.
    pub fn len(self) -> (n: usize)
        ensures
            n == 3,
    {
        3
    }
}

/// Carried state for the Python-like family: the triple-quote delimiter the
/// file is currently inside, if any.
#[derive(Debug, Clone, Copy, PartialEq, Eq, Structural)]
pub struct PythonState {
    pub in_triple: Option<TripleDelim>,
}

impl PythonState {
    /// A fresh state: not inside a triple-quoted block.
    pub fn new() -> (s: Self)
        ensures
            s.in_triple is None,
    {
        Self { in_triple: None }
    }
}

/// The verdict and new carried state for one line under the Python-like
/// rules.  A blank line is `(false, false)` and leaves the state untouched.
/// Inside a triple-quoted block the line is comment up to the last closing
/// delimiter, and whatever follows the close is scanned for code and a `#`
/// comment; without a close the whole line is comment.  Outside, the first
/// triple-quote start outside string literals opens a block: the text before
/// it is scanned normally, and a same-line close lets code resume after it.
/// With no triple quote at all, the line gets the bare `#` scan.
pub open spec fn classify_python_spec(bytes: Seq<u8>, st: Option<TripleDelim>) -> (
    (bool, bool),
    Option<TripleDelim>,
) {
    if is_blank(bytes) {
        ((false, false), st)
    } else {
        match st {
            Some(d) => {
                match rfind_plain(bytes, triple_of(triple_byte(d))) {
                    Some(e) => {
                        let tail = bytes.subrange(e + 3, bytes.len() as int);
                        ((hash_scan(tail).0, true), None)
                    },
                    None => ((false, true), st),
                }
            },
            None => {
                match find_triple(bytes) {
                    Some(hit) => {
                        let d = delim_of_byte(hit.1);
                        let before = bytes.subrange(0, hit.0);
                        let after = bytes.subrange(hit.0 + 3, bytes.len() as int);
                        match find_plain(after, triple_of(hit.1)) {
                            Some(e) => {
                                let tail = after.subrange(e + 3, after.len() as int);
                                ((hash_scan(before).0 || hash_scan(tail).0, true), None)
                            },
                            None => ((hash_scan(before).0, true), Some(d)),
                        }
                    },
                    None => (hash_scan(bytes), st),
                }
            },
        }
    }
}

/// The bare hash-style scan over part of a line: code and comment flags with
/// quoted string literals honored and `#` starting a comment.
pub(crate) fn scan_for_hash_comment_outside_strings(bytes: &[u8]) -> (r: (bool, bool))
    ensures
        r == hash_scan(bytes@),
{
    let (c, m, _ib) = scan_part(bytes, false, LineComment::Hash, None, StringRules::CStyle);
    (c, m)
}

/// The first triple-quote start outside string literals, with its delimiter.
pub(crate) fn find_triple_start_outside_strings(bytes: &[u8]) -> (r: Option<(usize, TripleDelim)>)
    ensures
        match r {
            Some(hit) => find_triple(bytes@) == Some((hit.0 as int, triple_byte(hit.1)))
                && matches_at(bytes@, hit.0 as int, triple_of(triple_byte(hit.1))),
            None => find_triple(bytes@) is None,
        },
{
    let n = bytes.len();
    let mut i: usize = 0;
    let mut in_single = false;
    let mut in_double = false;
    while i < n
        invariant
            i <= n,
            n == bytes@.len(),
            !(in_single && in_double),
            find_triple_at(bytes@, 0, QuoteMode::Outside) == find_triple_at(
                bytes@,
                i as int,
                crate::scan::quote_mode(in_single, in_double),
            ),
        decreases n - i,
    {
        let c = bytes[i];
        if in_single {
            if c == '\\' as u8 {
                proof {
                    assert(skip2(bytes@, i as int) == if i + 2 <= n { i + 2 } else { n as int });
                }
                i = if n - i >= 2 { i + 2 } else { n };
            } else {
                if c == '\'' as u8 {
                    in_single = false;
                }
                i += 1;
            }
        } else if in_double {
            if c == '\\' as u8 {
                proof {
                    assert(skip2(bytes@, i as int) == if i + 2 <= n { i + 2 } else { n as int });
                }
                i = if n - i >= 2 { i + 2 } else { n };
            } else {
                if c == '"' as u8 {
                    in_double = false;
                }
                i += 1;
            }
        } else {
            if match3(bytes, i, '"' as u8, '"' as u8, '"' as u8) {
                return Some((i, TripleDelim::Double));
            } else if match3(bytes, i, '\'' as u8, '\'' as u8, '\'' as u8) {
                return Some((i, TripleDelim::Single));
            } else if c == '\'' as u8 {
                in_single = true;
                i += 1;
            } else if c == '"' as u8 {
                in_double = true;
                i += 1;
            } else {
                i += 1;
            }
        }
    }
    None
}

/// Python-like rules: `#` line comments with quoted strings honored, and
/// triple-quoted blocks (`"""` or `'''`) counted as comment, carrying their
/// open state across lines.
pub fn classify_line_python_like(line: &str, state: &mut PythonState) -> (r: (bool, bool))
    ensures
        ({
            let (v, st) = classify_python_spec(line.spec_bytes(), old(state).in_triple);
            r == v && final(state).in_triple == st
        }),
{
    let bytes = line.as_bytes();
    let n = bytes.len();
    if is_blank_line(bytes) {
        return (false, false);
    }
    match state.in_triple {
        Some(d) => {
            let q = d.quote_byte();
            match rfind3(bytes, q, q, q) {
                Some(e) => {
                    state.in_triple = None;
                    proof {
                        assert(seq![q, q, q].len() == 3);
                        assert(e + 3 <= n);
                    }
                    let tail = &bytes[e + 3..n];
                    let (c2, _m2) = scan_for_hash_comment_outside_strings(tail);
                    (c2, true)
                },
                None => (false, true),
            }
        },
        None => {
            match find_triple_start_outside_strings(bytes) {
                Some((idx, d)) => {
                    let q = d.quote_byte();
                    proof {
                        assert(triple_of(triple_byte(d)).len() == 3);
                        assert(idx + 3 <= n);
                    }
                    let before = &bytes[0..idx];
                    let (cb, _mb) = scan_for_hash_comment_outside_strings(before);
                    let after = &bytes[idx + 3..n];
                    match find3(after, q, q, q) {
                        Some(e) => {
                            let m = after.len();
                            proof {
                                assert(seq![q, q, q].len() == 3);
                                assert(e + 3 <= m);
                            }
                            let tail = &after[e + 3..m];
                            let (c2, _m2) = scan_for_hash_comment_outside_strings(tail);
                            (cb || c2, true)
                        },
                        None => {
                            state.in_triple = Some(d);
                            (cb, true)
                        },
                    }
                },
                None => scan_for_hash_comment_outside_strings(bytes),
            }
        },
    }
}

/// Carried state for the Lua-like family.
#[derive(Debug, Clone, Copy, PartialEq, Eq, Structural)]
pub struct LuaState {
    pub in_long_comment: bool,
}

impl LuaState {
    /// A fresh state: not inside a long comment.
    pub fn new() -> (s: Self)
        ensures
            !s.in_long_comment,
    {
        Self { in_long_comment: false }
    }
}

/// The long-comment opening delimiter of the Lua-like family.
pub open spec fn long_open() -> Seq<u8> {
    seq!['-' as u8, '-' as u8, '[' as u8, '[' as u8]
}

/// The long-comment closing delimiter of the Lua-like family.
pub open spec fn long_close() -> Seq<u8> {
    seq![']' as u8, ']' as u8]
}

/// The verdict and new carried state for one line under the Lua-like rules.
/// A blank line is `(false, false)` and leaves the state untouched.  Inside a
/// long comment the line is comment up to the first `]]`, and the remainder
/// is classified over as a fresh line, so code can resume after the close.
/// Outside, the first `--[[` outside string literals opens a long comment:
/// the text before it gets the plain `--` line-comment scan, and a same-line
/// `]]` lets the remainder be classified over as a fresh line.  With no long
/// comment involved, the line gets the plain `--` scan.
pub open spec fn classify_lua_spec(bytes: Seq<u8>, in_long: bool) -> ((bool, bool), bool)
    decreases bytes.len(),
    via classify_lua_spec_decreases
{
    if is_blank(bytes) {
        ((false, false), in_long)
    } else if in_long {
        match find_plain(bytes, long_close()) {
            Some(pos) => {
                let rest = bytes.subrange(pos + 2, bytes.len() as int);
                let r = classify_lua_spec(rest, false);
                ((r.0.0, true), r.1)
            },
            None => ((false, true), true),
        }
    } else {
        match find_outside(bytes, long_open()) {
            Some(idx) => {
                let before = bytes.subrange(0, idx);
                let after = bytes.subrange(idx + 4, bytes.len() as int);
                match find_outside(after, long_close()) {
                    Some(e) => {
                        let rest = after.subrange(e + 2, after.len() as int);
                        let r = classify_lua_spec(rest, false);
                        ((dash_scan(before).0 || r.0.0, true), r.1)
                    },
                    None => ((dash_scan(before).0, true), true),
                }
            },
            None => (dash_scan(bytes), false),
        }
    }
}

#[via_fn]
proof fn classify_lua_spec_decreases(bytes: Seq<u8>, in_long: bool) {
    if !is_blank(bytes) {
        if in_long {
            match find_plain(bytes, long_close()) {
                Some(pos) => {
                    lemma_find_at_bounds(bytes, long_close(), 0, pos);
                },
                None => {},
            }
        } else {
            match find_outside(bytes, long_open()) {
                Some(idx) => {
                    lemma_find_outside_at_bounds(bytes, long_open(), 0, QuoteMode::Outside, idx);
                    let after = bytes.subrange(idx + 4, bytes.len() as int);
                    match find_outside(after, long_close()) {
                        Some(e) => {
                            lemma_find_outside_at_bounds(
                                after,
                                long_close(),
                                0,
                                QuoteMode::Outside,
                                e,
                            );
                        },
                        None => {},
                    }
                },
                None => {},
            }
        }
    }
}

/// Every long-comment opener on the line, as the engine finds them outside
/// string literals in turn, has a matching close on the same line.
pub open spec fn lua_opens_all_closed(bytes: Seq<u8>) -> bool
    decreases bytes.len(),
    via lua_opens_all_closed_decreases
{
    match find_outside(bytes, long_open()) {
        Some(idx) => {
            let after = bytes.subrange(idx + 4, bytes.len() as int);
            match find_outside(after, long_close()) {
                Some(e) => lua_opens_all_closed(after.subrange(e + 2, after.len() as int)),
                None => false,
            }
        },
        None => true,
    }
}

#[via_fn]
proof fn lua_opens_all_closed_decreases(bytes: Seq<u8>) {
    match find_outside(bytes, long_open()) {
        Some(idx) => {
            lemma_find_outside_at_bounds(bytes, long_open(), 0, QuoteMode::Outside, idx);
            let after = bytes.subrange(idx + 4, bytes.len() as int);
            match find_outside(after, long_close()) {
                Some(e) => {
                    lemma_find_outside_at_bounds(after, long_close(), 0, QuoteMode::Outside, e);
                },
                None => {},
            }
        },
        None => {},
    }
}

/// The plain `--` line-comment scan over part of a line, with quoted string
/// literals honored.
pub(crate) fn classify_line_lua_line_comment(bytes: &[u8]) -> (r: (bool, bool))
    ensures
        r == dash_scan(bytes@),
{
    let (c, m, _ib) = scan_part(bytes, false, LineComment::DoubleDash, None, StringRules::CStyle);
    (c, m)
}

/// Lua-like rules: `--` line comments, `--[[ ]]` long comments carried
/// across lines, and quoted string literals honored outside comments.  The
/// remainder after a closed long comment is classified over as a fresh line,
/// as a loop over strictly shrinking suffixes.
pub fn classify_line_lua_like(line: &str, state: &mut LuaState) -> (r: (bool, bool))
    ensures
        ({
            let (v, st) = classify_lua_spec(line.spec_bytes(), old(state).in_long_comment);
            r == v && final(state).in_long_comment == st
        }),
{
    let bytes = line.as_bytes();
    let ghost whole = line.spec_bytes();
    let ghost init_long = state.in_long_comment;
    let mut cur: &[u8] = bytes;
    let mut in_long = state.in_long_comment;
    let mut acc_code = false;
    let mut acc_comment = false;
    let mut out_code = false;
    let mut out_comment = false;
    let mut out_state = false;
    loop
        invariant_except_break
            ({
                let r = classify_lua_spec(cur@, in_long);
                classify_lua_spec(whole, init_long) == ((acc_code || r.0.0, acc_comment || r.0.1), r.1)
            }),
        ensures
            ((out_code, out_comment), out_state) == classify_lua_spec(whole, init_long),
        decreases cur@.len(),
    {
        if is_blank_line(cur) {
            out_code = acc_code;
            out_comment = acc_comment;
            out_state = in_long;
            break;
        }
        if in_long {
            match find2(cur, ']' as u8, ']' as u8) {
                Some(pos) => {
                    let n2 = cur.len();
                    proof {
                        assert(seq![']' as u8, ']' as u8].len() == 2);
                        assert(pos + 2 <= n2);
                    }
                    acc_comment = true;
                    in_long = false;
                    cur = &cur[pos + 2..n2];
                },
                None => {
                    out_code = acc_code;
                    out_comment = true;
                    out_state = true;
                    break;
                },
            }
        } else {
            match find_outside4(cur, '-' as u8, '-' as u8, '[' as u8, '[' as u8) {
                Some(idx) => {
                    let n2 = cur.len();
                    proof {
                        assert(seq!['-' as u8, '-' as u8, '[' as u8, '[' as u8].len() == 4);
                        assert(idx + 4 <= n2);
                    }
                    let before = &cur[0..idx];
                    let (cb, _mb) = classify_line_lua_line_comment(before);
                    if cb {
                        acc_code = true;
                    }
                    acc_comment = true;
                    let after = &cur[idx + 4..n2];
                    match find_outside2(after, ']' as u8, ']' as u8) {
                        Some(e) => {
                            let m = after.len();
                            proof {
                                assert(seq![']' as u8, ']' as u8].len() == 2);
                                assert(e + 2 <= m);
                            }
                            in_long = false;
                            cur = &after[e + 2..m];
                        },
                        None => {
                            out_code = acc_code;
                            out_comment = true;
                            out_state = true;
                            break;
                        },
                    }
                },
                None => {
                    let (dc, dm) = classify_line_lua_line_comment(cur);
                    out_code = acc_code || dc;
                    out_comment = acc_comment || dm;
                    out_state = false;
                    break;
                },
            }
        }
    }
    state.in_long_comment = out_state;
    (out_code, out_comment)
}

/// A `REM` remark marker stands at position `j`: the three letters in either
/// case, followed by white space or the end of the line.
pub open spec fn is_rem_at(bytes: Seq<u8>, j: int) -> bool {
    &&& 0 <= j
    &&& j + 3 <= bytes.len()
    &&& (bytes[j] == 'r' as u8 || bytes[j] == 'R' as u8)
    &&& (bytes[j + 1] == 'e' as u8 || bytes[j + 1] == 'E' as u8)
    &&& (bytes[j + 2] == 'm' as u8 || bytes[j + 2] == 'M' as u8)
    &&& (j + 3 == bytes.len() || blank_step(bytes, j + 3) != 0)
}

/// The verdict for one line under the batch/INI-like rules: a line whose
/// first content after leading white space is `::` or a `REM` word is wholly
/// comment; a blank line is `(false, false)`; anything else is code.  There
/// is no carried state, no block form, and no string awareness.
pub open spec fn classify_batch_spec(bytes: Seq<u8>) -> (bool, bool) {
    if is_blank(bytes) {
        (false, false)
    } else {
        let j = ws_run_end(bytes, 0);
        if matches_at(bytes, j, seq![':' as u8, ':' as u8]) || is_rem_at(bytes, j) {
            (false, true)
        } else {
            (true, false)
        }
    }
}

/// Batch/INI-like rules: `REM` (either case) and `::` as line-only comment
/// markers at the start of the line; no carried state.
pub fn classify_line_batch_like(line: &str) -> (r: (bool, bool))
    ensures
        r == classify_batch_spec(line.spec_bytes()),
{
    let bytes = line.as_bytes();
    let n = bytes.len();
    let j = skip_blank(bytes);
    if j == n {
        proof {
            assert(is_blank(bytes@));
        }
        return (false, false);
    }
    proof {
        assert(!is_blank(bytes@));
    }
    if match2(bytes, j, ':' as u8, ':' as u8) {
        return (false, true);
    }
    let rem = n - j >= 3 && (bytes[j] == 'r' as u8 || bytes[j] == 'R' as u8) && (bytes[j + 1]
        == 'e' as u8 || bytes[j + 1] == 'E' as u8) && (bytes[j + 2] == 'm' as u8 || bytes[j + 2]
        == 'M' as u8) && (j + 3 == n || ws_width_at(bytes, j + 3) != 0);
    if rem {
        proof {
            assert(is_rem_at(bytes@, j as int));
        }
        (false, true)
    } else {
        proof {
            assert(!is_rem_at(bytes@, j as int));
        }
        (true, false)
    }
}

} // verus!

//! Folding per-line verdicts into a per-file tally.
//!
//! The caller splits a file into physical lines; each line is either counted
//! as blank (when trimming it would leave nothing) or classified by the
//! family engine, adding one to the comment count when the line holds
//! comment text and one to the code count when it holds code — or when it
//! holds neither, so that no line is ever lost from the tally.

use vstd::prelude::*;

use crate::comment_parser::{
    classify_line_c_like, classify_line_css_like, classify_line_lua_like,
    classify_line_python_like, classify_line_xml_like, classify_lua_spec, classify_python_spec,
    LuaState, ParseState, PythonState, TripleDelim,
};
use crate::engine::{classify_spec, params_of, BlockComment, LineComment, StringRules};
use crate::model::{CodeFileData, ParserKind};
use crate::scan::{is_blank, is_blank_line};
use vstd::utf8::encode_utf8;

verus! {

/// A line of text is blank when its UTF-8 form is one run of Unicode white
/// space, so that trimming the line would leave nothing.
pub open spec fn is_blank_chars(l: Seq<char>) -> bool {
    is_blank(encode_utf8(l))
}

/// The tally of a sequence of lines: counts of blank, comment, and code
/// lines, and the carried state left when the lines are exhausted.  A blank
/// line counts as blank and leaves the state untouched; any other line is
/// classified by `step`, counting toward comment when it holds comment text
/// and toward code when it holds code or neither flag.
pub open spec fn tally_fold<St>(
    lines: Seq<Seq<char>>,
    init: St,
    step: spec_fn(Seq<char>, St) -> ((bool, bool), St),
) -> (nat, nat, nat, St)
    decreases lines.len(),
{
    if lines.len() == 0 {
        (0nat, 0nat, 0nat, init)
    } else {
        let prev = tally_fold(lines.drop_last(), init, step);
        let l = lines.last();
        if is_blank_chars(l) {
            ((prev.0 + 1) as nat, prev.1, prev.2, prev.3)
        } else {
            let v = step(l, prev.3).0;
            let st2 = step(l, prev.3).1;
            (
                prev.0,
                if v.1 {
                    (prev.1 + 1) as nat
                } else {
                    prev.1
                },
                if v.0 || !v.1 {
                    (prev.2 + 1) as nat
                } else {
                    prev.2
                },
                st2,
            )
        }
    }
}

/// The verdict of each line in turn, with the carried state threaded through
/// the fold: blank lines yield `(false, false)`.
pub open spec fn verdict_seq<St>(
    lines: Seq<Seq<char>>,
    init: St,
    step: spec_fn(Seq<char>, St) -> ((bool, bool), St),
) -> Seq<(bool, bool)>
    decreases lines.len(),
{
    if lines.len() == 0 {
        Seq::empty()
    } else {
        let st = tally_fold(lines.drop_last(), init, step).3;
        let l = lines.last();
        let v = if is_blank_chars(l) {
            (false, false)
        } else {
            step(l, st).0
        };
        verdict_seq(lines.drop_last(), init, step).push(v)
    }
}

/// How many lines hold both code and comment text: such a mixed line counts
/// toward both the comment and the code tally.
pub open spec fn mixed_count<St>(
    lines: Seq<Seq<char>>,
    init: St,
    step: spec_fn(Seq<char>, St) -> ((bool, bool), St),
) -> nat
    decreases lines.len(),
{
    if lines.len() == 0 {
        0nat
    } else {
        let prev = mixed_count(lines.drop_last(), init, step);
        let st = tally_fold(lines.drop_last(), init, step).3;
        let l = lines.last();
        if !is_blank_chars(l) && step(l, st).0.0 && step(l, st).0.1 {
            (prev + 1) as nat
        } else {
            prev
        }
    }
}

/// No count of the tally can exceed the number of lines.
pub proof fn lemma_tally_fold_bounds<St>(
    lines: Seq<Seq<char>>,
    init: St,
    step: spec_fn(Seq<char>, St) -> ((bool, bool), St),
)
    ensures
        tally_fold(lines, init, step).0 <= lines.len(),
        tally_fold(lines, init, step).1 <= lines.len(),
        tally_fold(lines, init, step).2 <= lines.len(),
    decreases lines.len(),
{
    if lines.len() > 0 {
        lemma_tally_fold_bounds(lines.drop_last(), init, step);
    }
}

/// One line under the C-like rules, as a step of the fold.
pub open spec fn step_c_like(l: Seq<char>, st: bool) -> ((bool, bool), bool) {
    let r = classify_spec(
        encode_utf8(l),
        st,
        params_of(LineComment::DoubleSlash, Some(BlockComment::SlashStar), StringRules::CStyle),
    );
    ((r.0, r.1), r.2)
}

/// One line under the XML-like rules, as a step of the fold.
pub open spec fn step_xml_like(l: Seq<char>, st: bool) -> ((bool, bool), bool) {
    let r = classify_spec(
        encode_utf8(l),
        st,
        params_of(LineComment::NoMarker, Some(BlockComment::Xml), StringRules::NoStrings),
    );
    ((r.0, r.1), r.2)
}

/// One line under the CSS-like rules, as a step of the fold.
pub open spec fn step_css_like(l: Seq<char>, st: bool) -> ((bool, bool), bool) {
    let r = classify_spec(
        encode_utf8(l),
        st,
        params_of(LineComment::NoMarker, Some(BlockComment::SlashStar), StringRules::NoStrings),
    );
    ((r.0, r.1), r.2)
}

/// One line under the Python-like rules, as a step of the fold.
pub open spec fn step_python_like(l: Seq<char>, st: Option<TripleDelim>) -> (
    (bool, bool),
    Option<TripleDelim>,
) {
    classify_python_spec(encode_utf8(l), st)
}

/// One line under the Lua-like rules, as a step of the fold.
pub open spec fn step_lua_like(l: Seq<char>, st: bool) -> ((bool, bool), bool) {
    classify_lua_spec(encode_utf8(l), st)
}

/// The tally of a whole file under the C-like rules, from a fresh state.
pub open spec fn tally_c_like(lines: Seq<Seq<char>>) -> (nat, nat, nat, bool) {
    tally_fold(lines, false, |l: Seq<char>, s: bool| step_c_like(l, s))
}

/// The tally of a whole file under the XML-like rules, from a fresh state.
pub open spec fn tally_xml_like(lines: Seq<Seq<char>>) -> (nat, nat, nat, bool) {
    tally_fold(lines, false, |l: Seq<char>, s: bool| step_xml_like(l, s))
}

/// The tally of a whole file under the CSS-like rules, from a fresh state.
pub open spec fn tally_css_like(lines: Seq<Seq<char>>) -> (nat, nat, nat, bool) {
    tally_fold(lines, false, |l: Seq<char>, s: bool| step_css_like(l, s))
}

/// The tally of a whole file under the Python-like rules, from a fresh state.
pub open spec fn tally_python_like(lines: Seq<Seq<char>>) -> (nat, nat, nat, Option<TripleDelim>) {
    tally_fold(lines, None, |l: Seq<char>, s: Option<TripleDelim>| step_python_like(l, s))
}

/// The tally of a whole file under the Lua-like rules, from a fresh state.
pub open spec fn tally_lua_like(lines: Seq<Seq<char>>) -> (nat, nat, nat, bool) {
    tally_fold(lines, false, |l: Seq<char>, s: bool| step_lua_like(l, s))
}

/// What every finished tally promises about its counts.
pub open spec fn tally_matches(d: CodeFileData, pat: Seq<char>, n: nat, t: (nat, nat, nat)) -> bool {
    &&& d.spec_patten() == pat
    &&& d.spec_lines() as nat == n
    &&& d.spec_blank() as nat == t.0
    &&& d.spec_comment() as nat == t.1
    &&& d.spec_code() as nat == t.2
}

/// Tally a whole file under the C-like rules.
pub fn tally_code_file(lines: &Vec<String>, path: String, patten: String) -> (d: CodeFileData)
    ensures
        ({
            let t = tally_c_like(lines.deep_view());
            tally_matches(d, patten@, lines@.len() as nat, (t.0, t.1, t.2))
        }),
{
    let ghost pat = patten@;
    let ghost lseq = lines.deep_view();
    let nl = lines.len();
    let mut d = CodeFileData::new(path, patten);
    d.set_lines(nl as u64);
    let mut st = ParseState::new();
    let mut k: usize = 0;
    while k < nl
        invariant
            k <= nl,
            nl == lines@.len(),
            lseq == lines.deep_view(),
            d.spec_patten() == pat,
            d.spec_lines() == nl as u64,
            ({
                let t = tally_c_like(lseq.take(k as int));
                d.spec_blank() as nat == t.0 && d.spec_comment() as nat == t.1 && d.spec_code()
                    as nat == t.2 && st.in_block_comment == t.3
            }),
        decreases nl - k,
    {
        proof {
            assert(lseq.take(k + 1).drop_last() =~= lseq.take(k as int));
            assert(lseq.take(k + 1).last() == lseq[k as int]);
            assert(lseq[k as int] == lines@[k as int]@);
            lemma_tally_fold_bounds(
                lseq.take(k as int),
                false,
                |l: Seq<char>, s: bool| step_c_like(l, s),
            );
        }
        let line = &lines[k];
        if is_blank_line(line.as_str().as_bytes()) {
            d.add_blank();
        } else {
            let (c, m) = classify_line_c_like(line.as_str(), &mut st);
            if m {
                d.add_comment();
            }
            if c {
                d.add_code();
            }
            if !c && !m {
                d.add_code();
            }
        }
        k += 1;
    }
    proof {
        assert(lseq.take(nl as int) =~= lseq);
    }
    d
}

/// Tally a whole file under the XML-like rules.
pub fn tally_xml_file(lines: &Vec<String>, path: String, patten: String) -> (d: CodeFileData)
    ensures
        ({
            let t = tally_xml_like(lines.deep_view());
            tally_matches(d, patten@, lines@.len() as nat, (t.0, t.1, t.2))
        }),
{
    let ghost pat = patten@;
    let ghost lseq = lines.deep_view();
    let nl = lines.len();
    let mut d = CodeFileData::new(path, patten);
    d.set_lines(nl as u64);
    let mut st = ParseState::new();
    let mut k: usize = 0;
    while k < nl
        invariant
            k <= nl,
            nl == lines@.len(),
            lseq == lines.deep_view(),
            d.spec_patten() == pat,
            d.spec_lines() == nl as u64,
            ({
                let t = tally_xml_like(lseq.take(k as int));
                d.spec_blank() as nat == t.0 && d.spec_comment() as nat == t.1 && d.spec_code()
                    as nat == t.2 && st.in_block_comment == t.3
            }),
        decreases nl - k,
    {
        proof {
            assert(lseq.take(k + 1).drop_last() =~= lseq.take(k as int));
            assert(lseq.take(k + 1).last() == lseq[k as int]);
            assert(lseq[k as int] == lines@[k as int]@);
            lemma_tally_fold_bounds(
                lseq.take(k as int),
                false,
                |l: Seq<char>, s: bool| step_xml_like(l, s),
            );
        }
        let line = &lines[k];
        if is_blank_line(line.as_str().as_bytes()) {
            d.add_blank();
        } else {
            let (c, m) = classify_line_xml_like(line.as_str(), &mut st);
            if m {
                d.add_comment();
            }
            if c {
                d.add_code();
            }
            if !c && !m {
                d.add_code();
            }
        }
        k += 1;
    }
    proof {
        assert(lseq.take(nl as int) =~= lseq);
    }
    d
}

/// Tally a whole file under the CSS-like rules.
pub fn tally_css_file(lines: &Vec<String>, path: String, patten: String) -> (d: CodeFileData)
    ensures
        ({
            let t = tally_css_like(lines.deep_view());
            tally_matches(d, patten@, lines@.len() as nat, (t.0, t.1, t.2))
        }),
{
    let ghost pat = patten@;
    let ghost lseq = lines.deep_view();
    let nl = lines.len();
    let mut d = CodeFileData::new(path, patten);
    d.set_lines(nl as u64);
    let mut st = ParseState::new();
    let mut k: usize = 0;
    while k < nl
        invariant
            k <= nl,
            nl == lines@.len(),
            lseq == lines.deep_view(),
            d.spec_patten() == pat,
            d.spec_lines() == nl as u64,
            ({
                let t = tally_css_like(lseq.take(k as int));
                d.spec_blank() as nat == t.0 && d.spec_comment() as nat == t.1 && d.spec_code()
                    as nat == t.2 && st.in_block_comment == t.3
            }),
        decreases nl - k,
    {
        proof {
            assert(lseq.take(k + 1).drop_last() =~= lseq.take(k as int));
            assert(lseq.take(k + 1).last() == lseq[k as int]);
            assert(lseq[k as int] == lines@[k as int]@);
            lemma_tally_fold_bounds(
                lseq.take(k as int),
                false,
                |l: Seq<char>, s: bool| step_css_like(l, s),
            );
        }
        let line = &lines[k];
        if is_blank_line(line.as_str().as_bytes()) {
            d.add_blank();
        } else {
            let (c, m) = classify_line_css_like(line.as_str(), &mut st);
            if m {
                d.add_comment();
            }
            if c {
                d.add_code();
            }
            if !c && !m {
                d.add_code();
            }
        }
        k += 1;
    }
    proof {
        assert(lseq.take(nl as int) =~= lseq);
    }
    d
}

/// Tally a whole file under the Python-like rules.
pub fn tally_python_file(lines: &Vec<String>, path: String, patten: String) -> (d: CodeFileData)
    ensures
        ({
            let t = tally_python_like(lines.deep_view());
            tally_matches(d, patten@, lines@.len() as nat, (t.0, t.1, t.2))
        }),
{
    let ghost pat = patten@;
    let ghost lseq = lines.deep_view();
    let nl = lines.len();
    let mut d = CodeFileData::new(path, patten);
    d.set_lines(nl as u64);
    let mut st = PythonState::new();
    let mut k: usize = 0;
    while k < nl
        invariant
            k <= nl,
            nl == lines@.len(),
            lseq == lines.deep_view(),
            d.spec_patten() == pat,
            d.spec_lines() == nl as u64,
            ({
                let t = tally_python_like(lseq.take(k as int));
                d.spec_blank() as nat == t.0 && d.spec_comment() as nat == t.1 && d.spec_code()
                    as nat == t.2 && st.in_triple == t.3
            }),
        decreases nl - k,
    {
        proof {
            assert(lseq.take(k + 1).drop_last() =~= lseq.take(k as int));
            assert(lseq.take(k + 1).last() == lseq[k as int]);
            assert(lseq[k as int] == lines@[k as int]@);
            lemma_tally_fold_bounds(
                lseq.take(k as int),
                None::<TripleDelim>,
                |l: Seq<char>, s: Option<TripleDelim>| step_python_like(l, s),
            );
        }
        let line = &lines[k];
        if is_blank_line(line.as_str().as_bytes()) {
            d.add_blank();
        } else {
            let (c, m) = classify_line_python_like(line.as_str(), &mut st);
            if m {
                d.add_comment();
            }
            if c {
                d.add_code();
            }
            if !c && !m {
                d.add_code();
            }
        }
        k += 1;
    }
    proof {
        assert(lseq.take(nl as int) =~= lseq);
    }
    d
}

/// Tally a whole file under the Lua-like rules.
pub fn tally_lua_file(lines: &Vec<String>, path: String, patten: String) -> (d: CodeFileData)
    ensures
        ({
            let t = tally_lua_like(lines.deep_view());
            tally_matches(d, patten@, lines@.len() as nat, (t.0, t.1, t.2))
        }),
{
    let ghost pat = patten@;
    let ghost lseq = lines.deep_view();
    let nl = lines.len();
    let mut d = CodeFileData::new(path, patten);
    d.set_lines(nl as u64);
    let mut st = LuaState::new();
    let mut k: usize = 0;
    while k < nl
        invariant
            k <= nl,
            nl == lines@.len(),
            lseq == lines.deep_view(),
            d.spec_patten() == pat,
            d.spec_lines() == nl as u64,
            ({
                let t = tally_lua_like(lseq.take(k as int));
                d.spec_blank() as nat == t.0 && d.spec_comment() as nat == t.1 && d.spec_code()
                    as nat == t.2 && st.in_long_comment == t.3
            }),
        decreases nl - k,
    {
        proof {
            assert(lseq.take(k + 1).drop_last() =~= lseq.take(k as int));
            assert(lseq.take(k + 1).last() == lseq[k as int]);
            assert(lseq[k as int] == lines@[k as int]@);
            lemma_tally_fold_bounds(
                lseq.take(k as int),
                false,
                |l: Seq<char>, s: bool| step_lua_like(l, s),
            );
        }
        let line = &lines[k];
        if is_blank_line(line.as_str().as_bytes()) {
            d.add_blank();
        } else {
            let (c, m) = classify_line_lua_like(line.as_str(), &mut st);
            if m {
                d.add_comment();
            }
            if c {
                d.add_code();
            }
            if !c && !m {
                d.add_code();
            }
        }
        k += 1;
    }
    proof {
        assert(lseq.take(nl as int) =~= lseq);
    }
    d
}

/// Tally a whole file with the family its kind selects.
pub fn tally_file(kind: ParserKind, lines: &Vec<String>, path: String, patten: String) -> (d:
    CodeFileData)
    ensures
        ({
            let t = match kind {
                ParserKind::CLike => tally_c_like(lines.deep_view()),
                ParserKind::Xml => tally_xml_like(lines.deep_view()),
                ParserKind::Css => tally_css_like(lines.deep_view()),
                ParserKind::Python => {
                    let t = tally_python_like(lines.deep_view());
                    (t.0, t.1, t.2, false)
                },
                ParserKind::Lua => tally_lua_like(lines.deep_view()),
            };
            tally_matches(d, patten@, lines@.len() as nat, (t.0, t.1, t.2))
        }),
{
    match kind {
        ParserKind::CLike => tally_code_file(lines, path, patten),
        ParserKind::Python => tally_python_file(lines, path, patten),
        ParserKind::Lua => tally_lua_file(lines, path, patten),
        ParserKind::Xml => tally_xml_file(lines, path, patten),
        ParserKind::Css => tally_css_file(lines, path, patten),
    }
}

} // verus!

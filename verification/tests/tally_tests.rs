use cloc::comment_parser::{classify_line_c_like, ParseState};
use cloc::model::{looks_binary, CodeFileData, ParserKind};
use cloc::tally::{tally_code_file, tally_file, tally_lua_file, tally_python_file};

fn lines_of(text: &[&str]) -> Vec<String> {
    text.iter().map(|s| String::from(*s)).collect()
}

#[test]
fn tally_c_like_counts_blank_comment_code_and_mixed() {
    let lines = lines_of(&[
        "// header",
        "",
        "fn main() {",
        "    let x = 1; /* mid */ let y = 2;",
        "    ",
        "}",
    ]);
    let d = tally_code_file(&lines, String::from("demo.rs"), String::from("rs"));
    assert_eq!(d.lines(), 6);
    assert_eq!(d.blank(), 2);
    assert_eq!(d.comment(), 2);
    assert_eq!(d.code(), 3);
    assert_eq!(d.patten(), "rs");
    // Every line is attributed: blank + comment + code equals the line
    // total plus the one mixed line counted in both tallies.
    assert_eq!(d.blank() + d.comment() + d.code(), d.lines() + 1);
}

#[test]
fn tally_counts_unicode_whitespace_line_as_blank() {
    let lines = lines_of(&["\u{b}", "x();", "\u{a0}\u{2028}"]);
    let d = tally_code_file(&lines, String::from("a.c"), String::from("c"));
    assert_eq!(d.lines(), 3);
    assert_eq!(d.blank(), 2);
    assert_eq!(d.comment(), 0);
    assert_eq!(d.code(), 1);
}

#[test]
fn tally_c_like_block_comment_spans_lines() {
    let lines = lines_of(&["/* start", "middle", "end */ let z=1;"]);
    let d = tally_code_file(&lines, String::from("a.c"), String::from("c"));
    assert_eq!(d.lines(), 3);
    assert_eq!(d.blank(), 0);
    assert_eq!(d.comment(), 3);
    assert_eq!(d.code(), 1);
}

#[test]
fn tally_python_triple_quote_block() {
    let lines = lines_of(&["\"\"\"doc", "inside", "end\"\"\" x = 1", "y = 2  # hi"]);
    let d = tally_python_file(&lines, String::from("a.py"), String::from("py"));
    assert_eq!(d.lines(), 4);
    assert_eq!(d.blank(), 0);
    assert_eq!(d.comment(), 4);
    assert_eq!(d.code(), 2);
}

#[test]
fn tally_lua_long_comment() {
    let lines = lines_of(&["--[[ start", "end ]] print(1)", "local x = 1"]);
    let d = tally_lua_file(&lines, String::from("a.lua"), String::from("lua"));
    assert_eq!(d.lines(), 3);
    assert_eq!(d.blank(), 0);
    assert_eq!(d.comment(), 2);
    assert_eq!(d.code(), 2);
}

#[test]
fn tally_file_dispatches_by_kind() {
    let lines = lines_of(&["<!-- note -->", "<a>hi</a>"]);
    let d = tally_file(ParserKind::Xml, &lines, String::from("a.html"), String::from("html"));
    assert_eq!(d.lines(), 2);
    assert_eq!(d.comment(), 1);
    assert_eq!(d.code(), 1);
    assert_eq!(d.blank(), 0);

    let css = lines_of(&["a{/*c*/color:red}"]);
    let d2 = tally_file(ParserKind::Css, &css, String::from("a.css"), String::from("css"));
    assert_eq!(d2.comment(), 1);
    assert_eq!(d2.code(), 1);
}

#[test]
fn reclassifying_same_file_reproduces_verdicts() {
    let text = [
        "let s = \"http://a//b\";",
        "/* open",
        "close */ x();",
        "",
        "// tail",
    ];
    let mut first: Vec<(bool, bool)> = Vec::new();
    let mut st = ParseState::new();
    for l in text.iter() {
        first.push(classify_line_c_like(l, &mut st));
    }
    let mut second: Vec<(bool, bool)> = Vec::new();
    let mut st2 = ParseState::new();
    for l in text.iter() {
        second.push(classify_line_c_like(l, &mut st2));
    }
    assert_eq!(first, second);
    assert_eq!(st.in_block_comment, st2.in_block_comment);
}

#[test]
fn code_file_data_accumulates() {
    let mut d = CodeFileData::new(String::from("p"), String::from("rs"));
    assert_eq!(d.blank(), 0);
    assert_eq!(d.comment(), 0);
    assert_eq!(d.code(), 0);
    d.add_blank();
    d.add_comment();
    d.add_code();
    d.add_code();
    d.set_lines(4);
    assert_eq!(d.blank(), 1);
    assert_eq!(d.comment(), 1);
    assert_eq!(d.code(), 2);
    assert_eq!(d.lines(), 4);
    assert_eq!(d.patten(), "rs");
}

#[test]
fn binary_sniff_finds_early_nul() {
    let buf: Vec<u8> = vec![104, 105, 0, 33];
    assert!(looks_binary(&buf));
    let text: Vec<u8> = vec![104, 105, 33];
    assert!(!looks_binary(&text));
    let empty: Vec<u8> = Vec::new();
    assert!(!looks_binary(&empty));
}

#[test]
fn binary_sniff_ignores_late_nul() {
    let mut buf: Vec<u8> = Vec::new();
    let mut i = 0;
    while i < 9000 {
        buf.push(65);
        i += 1;
    }
    buf.push(0);
    assert!(!looks_binary(&buf));
}

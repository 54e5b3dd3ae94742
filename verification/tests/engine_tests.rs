use cloc::comment_parser::{
    classify_line_batch_like, classify_line_c_like, classify_line_css_like,
    classify_line_lua_like, classify_line_python_like, classify_line_sql_like,
    classify_line_xml_like, LuaState, ParseState, PythonState,
};

#[test]
fn verdict_combinations_all_occur() {
    // The two flags are independent: all four combinations are realized.
    let mut st = ParseState::new();
    assert_eq!(classify_line_c_like("", &mut st), (false, false));
    assert_eq!(classify_line_c_like("a", &mut st), (true, false));
    assert_eq!(classify_line_c_like("//", &mut st), (false, true));
    assert_eq!(classify_line_c_like("a //", &mut st), (true, true));
}

#[test]
fn blank_line_keeps_open_block_state() {
    let mut st = ParseState::new();
    let _ = classify_line_c_like("/* open", &mut st);
    assert!(st.in_block_comment);
    assert_eq!(classify_line_c_like("", &mut st), (false, false));
    assert!(st.in_block_comment);
    assert_eq!(classify_line_c_like("   \t ", &mut st), (false, false));
    assert!(st.in_block_comment);
}

#[test]
fn blank_line_keeps_open_triple_state() {
    let mut st = PythonState::new();
    let _ = classify_line_python_like("'''open", &mut st);
    assert!(st.in_triple.is_some());
    assert_eq!(classify_line_python_like("  ", &mut st), (false, false));
    assert!(st.in_triple.is_some());
}

#[test]
fn c_like_escaped_quote_stays_in_string() {
    let mut st = ParseState::new();
    let (code, comment) = classify_line_c_like("s = \"a\\\"b // c\";", &mut st);
    assert!(code);
    assert!(!comment);
}

#[test]
fn c_like_single_quoted_marker_is_inert() {
    let mut st = ParseState::new();
    let (code, comment) = classify_line_c_like("let s = '//';", &mut st);
    assert!(code);
    assert!(!comment);
}

#[test]
fn c_like_two_block_comments_one_line() {
    let mut st = ParseState::new();
    let (code, comment) = classify_line_c_like("a /* x */ b /* y */ c", &mut st);
    assert!(code);
    assert!(comment);
    assert!(!st.in_block_comment);
}

#[test]
fn c_like_block_reopens_after_close() {
    let mut st = ParseState::new();
    let (code, comment) = classify_line_c_like("/* x */ b /* y", &mut st);
    assert!(code);
    assert!(comment);
    assert!(st.in_block_comment);
}

#[test]
fn python_triple_open_and_close_same_line() {
    let mut st = PythonState::new();
    let (code, comment) = classify_line_python_like("\"\"\"doc\"\"\" x = 1", &mut st);
    assert!(code);
    assert!(comment);
    assert!(st.in_triple.is_none());
}

#[test]
fn python_triple_only_line_opens_and_closes() {
    let mut st = PythonState::new();
    let (code, comment) = classify_line_python_like("\"\"\"doc\"\"\"", &mut st);
    assert!(!code);
    assert!(comment);
    assert!(st.in_triple.is_none());
}

#[test]
fn python_single_triple_delim_matches_only_its_kind() {
    let mut st = PythonState::new();
    let _ = classify_line_python_like("'''open", &mut st);
    // A double triple quote does not close a single-quoted block.
    let (c, m) = classify_line_python_like("\"\"\"", &mut st);
    assert!(!c);
    assert!(m);
    assert!(st.in_triple.is_some());
    let (c2, m2) = classify_line_python_like("done'''", &mut st);
    assert!(!c2);
    assert!(m2);
    assert!(st.in_triple.is_none());
}

#[test]
fn lua_long_comment_across_lines() {
    let mut st = LuaState::new();
    let (c1, m1) = classify_line_lua_like("--[[ start", &mut st);
    assert!(!c1);
    assert!(m1);
    assert!(st.in_long_comment);

    let (c2, m2) = classify_line_lua_like("middle", &mut st);
    assert!(!c2);
    assert!(m2);
    assert!(st.in_long_comment);

    let (c3, m3) = classify_line_lua_like("end ]] print(1)", &mut st);
    assert!(c3);
    assert!(m3);
    assert!(!st.in_long_comment);
}

#[test]
fn lua_chained_long_comments_one_line() {
    let mut st = LuaState::new();
    let (code, comment) = classify_line_lua_like("--[[a]] x --[[b", &mut st);
    assert!(code);
    assert!(comment);
    assert!(st.in_long_comment);
}

#[test]
fn lua_string_hides_long_open() {
    let mut st = LuaState::new();
    let (code, comment) = classify_line_lua_like("local s = \"--[[ not\"", &mut st);
    assert!(code);
    assert!(!comment);
    assert!(!st.in_long_comment);
}

#[test]
fn xml_does_not_track_strings() {
    // Markup families do not honor quoted literals, so a comment opener
    // inside an attribute value still opens a block comment.
    let mut st = ParseState::new();
    let (code, comment) = classify_line_xml_like("<a href=\"<!--\">", &mut st);
    assert!(code);
    assert!(comment);
    assert!(st.in_block_comment);
}

#[test]
fn css_block_comment_across_lines() {
    let mut st = ParseState::new();
    let (c1, m1) = classify_line_css_like("/* start", &mut st);
    assert!(!c1);
    assert!(m1);
    assert!(st.in_block_comment);

    let (c2, m2) = classify_line_css_like("end */ a{}", &mut st);
    assert!(c2);
    assert!(m2);
    assert!(!st.in_block_comment);
}

#[test]
fn sql_double_quoted_marker_is_inert() {
    let mut st = ParseState::new();
    let (code, comment) = classify_line_sql_like("select \"--col\"", &mut st);
    assert!(code);
    assert!(!comment);
}

#[test]
fn unicode_whitespace_line_is_blank() {
    // Lines whose trim is empty are blank even when the white space is not
    // ASCII: vertical tab, no-break space, line separator, ideographic space.
    let mut st = ParseState::new();
    assert_eq!(classify_line_c_like("\u{b}", &mut st), (false, false));
    assert_eq!(classify_line_c_like("\u{a0}\u{2028}\u{3000} ", &mut st), (false, false));
    let mut py = PythonState::new();
    assert_eq!(classify_line_python_like("\u{b}", &mut py), (false, false));
    let mut lu = LuaState::new();
    assert_eq!(classify_line_lua_like("\u{b}", &mut lu), (false, false));
    assert_eq!(classify_line_batch_like("\u{85}\u{1680}"), (false, false));
}

#[test]
fn unicode_blank_line_keeps_carried_state() {
    let mut st = ParseState::new();
    let _ = classify_line_c_like("/* open", &mut st);
    assert!(st.in_block_comment);
    assert_eq!(classify_line_c_like("\u{a0}", &mut st), (false, false));
    assert!(st.in_block_comment);

    let mut py = PythonState::new();
    let _ = classify_line_python_like("\"\"\"open", &mut py);
    assert!(py.in_triple.is_some());
    assert_eq!(classify_line_python_like("\u{2029}", &mut py), (false, false));
    assert!(py.in_triple.is_some());

    let mut lu = LuaState::new();
    let _ = classify_line_lua_like("--[[ open", &mut lu);
    assert!(lu.in_long_comment);
    assert_eq!(classify_line_lua_like("\u{205f}", &mut lu), (false, false));
    assert!(lu.in_long_comment);
}

#[test]
fn non_whitespace_unicode_line_is_code() {
    // A zero-width space has no White_Space property: the line is not blank.
    let mut st = ParseState::new();
    assert_eq!(classify_line_c_like("\u{200b}", &mut st), (true, false));
}

#[test]
fn lua_all_opens_closed_leaves_state_closed() {
    let mut st = LuaState::new();
    let (code, comment) = classify_line_lua_like("--[[a]] x --[[b]] y", &mut st);
    assert!(code);
    assert!(comment);
    assert!(!st.in_long_comment);
}

#[test]
fn batch_leading_unicode_whitespace_before_marker() {
    assert_eq!(classify_line_batch_like("\u{a0}REM hi"), (false, true));
    assert_eq!(classify_line_batch_like("\u{a0}:: hi"), (false, true));
    assert_eq!(classify_line_batch_like("rem\u{a0}hi"), (false, true));
    assert_eq!(classify_line_batch_like("\u{a0}set X=1"), (true, false));
}

#[test]
fn batch_rem_needs_word_boundary() {
    assert_eq!(classify_line_batch_like("REMark"), (true, false));
    assert_eq!(classify_line_batch_like("rem"), (false, true));
    assert_eq!(classify_line_batch_like("Rem\thi"), (false, true));
    assert_eq!(classify_line_batch_like("::x"), (false, true));
    assert_eq!(classify_line_batch_like(""), (false, false));
    assert_eq!(classify_line_batch_like("  \t"), (false, false));
}

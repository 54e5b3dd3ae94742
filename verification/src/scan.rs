//! Byte-level scan primitives shared by every classifier family: whitespace
//! and blank-line tests, fixed-pattern matching at a position, and quote-aware
//! substring search that skips occurrences inside quoted string literals.

use vstd::prelude::*;

verus! {

/// The ASCII whitespace bytes the scan engine treats as non-code: space,
/// tab, line feed, form feed, carriage return.
pub open spec fn is_ws(b: u8) -> bool {
    b == 32 || b == 9 || b == 10 || b == 12 || b == 13
}

/// The byte width of the UTF-8 form of a Unicode white-space character
/// starting at position `i`, or 0 when none starts there.  The characters
/// with the White_Space property are tab through carriage return (vertical
/// tab included), space, next line, no-break space, ogham space mark, the
/// en quad through hair space range, the line and paragraph separators, the
/// narrow no-break space, the medium mathematical space, and the ideographic
/// space.
pub open spec fn blank_step(bytes: Seq<u8>, i: int) -> int {
    if i < 0 || i >= bytes.len() {
        0
    } else if is_ws(bytes[i]) || bytes[i] == 11 {
        1
    } else if i + 2 <= bytes.len() && bytes[i] == 0xc2 && (bytes[i + 1] == 0x85 || bytes[i + 1]
        == 0xa0) {
        2
    } else if i + 3 <= bytes.len() && bytes[i] == 0xe1 && bytes[i + 1] == 0x9a && bytes[i + 2]
        == 0x80 {
        3
    } else if i + 3 <= bytes.len() && bytes[i] == 0xe2 && bytes[i + 1] == 0x80 && (0x80 <= bytes[i
        + 2] <= 0x8a || bytes[i + 2] == 0xa8 || bytes[i + 2] == 0xa9 || bytes[i + 2] == 0xaf) {
        3
    } else if i + 3 <= bytes.len() && bytes[i] == 0xe2 && bytes[i + 1] == 0x81 && bytes[i + 2]
        == 0x9f {
        3
    } else if i + 3 <= bytes.len() && bytes[i] == 0xe3 && bytes[i + 1] == 0x80 && bytes[i + 2]
        == 0x80 {
        3
    } else {
        0
    }
}

/// The end of the run of white space starting at position `i`: white-space
/// characters are consumed one UTF-8 form at a time until a byte that starts
/// none.
pub open spec fn ws_run_end(bytes: Seq<u8>, i: int) -> int
    decreases bytes.len() - i,
{
    let w = blank_step(bytes, i);
    if w == 0 {
        i
    } else {
        ws_run_end(bytes, i + w)
    }
}

/// A line is blank when it is one run of Unicode white space, so that
/// trimming it would leave nothing (an empty line included).
pub open spec fn is_blank(bytes: Seq<u8>) -> bool {
    ws_run_end(bytes, 0) == bytes.len()
}

/// The fixed pattern `needle` occurs in `hay` starting at position `i`.
pub open spec fn matches_at(hay: Seq<u8>, i: int, needle: Seq<u8>) -> bool {
    &&& 0 <= i
    &&& i + needle.len() <= hay.len()
    &&& forall|k: int| 0 <= k < needle.len() ==> hay[i + k] == #[trigger] needle[k]
}

/// The position after a backslash escape: the escape consumes the following
/// byte unconditionally, clamped at the end of the line.
pub open spec fn skip2(bytes: Seq<u8>, i: int) -> int {
    if i + 2 <= bytes.len() {
        i + 2
    } else {
        bytes.len() as int
    }
}

/// Whether the byte is ASCII whitespace.
pub fn byte_is_ws(b: u8) -> (r: bool)
    ensures
        r == is_ws(b),
{
    b == 32 || b == 9 || b == 10 || b == 12 || b == 13
}

/// Whether the single byte `a` occurs at position `i`.
pub fn match1(bytes: &[u8], i: usize, a: u8) -> (r: bool)
    ensures
        r == matches_at(bytes@, i as int, seq![a]),
{
    if i < bytes.len() {
        let r = bytes[i] == a;
        proof {
            assert(seq![a][0] == a);
        }
        r
    } else {
        false
    }
}

/// Whether the two-byte pattern `[a, b]` occurs at position `i`.
pub fn match2(bytes: &[u8], i: usize, a: u8, b: u8) -> (r: bool)
    ensures
        r == matches_at(bytes@, i as int, seq![a, b]),
{
    let n = bytes.len();
    if i < n && n - i >= 2 {
        let r = bytes[i] == a && bytes[i + 1] == b;
        proof {
            assert(seq![a, b][0] == a);
            assert(seq![a, b][1] == b);
        }
        r
    } else {
        false
    }
}

/// Whether the three-byte pattern `[a, b, c]` occurs at position `i`.
pub fn match3(bytes: &[u8], i: usize, a: u8, b: u8, c: u8) -> (r: bool)
    ensures
        r == matches_at(bytes@, i as int, seq![a, b, c]),
{
    let n = bytes.len();
    if i < n && n - i >= 3 {
        let r = bytes[i] == a && bytes[i + 1] == b && bytes[i + 2] == c;
        proof {
            assert(seq![a, b, c][0] == a);
            assert(seq![a, b, c][1] == b);
            assert(seq![a, b, c][2] == c);
        }
        r
    } else {
        false
    }
}

/// Whether the four-byte pattern `[a, b, c, d]` occurs at position `i`.
pub fn match4(bytes: &[u8], i: usize, a: u8, b: u8, c: u8, d: u8) -> (r: bool)
    ensures
        r == matches_at(bytes@, i as int, seq![a, b, c, d]),
{
    let n = bytes.len();
    if i < n && n - i >= 4 {
        let r = bytes[i] == a && bytes[i + 1] == b && bytes[i + 2] == c && bytes[i + 3] == d;
        proof {
            assert(seq![a, b, c, d][0] == a);
            assert(seq![a, b, c, d][1] == b);
            assert(seq![a, b, c, d][2] == c);
            assert(seq![a, b, c, d][3] == d);
        }
        r
    } else {
        false
    }
}

/// The first occurrence of `needle` at or after position `i`, scanning every
/// position.
pub open spec fn find_at(hay: Seq<u8>, needle: Seq<u8>, i: int) -> Option<int>
    decreases hay.len() - i,
{
    if i + needle.len() > hay.len() {
        None
    } else if matches_at(hay, i, needle) {
        Some(i)
    } else {
        find_at(hay, needle, i + 1)
    }
}

/// The first occurrence of `needle` in `hay`.
pub open spec fn find_plain(hay: Seq<u8>, needle: Seq<u8>) -> Option<int> {
    find_at(hay, needle, 0)
}

/// The last occurrence of `needle` at or before position `i`.
pub open spec fn rfind_at(hay: Seq<u8>, needle: Seq<u8>, i: int) -> Option<int>
    decreases i + 1,
{
    if i < 0 {
        None
    } else if matches_at(hay, i, needle) {
        Some(i)
    } else {
        rfind_at(hay, needle, i - 1)
    }
}

/// The last occurrence of `needle` in `hay`.
pub open spec fn rfind_plain(hay: Seq<u8>, needle: Seq<u8>) -> Option<int> {
    rfind_at(hay, needle, hay.len() - needle.len())
}

/// Where a quote-aware search stands: outside any string literal, or inside a
/// single- or double-quoted one.
pub enum QuoteMode {
    Outside,
    InSingle,
    InDouble,
}

/// The first occurrence of `needle` at or after position `i` that falls
/// outside single- and double-quoted string literals.  A backslash within a
/// literal consumes the following byte; a quote of the other kind within a
/// literal is inert.  The search gives up within `needle.len()` bytes of the
/// end of the line.
pub open spec fn find_outside_at(hay: Seq<u8>, needle: Seq<u8>, i: int, qm: QuoteMode) -> Option<
    int,
>
    decreases hay.len() - i,
{
    if i < 0 || i + needle.len() > hay.len() || needle.len() == 0 {
        None
    } else {
        match qm {
            QuoteMode::InSingle => {
                if hay[i] == '\\' as u8 {
                    find_outside_at(hay, needle, skip2(hay, i), QuoteMode::InSingle)
                } else if hay[i] == '\'' as u8 {
                    find_outside_at(hay, needle, i + 1, QuoteMode::Outside)
                } else {
                    find_outside_at(hay, needle, i + 1, QuoteMode::InSingle)
                }
            },
            QuoteMode::InDouble => {
                if hay[i] == '\\' as u8 {
                    find_outside_at(hay, needle, skip2(hay, i), QuoteMode::InDouble)
                } else if hay[i] == '"' as u8 {
                    find_outside_at(hay, needle, i + 1, QuoteMode::Outside)
                } else {
                    find_outside_at(hay, needle, i + 1, QuoteMode::InDouble)
                }
            },
            QuoteMode::Outside => {
                if hay[i] == '\'' as u8 {
                    find_outside_at(hay, needle, i + 1, QuoteMode::InSingle)
                } else if hay[i] == '"' as u8 {
                    find_outside_at(hay, needle, i + 1, QuoteMode::InDouble)
                } else if matches_at(hay, i, needle) {
                    Some(i)
                } else {
                    find_outside_at(hay, needle, i + 1, QuoteMode::Outside)
                }
            },
        }
    }
}

/// The first occurrence of `needle` in `hay` outside quoted string literals.
pub open spec fn find_outside(hay: Seq<u8>, needle: Seq<u8>) -> Option<int> {
    find_outside_at(hay, needle, 0, QuoteMode::Outside)
}

/// Three times the same quote byte: how a triple-quoted block opens or closes.
pub open spec fn triple_of(q: u8) -> Seq<u8> {
    seq![q, q, q]
}

/// The first triple-quote start (`"""` or `'''`) at or after position `i`
/// that falls outside single- and double-quoted string literals, as the
/// position and the quote byte.  At each position the double-quoted form is
/// tried first; a quote that does not start a triple opens an ordinary
/// string literal instead.
pub open spec fn find_triple_at(hay: Seq<u8>, i: int, qm: QuoteMode) -> Option<(int, u8)>
    decreases hay.len() - i,
{
    if i < 0 || i >= hay.len() {
        None
    } else {
        match qm {
            QuoteMode::InSingle => {
                if hay[i] == '\\' as u8 {
                    find_triple_at(hay, skip2(hay, i), QuoteMode::InSingle)
                } else if hay[i] == '\'' as u8 {
                    find_triple_at(hay, i + 1, QuoteMode::Outside)
                } else {
                    find_triple_at(hay, i + 1, QuoteMode::InSingle)
                }
            },
            QuoteMode::InDouble => {
                if hay[i] == '\\' as u8 {
                    find_triple_at(hay, skip2(hay, i), QuoteMode::InDouble)
                } else if hay[i] == '"' as u8 {
                    find_triple_at(hay, i + 1, QuoteMode::Outside)
                } else {
                    find_triple_at(hay, i + 1, QuoteMode::InDouble)
                }
            },
            QuoteMode::Outside => {
                if matches_at(hay, i, triple_of('"' as u8)) {
                    Some((i, '"' as u8))
                } else if matches_at(hay, i, triple_of('\'' as u8)) {
                    Some((i, '\'' as u8))
                } else if hay[i] == '\'' as u8 {
                    find_triple_at(hay, i + 1, QuoteMode::InSingle)
                } else if hay[i] == '"' as u8 {
                    find_triple_at(hay, i + 1, QuoteMode::InDouble)
                } else {
                    find_triple_at(hay, i + 1, QuoteMode::Outside)
                }
            },
        }
    }
}

/// The first triple-quote start in `hay` outside quoted string literals.
pub open spec fn find_triple(hay: Seq<u8>) -> Option<(int, u8)> {
    find_triple_at(hay, 0, QuoteMode::Outside)
}

/// The byte width of the white-space character starting at position `i`,
/// or 0 when none starts there.
pub fn ws_width_at(bytes: &[u8], i: usize) -> (w: usize)
    ensures
        w as int == blank_step(bytes@, i as int),
        w != 0 ==> i + w <= bytes@.len(),
{
    let n = bytes.len();
    if i >= n {
        return 0;
    }
    let b = bytes[i];
    if b == 32 || b == 9 || b == 10 || b == 11 || b == 12 || b == 13 {
        return 1;
    }
    if b == 0xc2 && n - i >= 2 {
        let b1 = bytes[i + 1];
        if b1 == 0x85 || b1 == 0xa0 {
            return 2;
        }
        return 0;
    }
    if n - i >= 3 {
        let b1 = bytes[i + 1];
        let b2 = bytes[i + 2];
        if b == 0xe1 && b1 == 0x9a && b2 == 0x80 {
            return 3;
        }
        if b == 0xe2 && b1 == 0x80 && (0x80 <= b2 && b2 <= 0x8a || b2 == 0xa8 || b2 == 0xa9 || b2
            == 0xaf) {
            return 3;
        }
        if b == 0xe2 && b1 == 0x81 && b2 == 0x9f {
            return 3;
        }
        if b == 0xe3 && b1 == 0x80 && b2 == 0x80 {
            return 3;
        }
    }
    0
}

/// The end of the line's leading run of white space.
pub fn skip_blank(bytes: &[u8]) -> (j: usize)
    ensures
        j as int == ws_run_end(bytes@, 0),
        j <= bytes@.len(),
{
    let n = bytes.len();
    let mut i: usize = 0;
    loop
        invariant_except_break
            i <= n,
            n == bytes@.len(),
            ws_run_end(bytes@, 0) == ws_run_end(bytes@, i as int),
        ensures
            i <= n,
            ws_run_end(bytes@, 0) == i as int,
        decreases n - i,
    {
        let w = ws_width_at(bytes, i);
        if w == 0 {
            proof {
                assert(ws_run_end(bytes@, i as int) == i as int);
            }
            break;
        }
        i += w;
    }
    i
}

/// Whether the line is blank: nothing but one run of Unicode white space.
pub fn is_blank_line(bytes: &[u8]) -> (r: bool)
    ensures
        r == is_blank(bytes@),
{
    skip_blank(bytes) == bytes.len()
}

/// First occurrence of the two-byte pattern `[a, b]`.
pub fn find2(bytes: &[u8], a: u8, b: u8) -> (r: Option<usize>)
    ensures
        match r {
            Some(j) => find_plain(bytes@, seq![a, b]) == Some(j as int) && matches_at(
                bytes@,
                j as int,
                seq![a, b],
            ),
            None => find_plain(bytes@, seq![a, b]) is None,
        },
{
    let n = bytes.len();
    let mut i: usize = 0;
    while i <= n && n - i >= 2
        invariant
            i <= n,
            n == bytes@.len(),
            find_at(bytes@, seq![a, b], 0) == find_at(bytes@, seq![a, b], i as int),
        decreases n - i,
    {
        if match2(bytes, i, a, b) {
            return Some(i);
        }
        i += 1;
    }
    None
}

/// First occurrence of the three-byte pattern `[a, b, c]`.
pub fn find3(bytes: &[u8], a: u8, b: u8, c: u8) -> (r: Option<usize>)
    ensures
        match r {
            Some(j) => find_plain(bytes@, seq![a, b, c]) == Some(j as int) && matches_at(
                bytes@,
                j as int,
                seq![a, b, c],
            ),
            None => find_plain(bytes@, seq![a, b, c]) is None,
        },
{
    let n = bytes.len();
    let mut i: usize = 0;
    while i <= n && n - i >= 3
        invariant
            i <= n,
            n == bytes@.len(),
            find_at(bytes@, seq![a, b, c], 0) == find_at(bytes@, seq![a, b, c], i as int),
        decreases n - i,
    {
        if match3(bytes, i, a, b, c) {
            return Some(i);
        }
        i += 1;
    }
    None
}

/// Last occurrence of the three-byte pattern `[a, b, c]`.
pub fn rfind3(bytes: &[u8], a: u8, b: u8, c: u8) -> (r: Option<usize>)
    ensures
        match r {
            Some(j) => rfind_plain(bytes@, seq![a, b, c]) == Some(j as int) && matches_at(
                bytes@,
                j as int,
                seq![a, b, c],
            ),
            None => rfind_plain(bytes@, seq![a, b, c]) is None,
        },
{
    let n = bytes.len();
    if n < 3 {
        return None;
    }
    let mut i: usize = n - 3;
    loop
        invariant
            i <= n - 3,
            n == bytes@.len(),
            n >= 3,
            rfind_at(bytes@, seq![a, b, c], (n - 3) as int) == rfind_at(
                bytes@,
                seq![a, b, c],
                i as int,
            ),
        ensures
            match rfind_at(bytes@, seq![a, b, c], (n - 3) as int) {
                Some(j) => i == j && matches_at(bytes@, i as int, seq![a, b, c]),
                None => true,
            },
            rfind_at(bytes@, seq![a, b, c], (n - 3) as int) matches Some(j) <==> matches_at(
                bytes@,
                i as int,
                seq![a, b, c],
            ),
        decreases i,
    {
        if match3(bytes, i, a, b, c) {
            break;
        }
        if i == 0 {
            proof {
                assert(rfind_at(bytes@, seq![a, b, c], -1) is None);
            }
            break;
        }
        i -= 1;
    }
    if match3(bytes, i, a, b, c) {
        Some(i)
    } else {
        None
    }
}

/// First occurrence of `[a, b]` outside quoted string literals.
pub fn find_outside2(bytes: &[u8], a: u8, b: u8) -> (r: Option<usize>)
    ensures
        match r {
            Some(j) => find_outside(bytes@, seq![a, b]) == Some(j as int) && matches_at(
                bytes@,
                j as int,
                seq![a, b],
            ),
            None => find_outside(bytes@, seq![a, b]) is None,
        },
{
    let ghost needle = seq![a, b];
    let n = bytes.len();
    let mut i: usize = 0;
    let mut in_single = false;
    let mut in_double = false;
    while i <= n && n - i >= 2
        invariant
            i <= n,
            n == bytes@.len(),
            needle == seq![a, b],
            !(in_single && in_double),
            find_outside_at(bytes@, needle, 0, QuoteMode::Outside) == find_outside_at(
                bytes@,
                needle,
                i as int,
                quote_mode(in_single, in_double),
            ),
        decreases n - i,
    {
        let c = bytes[i];
        if in_single {
            if c == '\\' as u8 {
                proof {
                    assert(skip2(bytes@, i as int) == if i + 2 <= n { i + 2 } else { n as int });
                }
                i = if n - i >= 2 { i + 2 } else { n };
            } else {
                if c == '\'' as u8 {
                    in_single = false;
                }
                i += 1;
            }
        } else if in_double {
            if c == '\\' as u8 {
                proof {
                    assert(skip2(bytes@, i as int) == if i + 2 <= n { i + 2 } else { n as int });
                }
                i = if n - i >= 2 { i + 2 } else { n };
            } else {
                if c == '"' as u8 {
                    in_double = false;
                }
                i += 1;
            }
        } else {
            if c == '\'' as u8 {
                in_single = true;
                i += 1;
            } else if c == '"' as u8 {
                in_double = true;
                i += 1;
            } else if match2(bytes, i, a, b) {
                return Some(i);
            } else {
                i += 1;
            }
        }
    }
    None
}

/// First occurrence of `[a, b, c, d]` outside quoted string literals.
pub fn find_outside4(bytes: &[u8], a: u8, b: u8, c: u8, d: u8) -> (r: Option<usize>)
    ensures
        match r {
            Some(j) => find_outside(bytes@, seq![a, b, c, d]) == Some(j as int) && matches_at(
                bytes@,
                j as int,
                seq![a, b, c, d],
            ),
            None => find_outside(bytes@, seq![a, b, c, d]) is None,
        },
{
    let ghost needle = seq![a, b, c, d];
    let n = bytes.len();
    let mut i: usize = 0;
    let mut in_single = false;
    let mut in_double = false;
    while i <= n && n - i >= 4
        invariant
            i <= n,
            n == bytes@.len(),
            needle == seq![a, b, c, d],
            !(in_single && in_double),
            find_outside_at(bytes@, needle, 0, QuoteMode::Outside) == find_outside_at(
                bytes@,
                needle,
                i as int,
                quote_mode(in_single, in_double),
            ),
        decreases n - i,
    {
        let e = bytes[i];
        if in_single {
            if e == '\\' as u8 {
                proof {
                    assert(skip2(bytes@, i as int) == if i + 2 <= n { i + 2 } else { n as int });
                }
                i = if n - i >= 2 { i + 2 } else { n };
            } else {
                if e == '\'' as u8 {
                    in_single = false;
                }
                i += 1;
            }
        } else if in_double {
            if e == '\\' as u8 {
                proof {
                    assert(skip2(bytes@, i as int) == if i + 2 <= n { i + 2 } else { n as int });
                }
                i = if n - i >= 2 { i + 2 } else { n };
            } else {
                if e == '"' as u8 {
                    in_double = false;
                }
                i += 1;
            }
        } else {
            if e == '\'' as u8 {
                in_single = true;
                i += 1;
            } else if e == '"' as u8 {
                in_double = true;
                i += 1;
            } else if match4(bytes, i, a, b, c, d) {
                return Some(i);
            } else {
                i += 1;
            }
        }
    }
    None
}

/// A successful plain search yields a genuine occurrence at or after the
/// start position.
pub proof fn lemma_find_at_bounds(hay: Seq<u8>, needle: Seq<u8>, i: int, j: int)
    requires
        find_at(hay, needle, i) == Some(j),
    ensures
        i <= j,
        matches_at(hay, j, needle),
    decreases hay.len() - i,
{
    if i + needle.len() > hay.len() {
    } else if matches_at(hay, i, needle) {
    } else {
        lemma_find_at_bounds(hay, needle, i + 1, j);
    }
}

/// A successful quote-aware search yields a genuine occurrence at or after
/// the start position.
pub proof fn lemma_find_outside_at_bounds(
    hay: Seq<u8>,
    needle: Seq<u8>,
    i: int,
    qm: QuoteMode,
    j: int,
)
    requires
        find_outside_at(hay, needle, i, qm) == Some(j),
    ensures
        i <= j,
        matches_at(hay, j, needle),
    decreases hay.len() - i,
{
    if i < 0 || i + needle.len() > hay.len() || needle.len() == 0 {
    } else {
        match qm {
            QuoteMode::InSingle => {
                if hay[i] == '\\' as u8 {
                    lemma_find_outside_at_bounds(hay, needle, skip2(hay, i), QuoteMode::InSingle, j);
                } else if hay[i] == '\'' as u8 {
                    lemma_find_outside_at_bounds(hay, needle, i + 1, QuoteMode::Outside, j);
                } else {
                    lemma_find_outside_at_bounds(hay, needle, i + 1, QuoteMode::InSingle, j);
                }
            },
            QuoteMode::InDouble => {
                if hay[i] == '\\' as u8 {
                    lemma_find_outside_at_bounds(hay, needle, skip2(hay, i), QuoteMode::InDouble, j);
                } else if hay[i] == '"' as u8 {
                    lemma_find_outside_at_bounds(hay, needle, i + 1, QuoteMode::Outside, j);
                } else {
                    lemma_find_outside_at_bounds(hay, needle, i + 1, QuoteMode::InDouble, j);
                }
            },
            QuoteMode::Outside => {
                if hay[i] == '\'' as u8 {
                    lemma_find_outside_at_bounds(hay, needle, i + 1, QuoteMode::InSingle, j);
                } else if hay[i] == '"' as u8 {
                    lemma_find_outside_at_bounds(hay, needle, i + 1, QuoteMode::InDouble, j);
                } else if matches_at(hay, i, needle) {
                } else {
                    lemma_find_outside_at_bounds(hay, needle, i + 1, QuoteMode::Outside, j);
                }
            },
        }
    }
}

/// The quote mode the two scan flags stand for.
pub open spec fn quote_mode(in_single: bool, in_double: bool) -> QuoteMode {
    if in_single {
        QuoteMode::InSingle
    } else if in_double {
        QuoteMode::InDouble
    } else {
        QuoteMode::Outside
    }
}

} // verus!

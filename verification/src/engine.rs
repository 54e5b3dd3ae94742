//! The mathematical model of the delimiter-pair scan engine.
//!
//! A single recursive scan walks a line of bytes left to right, carrying a
//! mode (ordinary text, inside a block comment, inside a single- or
//! double-quoted literal) and the two flags observed so far.  Each language
//! family instantiates the engine with its own line-comment marker, block
//! delimiter pair, and string rule.

use vstd::prelude::*;

use crate::scan::{is_blank, is_ws, matches_at, skip2};

verus! {

/// The line-comment marker a family honors, if any.
#[derive(Debug, Clone, Copy, PartialEq, Eq, Structural)]
pub enum LineComment {
    NoMarker,
    DoubleSlash,
    DoubleDash,
    Hash,
}

/// The block-comment delimiter pair a family honors.
#[derive(Debug, Clone, Copy, PartialEq, Eq, Structural)]
pub enum BlockComment {
    SlashStar,
    Xml,
}

/// Whether single- and double-quoted string literals hide comment markers.
#[derive(Debug, Clone, Copy, PartialEq, Eq, Structural)]
pub enum StringRules {
    NoStrings,
    CStyle,
}

/// Where the scan stands within the line.
pub enum ScanMode {
    Normal,
    InBlock,
    InSingle,
    InDouble,
}

/// One family's engine instantiation, as plain byte sequences.
pub struct ScanParams {
    /// Line-comment marker: the rest of the line is comment after it.
    pub marker: Option<Seq<u8>>,
    /// Block-comment delimiters: (opening, closing).
    pub block: Option<(Seq<u8>, Seq<u8>)>,
    /// Whether quoted string literals are honored.
    pub strings: bool,
}

pub open spec fn seq2(a: u8, b: u8) -> Seq<u8> {
    seq![a, b]
}

pub open spec fn double_slash() -> Seq<u8> {
    seq2('/' as u8, '/' as u8)
}

pub open spec fn double_dash() -> Seq<u8> {
    seq2('-' as u8, '-' as u8)
}

pub open spec fn slash_star_open() -> Seq<u8> {
    seq2('/' as u8, '*' as u8)
}

pub open spec fn slash_star_close() -> Seq<u8> {
    seq2('*' as u8, '/' as u8)
}

pub open spec fn xml_open() -> Seq<u8> {
    seq!['<' as u8, '!' as u8, '-' as u8, '-' as u8]
}

pub open spec fn xml_close() -> Seq<u8> {
    seq!['-' as u8, '-' as u8, '>' as u8]
}

/// The engine parameters a choice of the three rule enums stands for.
pub open spec fn params_of(lc: LineComment, bc: Option<BlockComment>, sr: StringRules) -> ScanParams {
    ScanParams {
        marker: match lc {
            LineComment::NoMarker => None,
            LineComment::DoubleSlash => Some(double_slash()),
            LineComment::DoubleDash => Some(double_dash()),
            LineComment::Hash => Some(seq!['#' as u8]),
        },
        block: match bc {
            None => None,
            Some(BlockComment::SlashStar) => Some((slash_star_open(), slash_star_close())),
            Some(BlockComment::Xml) => Some((xml_open(), xml_close())),
        },
        strings: sr == StringRules::CStyle,
    }
}

/// One left-to-right pass over `bytes` from position `i` in mode `mode`, with
/// the flags observed so far.  Returns `(has_code, has_comment, in_block)`
/// where `in_block` is the carried block-comment state when the line ends.
///
/// - In a block comment, everything up to the closing delimiter is comment;
///   after the close the scan resumes as ordinary text.
/// - In a quoted literal, a backslash consumes the following byte, the
///   matching quote closes the literal, and everything within is inert.
/// - In ordinary text, a quote opens a literal and counts as code, a block
///   opening delimiter switches into the block comment, a line-comment marker
///   ends the scan with the rest of the line as comment, and any other
///   non-whitespace byte counts as code.
pub open spec fn scan(
    bytes: Seq<u8>,
    i: int,
    mode: ScanMode,
    code: bool,
    comment: bool,
    p: ScanParams,
) -> (bool, bool, bool)
    decreases bytes.len() - i,
{
    if i < 0 || i >= bytes.len() {
        (code, comment, mode is InBlock)
    } else {
        match mode {
            ScanMode::InBlock => {
                match p.block {
                    Some(delims) => {
                        if delims.1.len() > 0 && matches_at(bytes, i, delims.1) {
                            scan(bytes, i + delims.1.len(), ScanMode::Normal, code, true, p)
                        } else {
                            scan(bytes, i + 1, ScanMode::InBlock, code, true, p)
                        }
                    },
                    None => scan(bytes, i + 1, ScanMode::InBlock, code, true, p),
                }
            },
            ScanMode::InSingle => {
                if bytes[i] == '\\' as u8 {
                    scan(bytes, skip2(bytes, i), ScanMode::InSingle, code, comment, p)
                } else if bytes[i] == '\'' as u8 {
                    scan(bytes, i + 1, ScanMode::Normal, code, comment, p)
                } else {
                    scan(bytes, i + 1, ScanMode::InSingle, code, comment, p)
                }
            },
            ScanMode::InDouble => {
                if bytes[i] == '\\' as u8 {
                    scan(bytes, skip2(bytes, i), ScanMode::InDouble, code, comment, p)
                } else if bytes[i] == '"' as u8 {
                    scan(bytes, i + 1, ScanMode::Normal, code, comment, p)
                } else {
                    scan(bytes, i + 1, ScanMode::InDouble, code, comment, p)
                }
            },
            ScanMode::Normal => {
                if p.strings && bytes[i] == '\'' as u8 {
                    scan(bytes, i + 1, ScanMode::InSingle, true, comment, p)
                } else if p.strings && bytes[i] == '"' as u8 {
                    scan(bytes, i + 1, ScanMode::InDouble, true, comment, p)
                } else if p.block is Some && p.block->Some_0.0.len() > 0 && matches_at(
                    bytes,
                    i,
                    p.block->Some_0.0,
                ) {
                    scan(bytes, i + p.block->Some_0.0.len(), ScanMode::InBlock, code, true, p)
                } else if p.marker is Some && matches_at(bytes, i, p.marker->Some_0) {
                    (code, true, false)
                } else if !is_ws(bytes[i]) {
                    scan(bytes, i + 1, ScanMode::Normal, true, comment, p)
                } else {
                    scan(bytes, i + 1, ScanMode::Normal, code, comment, p)
                }
            },
        }
    }
}

/// The carried mode a line starts in.
pub open spec fn start_mode(in_block: bool) -> ScanMode {
    if in_block {
        ScanMode::InBlock
    } else {
        ScanMode::Normal
    }
}

/// The verdict flags of a bare hash-style line-comment scan over part of a
/// line: quoted string literals are honored, `#` outside them makes the rest
/// comment, and there is no block form.
pub open spec fn hash_scan(bytes: Seq<u8>) -> (bool, bool) {
    let r = scan(
        bytes,
        0,
        ScanMode::Normal,
        false,
        false,
        params_of(LineComment::Hash, None, StringRules::CStyle),
    );
    (r.0, r.1)
}

/// The verdict flags of a bare dash-dash line-comment scan over part of a
/// line: quoted string literals are honored, `--` outside them makes the rest
/// comment, and there is no block form.
pub open spec fn dash_scan(bytes: Seq<u8>) -> (bool, bool) {
    let r = scan(
        bytes,
        0,
        ScanMode::Normal,
        false,
        false,
        params_of(LineComment::DoubleDash, None, StringRules::CStyle),
    );
    (r.0, r.1)
}

/// The verdict and new carried state for one line under the delimiter-pair
/// engine: a blank line is `(false, false)` and leaves the state untouched;
/// any other line is scanned from its first byte.
pub open spec fn classify_spec(bytes: Seq<u8>, in_block: bool, p: ScanParams) -> (bool, bool, bool) {
    if is_blank(bytes) {
        (false, false, in_block)
    } else {
        scan(bytes, 0, start_mode(in_block), false, false, p)
    }
}

} // verus!

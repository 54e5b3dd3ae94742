//! Per-file tally data: which classifier family a file uses, and the counts
//! of blank, comment, and code lines gathered while its lines are classified.

use vstd::prelude::*;

verus! {

/// Which classifier family a file's extension selects.
#[derive(Clone, Copy)]
pub enum ParserKind {
    CLike,
    Python,
    Lua,
    Xml,
    Css,
}

/// The per-file tally: a language tag and the counts of physical, blank,
/// comment, and code lines.
pub struct CodeFileData {
    patten: String,
    lines: u64,
    blank: u64,
    comment: u64,
    code: u64,
}

impl CodeFileData {
    /// The language tag.
    pub closed spec fn spec_patten(&self) -> Seq<char> {
        self.patten@
    }

    /// The total count of physical lines.
    pub closed spec fn spec_lines(&self) -> u64 {
        self.lines
    }

    /// The count of blank lines.
    pub closed spec fn spec_blank(&self) -> u64 {
        self.blank
    }

    /// The count of lines holding comment text.
    pub closed spec fn spec_comment(&self) -> u64 {
        self.comment
    }

    /// The count of lines holding code.
    pub closed spec fn spec_code(&self) -> u64 {
        self.code
    }

    /// A fresh tally for one file, with every count at zero.
    pub fn new(path: String, patten: String) -> (d: CodeFileData)
        ensures
            d.spec_patten() == patten@,
            d.spec_lines() == 0,
            d.spec_blank() == 0,
            d.spec_comment() == 0,
            d.spec_code() == 0,
    {
        let _ = path;
        CodeFileData { patten, lines: 0, blank: 0, comment: 0, code: 0 }
    }

    /// Count one more blank line.
    pub fn add_blank(&mut self)
        requires
            old(self).spec_blank() < u64::MAX,
        ensures
            final(self).spec_blank() == old(self).spec_blank() + 1,
            final(self).spec_patten() == old(self).spec_patten(),
            final(self).spec_lines() == old(self).spec_lines(),
            final(self).spec_comment() == old(self).spec_comment(),
            final(self).spec_code() == old(self).spec_code(),
    {
        self.blank += 1;
    }

    /// Count one more line holding comment text.
    pub fn add_comment(&mut self)
        requires
            old(self).spec_comment() < u64::MAX,
        ensures
            final(self).spec_comment() == old(self).spec_comment() + 1,
            final(self).spec_patten() == old(self).spec_patten(),
            final(self).spec_lines() == old(self).spec_lines(),
            final(self).spec_blank() == old(self).spec_blank(),
            final(self).spec_code() == old(self).spec_code(),
    {
        self.comment += 1;
    }

    /// Count one more line holding code.
    pub fn add_code(&mut self)
        requires
            old(self).spec_code() < u64::MAX,
        ensures
            final(self).spec_code() == old(self).spec_code() + 1,
            final(self).spec_patten() == old(self).spec_patten(),
            final(self).spec_lines() == old(self).spec_lines(),
            final(self).spec_blank() == old(self).spec_blank(),
            final(self).spec_comment() == old(self).spec_comment(),
    {
        self.code += 1;
    }

    /// Record the file's total count of physical lines.
    pub fn set_lines(&mut self, lines: u64)
        ensures
            final(self).spec_lines() == lines,
            final(self).spec_patten() == old(self).spec_patten(),
            final(self).spec_blank() == old(self).spec_blank(),
            final(self).spec_comment() == old(self).spec_comment(),
            final(self).spec_code() == old(self).spec_code(),
    {
        self.lines = lines;
    }

    /// The language tag.
    pub fn patten(&self) -> (r: &str)
        ensures
            r@ == self.spec_patten(),
    {
        self.patten.as_str()
    }

    /// The count of blank lines.
    pub fn blank(&self) -> (r: u64)
        ensures
            r == self.spec_blank(),
    {
        self.blank
    }

    /// The count of lines holding comment text.
    pub fn comment(&self) -> (r: u64)
        ensures
            r == self.spec_comment(),
    {
        self.comment
    }

    /// The count of lines holding code.
    pub fn code(&self) -> (r: u64)
        ensures
            r == self.spec_code(),
    {
        self.code
    }

    /// The total count of physical lines.
    pub fn lines(&self) -> (r: u64)
        ensures
            r == self.spec_lines(),
    {
        self.lines
    }
}

/// How many leading bytes of a file are sniffed for the binary heuristic.
pub const BINARY_SNIFF_LEN: usize = 8192;

/// Whether the file content looks binary: a NUL byte anywhere in the first
/// `BINARY_SNIFF_LEN` bytes is taken as a strong signal.
pub fn looks_binary(buf: &Vec<u8>) -> (r: bool)
    ensures
        r == exists|i: int|
            0 <= i < buf@.len() && i < BINARY_SNIFF_LEN && buf@[i] == 0,
{
    let limit = if buf.len() < BINARY_SNIFF_LEN {
        buf.len()
    } else {
        BINARY_SNIFF_LEN
    };
    let mut i: usize = 0;
    while i < limit
        invariant
            i <= limit,
            limit <= buf@.len(),
            limit == if buf@.len() < BINARY_SNIFF_LEN {
                buf@.len() as int
            } else {
                BINARY_SNIFF_LEN as int
            },
            forall|k: int| 0 <= k < i ==> buf@[k] != 0,
        decreases limit - i,
    {
        if buf[i] == 0 {
            return true;
        }
        i += 1;
    }
    false
}

} // verus!

//! An embeddable scripting-language runtime: source text is tokenized,
//! parsed into an AST, and executed by a tree-walking evaluator over a
//! dynamically typed value model.
//!
//! Script numbers are IEEE-754 double-precision values, carried everywhere
//! as their 64-bit pattern (`u64`); arithmetic on them goes through a
//! soft-float library behind trusted wrappers (see `num`).
use vstd::prelude::*;

pub mod ast;
pub mod interpreter;
pub mod laws;
pub mod lexer;
pub mod modules;
pub mod num;
pub mod parser;
pub mod scope;
pub mod strutil;
pub mod types;

verus! {

/// An evaluation failure: a message and a best-effort source position
/// (line/column pair).
#[derive(Debug, Clone)]
pub struct Error {
    pub msg: String,
    pub pos: Vec<usize>,
}

/// Maps byte-stream positions back to line/column pairs of the source text.
#[derive(Debug, Clone)]
pub struct Resolver {
    pub filename: String,
    pub code: String,
}

/// The number of newline characters in `code` strictly before position `pos`.
pub open spec fn newlines_before(code: Seq<char>, pos: int) -> int
    decreases pos,
{
    if pos <= 0 {
        0
    } else {
        newlines_before(code, pos - 1) + if code[pos - 1] == '\n' {
            1int
        } else {
            0int
        }
    }
}

/// The position right after the last newline at or before `pos - 1`
/// (the start of the line that holds `pos`).
pub open spec fn line_start_before(code: Seq<char>, pos: int) -> int
    decreases pos,
{
    if pos <= 0 {
        0
    } else if code[pos - 1] == '\n' {
        pos
    } else {
        line_start_before(code, pos - 1)
    }
}

impl Resolver {
    pub fn new(filename: String, code: String) -> (r: Resolver)
        ensures
            r.filename == filename,
            r.code == code,
    {
        Resolver { filename, code }
    }

    /// Turns a character offset into a 1-based line/column pair;
    /// an offset past the end of the text resolves to `[0, 0]`.
    pub fn resolve_where(&self, pos: usize) -> (r: Vec<usize>)
        ensures
            r@.len() == 2,
            pos < self.code@.len() ==> {
                &&& r@[0] == 1 + newlines_before(self.code@, pos as int)
                &&& r@[1] == 1 + pos - line_start_before(self.code@, pos as int)
            },
            pos >= self.code@.len() ==> r@[0] == 0 && r@[1] == 0,
    {
        let text = self.code.as_str();
        let n = text.unicode_len();
        if pos >= n {
            let mut r: Vec<usize> = Vec::new();
            r.push(0);
            r.push(0);
            return r;
        }
        let mut i: usize = 0;
        let mut line: usize = 1;
        let mut start: usize = 0;
        while i < pos
            invariant
                i <= pos,
                pos < self.code@.len(),
                n == self.code@.len(),
                text@ == self.code@,
                line == 1 + newlines_before(self.code@, i as int),
                start == line_start_before(self.code@, i as int),
                line <= i + 1,
                start <= i,
            decreases pos - i,
        {
            let c = text.get_char(i);
            if c == '\n' {
                line = line + 1;
                start = i + 1;
            }
            i = i + 1;
        }
        let mut r: Vec<usize> = Vec::new();
        r.push(line);
        r.push(1 + (pos - start));
        r
    }

    /// Builds the error that reports `msg` at `pos`; the caller is expected
    /// to surface it and stop.
    pub fn exit_error(&self, msg: String, pos: Vec<usize>) -> (r: Error)
        ensures
            r.msg == msg,
            r.pos == pos,
    {
        Error { msg, pos }
    }
}

} // verus!

//! A line-by-line scanner of Rust source text that tells code from comments, aware of
//! string literals, raw strings, character literals, lifetimes and nested block comments.
use vstd::prelude::*;
use crate::linter::text::{is_space, is_space_char};

verus! {

/// Where the scanner stands between two characters.
#[derive(Debug, Clone, Copy, PartialEq, Eq, Structural)]
pub enum LexState {
    /// In code.
    Code,
    /// In a line comment, up to the end of the line.
    LineComment,
    /// In a block comment, nested this many levels deep.
    Block(usize),
    /// In a string literal.
    Str,
    /// In a raw string literal closed by a quote and this many `#`.
    Raw(usize),
}

/// The number of `#` from position `k` on.
pub open spec fn hashes(line: Seq<char>, k: int) -> nat
    decreases line.len() - k,
{
    if 0 <= k < line.len() && line[k] == '#' {
        1 + hashes(line, k + 1)
    } else {
        0
    }
}

/// The position of the first `'` from position `k` on, or the line's length.
pub open spec fn quote_from(line: Seq<char>, k: int) -> int
    decreases line.len() - k,
{
    if k < 0 || k >= line.len() {
        line.len() as int
    } else if line[k] == '\'' {
        k
    } else {
        quote_from(line, k + 1)
    }
}

/// One step of the scanner at position `j` in state `st`: the next position, the next
/// state, and whether a character of code was read.
///
/// In code, white space is skipped; `//` opens a line comment and `/*` a block comment;
/// `"` opens a string; `r`, any number of `#` and `"` open a raw string; `'x'` and a
/// `'\`-escape up to the next `'` are character literals; any other `'` (a lifetime or a
/// label) and any other character are code. Block comments nest. In a string, `\` escapes
/// the next character and `"` closes it; a raw string closes at `"` followed by its `#`.
/// Characters of literals count as code.
pub open spec fn step(line: Seq<char>, j: int, st: LexState) -> (int, LexState, bool) {
    let len = line.len() as int;
    let c = line[j];
    let two = j + 1 < len;
    let n = if two { line[j + 1] } else { ' ' };
    match st {
        LexState::Code => {
            if is_space(c) {
                (j + 1, LexState::Code, false)
            } else if c == '/' && two && n == '/' {
                (j + 2, LexState::LineComment, false)
            } else if c == '/' && two && n == '*' {
                (j + 2, LexState::Block(1), false)
            } else if c == '"' {
                (j + 1, LexState::Str, true)
            } else if c == 'r' && j + 1 + hashes(line, j + 1) < len && line[j + 1 + hashes(
                line,
                j + 1,
            )] == '"' {
                (j + 2 + hashes(line, j + 1), LexState::Raw(hashes(line, j + 1) as usize), true)
            } else if c == '\'' && j + 2 < len && n != '\\' && line[j + 2] == '\'' {
                (j + 3, LexState::Code, true)
            } else if c == '\'' && two && n == '\\' {
                (
                    if quote_from(line, j + 3) < len {
                        quote_from(line, j + 3) + 1
                    } else {
                        len
                    },
                    LexState::Code,
                    true,
                )
            } else {
                (j + 1, LexState::Code, true)
            }
        },
        LexState::LineComment => (j + 1, LexState::LineComment, false),
        LexState::Block(d) => {
            if c == '/' && two && n == '*' {
                (j + 2, LexState::Block(if d < usize::MAX { (d + 1) as usize } else { d }), false)
            } else if c == '*' && two && n == '/' {
                (j + 2, if d <= 1 { LexState::Code } else { LexState::Block((d - 1) as usize) }, false)
            } else {
                (j + 1, LexState::Block(d), false)
            }
        },
        LexState::Str => {
            if c == '\\' {
                (if two { j + 2 } else { len }, LexState::Str, true)
            } else if c == '"' {
                (j + 1, LexState::Code, true)
            } else {
                (j + 1, LexState::Str, !is_space(c))
            }
        },
        LexState::Raw(h) => {
            if c == '"' && hashes(line, j + 1) >= h {
                (j + 1 + h, LexState::Code, true)
            } else {
                (j + 1, LexState::Raw(h), !is_space(c))
            }
        },
    }
}

/// Scans `line` from position `j` in state `st`; `code` tells whether code was read
/// before. The result tells whether the line holds code and the state at its end (a line
/// comment ends with its line).
pub open spec fn scan(line: Seq<char>, j: int, st: LexState, code: bool) -> (bool, LexState)
    decreases line.len() - j,
{
    if j < 0 || j >= line.len() {
        (code, if st == LexState::LineComment { LexState::Code } else { st })
    } else {
        let (k, next, c) = step(line, j, st);
        if k <= j || k > line.len() {
            (code, st)
        } else {
            scan(line, k, next, code || c)
        }
    }
}

/// The first visible characters of `line` open a comment (`//` or `/*`).
pub open spec fn opens_comment(line: Seq<char>) -> bool {
    exists|j: int|
        0 <= j && j + 1 < line.len() && (forall|k: int| 0 <= k < j ==> is_space(#[trigger] line[k]))
            && #[trigger] line[j] == '/' && (line[j + 1] == '/' || line[j + 1] == '*')
}

/// Whether `line`, read from state `st`, counts as code, and the state after it. A line
/// that starts inside a block comment, or whose first visible characters open a comment,
/// is a comment line, even when code follows on it; a line that starts inside a string
/// counts as code unless it is blank; any other line counts as code when it holds code.
pub open spec fn scan_line_spec(line: Seq<char>, st: LexState) -> (bool, LexState) {
    let (code, end) = scan(line, 0, st, false);
    let counts = match st {
        LexState::Block(_) => false,
        LexState::Code => code && !opens_comment(line),
        _ => code,
    };
    (counts, end)
}

/// Decides [`opens_comment`].
fn opens_comment_exec(line: &Vec<char>) -> (b: bool)
    ensures
        b == opens_comment(line@),
{
    let mut j: usize = 0;
    while j < line.len() && is_space_char(line[j])
        invariant
            j <= line.len(),
            forall|k: int| 0 <= k < j ==> is_space(#[trigger] line@[k]),
        decreases line.len() - j,
    {
        j = j + 1;
    }
    let b = j < line.len() && line.len() - j > 1 && line[j] == '/' && (line[j + 1] == '/'
        || line[j + 1] == '*');
    proof {
        if !b {
            assert forall|i: int|
                0 <= i && i + 1 < line@.len() && (forall|k: int| 0 <= k < i ==> is_space(#[trigger] line@[k]))
                    && #[trigger] line@[i] == '/' implies !(line@[i + 1] == '/' || line@[i + 1] == '*') by {
                if i < j {
                    assert(is_space(line@[i]));
                } else if i > j {
                    assert(j < line@.len());
                    assert(is_space(line@[j as int]));
                    assert(!is_space(line@[j as int]));
                }
            }
        }
    }
    b
}

fn hashes_exec(line: &Vec<char>, k: usize) -> (h: usize)
    requires
        k <= line.len(),
    ensures
        h == hashes(line@, k as int),
        k + h <= line.len(),
{
    let mut i = k;
    while i < line.len() && line[i] == '#'
        invariant
            k <= i <= line.len(),
            hashes(line@, k as int) == (i - k) + hashes(line@, i as int),
        decreases line.len() - i,
    {
        i = i + 1;
    }
    i - k
}

fn quote_from_exec(line: &Vec<char>, k: usize) -> (q: usize)
    ensures
        q == quote_from(line@, k as int),
        q <= line.len(),
        k <= line.len() ==> k <= q,
{
    let mut i = k;
    while i < line.len() && line[i] != '\''
        invariant
            k <= i,
            quote_from(line@, k as int) == quote_from(line@, i as int),
        decreases line.len() - i,
    {
        i = i + 1;
    }
    if i < line.len() { i } else { line.len() }
}

fn step_exec(line: &Vec<char>, j: usize, st: LexState) -> (r: (usize, LexState, bool))
    requires
        j < line.len(),
    ensures
        (r.0 as int, r.1, r.2) == step(line@, j as int, st),
        j < r.0 <= line.len(),
{
    let len = line.len();
    let c = line[j];
    let two = len - j > 1;
    let n = if two { line[j + 1] } else { ' ' };
    match st {
        LexState::Code => {
            if is_space_char(c) {
                (j + 1, LexState::Code, false)
            } else if c == '/' && two && n == '/' {
                (j + 2, LexState::LineComment, false)
            } else if c == '/' && two && n == '*' {
                (j + 2, LexState::Block(1), false)
            } else if c == '"' {
                (j + 1, LexState::Str, true)
            } else {
                let h = hashes_exec(line, j + 1);
                if c == 'r' && len - (j + 1) > h && line[j + 1 + h] == '"' {
                    (j + 2 + h, LexState::Raw(h), true)
                } else if c == '\'' && len - j > 2 && n != '\\' && line[j + 2] == '\'' {
                    (j + 3, LexState::Code, true)
                } else if c == '\'' && two && n == '\\' {
                    let q = if len - j > 3 { quote_from_exec(line, j + 3) } else { len };
                    (if q < len { q + 1 } else { len }, LexState::Code, true)
                } else {
                    (j + 1, LexState::Code, true)
                }
            }
        },
        LexState::LineComment => (j + 1, LexState::LineComment, false),
        LexState::Block(d) => {
            if c == '/' && two && n == '*' {
                (j + 2, LexState::Block(if d < usize::MAX { d + 1 } else { d }), false)
            } else if c == '*' && two && n == '/' {
                (j + 2, if d <= 1 { LexState::Code } else { LexState::Block(d - 1) }, false)
            } else {
                (j + 1, LexState::Block(d), false)
            }
        },
        LexState::Str => {
            if c == '\\' {
                (if two { j + 2 } else { len }, LexState::Str, true)
            } else if c == '"' {
                (j + 1, LexState::Code, true)
            } else {
                (j + 1, LexState::Str, !is_space_char(c))
            }
        },
        LexState::Raw(h) => {
            let more = hashes_exec(line, j + 1);
            if c == '"' && more >= h {
                (j + 1 + h, LexState::Code, true)
            } else {
                (j + 1, LexState::Raw(h), !is_space_char(c))
            }
        },
    }
}

/// Scans one line (see [`scan_line_spec`]).
pub fn scan_line(line: &Vec<char>, st: LexState) -> (r: (bool, LexState))
    ensures
        r == scan_line_spec(line@, st),
{
    let mut j: usize = 0;
    let mut state = st;
    let mut code = false;
    while j < line.len()
        invariant
            j <= line.len(),
            scan(line@, 0, st, false) == scan(line@, j as int, state, code),
        decreases line.len() - j,
    {
        let (k, next, c) = step_exec(line, j, state);
        j = k;
        state = next;
        code = code || c;
    }
    let end = if state == LexState::LineComment { LexState::Code } else { state };
    let counts = match st {
        LexState::Block(_) => false,
        LexState::Code => code && !opens_comment_exec(line),
        _ => code,
    };
    (counts, end)
}

} // verus!

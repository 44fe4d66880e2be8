//! The four rules and their order: which rule a file breaks first, if any.
use vstd::prelude::*;
use crate::linter::rules::{
    excluded_lines, first_too_long, fn_size, line_budgets, line_total, lemma_lines_total,
    module_doc_len, scope_flags, short_header, size_checked, size_exempt, span_chars_exec, tally,
    ModuleAttr, Outline, OutlineItem,
};
use crate::linter::text::{chars_of, lines_of, split_lines, views};

verus! {

/// The most characters of code a file may hold.
pub const MAX_CODE_CHARS: u128 = 10000;

/// The most characters of comments and documentation a file may hold.
pub const MAX_DOC_CHARS: u128 = 4000;

/// The fewest characters the module header (`//!`) of a production file may hold.
pub const MIN_HEADER_CHARS: usize = 100;

/// The most characters a function may span.
pub const MAX_FN_CHARS: u128 = 2000;

/// A path separator.
pub open spec fn is_sep(c: char) -> bool {
    c == '/' || c == '\\'
}

/// `tests`
pub open spec fn word_tests() -> Seq<char> {
    seq!['t', 'e', 's', 't', 's']
}

/// `tests.rs`
pub open spec fn file_tests_rs() -> Seq<char> {
    seq!['t', 'e', 's', 't', 's', '.', 'r', 's']
}

/// A directory named `tests` starts at character `a` of the path.
pub open spec fn tests_dir_at(p: Seq<char>, a: int) -> bool {
    &&& 0 <= a
    &&& a + 5 < p.len()
    &&& (a == 0 || is_sep(p[a - 1]))
    &&& p.subrange(a, a + 5) == word_tests()
    &&& is_sep(p[a + 5])
}

/// The file is named `tests.rs`.
pub open spec fn tests_file(p: Seq<char>) -> bool {
    &&& p.len() >= 8
    &&& p.subrange(p.len() - 8, p.len() as int) == file_tests_rs()
    &&& (p.len() == 8 || is_sep(p[p.len() - 9]))
}

/// A test file: one named `tests.rs` or one inside a directory named `tests`. Only
/// production files need a module header.
pub open spec fn is_test_path(p: Seq<char>) -> bool {
    tests_file(p) || exists|a: int| tests_dir_at(p, a)
}

fn is_sep_char(c: char) -> (b: bool)
    ensures
        b == is_sep(c),
{
    c == '/' || c == '\\'
}

fn matches_at(p: &Vec<char>, a: usize, w: &Vec<char>) -> (b: bool)
    ensures
        b == (a + w.len() <= p.len() && p@.subrange(a as int, a + w.len()) == w@),
{
    if a > p.len() || w.len() > p.len() - a {
        return false;
    }
    let mut k: usize = 0;
    while k < w.len()
        invariant
            a + w.len() <= p.len(),
            k <= w.len(),
            forall|j: int| 0 <= j < k ==> p@[a + j] == w@[j],
        decreases w.len() - k,
    {
        if p[a + k] != w[k] {
            assert(p@.subrange(a as int, a + w.len())[k as int] != w@[k as int]);
            return false;
        }
        k = k + 1;
    }
    assert(p@.subrange(a as int, a + w.len()) =~= w@);
    true
}

/// Decides [`is_test_path`].
pub fn is_test_path_exec(path: &str) -> (b: bool)
    ensures
        b == is_test_path(path@),
{
    let p = chars_of(path);
    let tests = vec!['t', 'e', 's', 't', 's'];
    let tests_rs = vec!['t', 'e', 's', 't', 's', '.', 'r', 's'];
    assert(tests@ =~= word_tests());
    assert(tests_rs@ =~= file_tests_rs());
    let n = p.len();
    if n >= 8 && matches_at(&p, n - 8, &tests_rs) && (n == 8 || is_sep_char(p[n - 9])) {
        return true;
    }
    let mut a: usize = 0;
    while a < n
        invariant
            a <= n == p.len(),
            p@ == path@,
            tests@ == word_tests(),
            !tests_file(p@),
            forall|j: int| 0 <= j < a ==> !tests_dir_at(p@, j),
        decreases n - a,
    {
        if (a == 0 || is_sep_char(p[a - 1])) && matches_at(&p, a, &tests) && a + 5 < n
            && is_sep_char(p[a + 5]) {
            assert(tests_dir_at(p@, a as int));
            return true;
        }
        a = a + 1;
    }
    false
}

/// A broken rule, with what the message about it reports.
#[derive(Debug, PartialEq, Eq)]
pub enum Violation {
    /// The file holds more than [`MAX_CODE_CHARS`] characters of code (Rule 2).
    CodeTooLong {
        /// The characters of code.
        code_chars: u128,
    },
    /// The file holds more than [`MAX_DOC_CHARS`] characters of comments (Rule 3).
    DocsTooLong {
        /// The characters of comments.
        doc_chars: u128,
    },
    /// The module header is shorter than [`MIN_HEADER_CHARS`] characters (Rule 1).
    HeaderTooShort {
        /// The header's characters.
        header_chars: usize,
    },
    /// A function spans more than [`MAX_FN_CHARS`] characters (Rule 4).
    FunctionTooLong {
        /// The line on which its signature starts.
        line: usize,
        /// The characters it spans.
        fn_chars: u128,
        /// Its name.
        name: String,
    },
}

/// What a [`Violation`] stands for.
pub enum ViolationModel {
    /// Too much code, with its size.
    CodeTooLong(nat),
    /// Too many comments, with their size.
    DocsTooLong(nat),
    /// A short module header, with its size.
    HeaderTooShort(nat),
    /// A long function: its line, its size and its name.
    FunctionTooLong(nat, nat, Seq<char>),
}

impl View for Violation {
    type V = ViolationModel;

    open spec fn view(&self) -> ViolationModel {
        match self {
            Violation::CodeTooLong { code_chars } => ViolationModel::CodeTooLong(*code_chars as nat),
            Violation::DocsTooLong { doc_chars } => ViolationModel::DocsTooLong(*doc_chars as nat),
            Violation::HeaderTooShort { header_chars } => ViolationModel::HeaderTooShort(
                *header_chars as nat,
            ),
            Violation::FunctionTooLong { line, fn_chars, name } => ViolationModel::FunctionTooLong(
                *line as nat,
                *fn_chars as nat,
                name@,
            ),
        }
    }
}

/// The rule that a file with file-level attributes `attrs` and items `items` breaks
/// first, in the order code budget (Rule 2), comment budget (Rule 3), module header
/// (Rule 1, production files only), function size (Rule 4, the first function in source
/// order), or none.
pub open spec fn violation_in(path: Seq<char>, content: Seq<char>, attrs: Seq<ModuleAttr>, items: Seq<OutlineItem>) -> Option<ViolationModel> {
    let lines = lines_of(content);
    let b = tally(lines, items, lines.len() as int);
    let header = module_doc_len(attrs, attrs.len() as int);
    if b.0 > MAX_CODE_CHARS {
        Some(ViolationModel::CodeTooLong(b.0))
    } else if b.1 > MAX_DOC_CHARS {
        Some(ViolationModel::DocsTooLong(b.1))
    } else if !is_test_path(path) && header < MIN_HEADER_CHARS {
        Some(ViolationModel::HeaderTooShort(header))
    } else {
        match first_too_long(lines, items, 0, MAX_FN_CHARS as nat) {
            Some(i) => {
                let f = items[i].func.unwrap();
                Some(ViolationModel::FunctionTooLong(f.sig_start.line as nat, fn_size(lines, items[i]), f.name@))
            },
            None => None,
        }
    }
}

/// The rule that the file with structure `o` breaks first (see [`violation_in`]).
pub open spec fn violation_of(path: Seq<char>, content: Seq<char>, o: Outline) -> Option<ViolationModel> {
    violation_in(path, content, o.module_attrs@, o.items@)
}

/// Finds the rule that the file at `path` with text `content` and structure `outline`
/// breaks first (see [`violation_of`]).
pub fn find_violation(path: &str, content: &str, outline: &Outline) -> (v: Option<Violation>)
    ensures
        match v {
            Some(x) => violation_of(path@, content@, *outline) == Some(x@),
            None => violation_of(path@, content@, *outline) is None,
        },
{
    let chars = chars_of(content);
    let lines = split_lines(&chars);
    let ghost ls = views(lines@);
    proof {
        lemma_lines_total(content@);
    }
    assert(chars.len() == content@.len());
    assert(ls.len() == lines.len());
    assert(ls == lines_of(content@));
    let ex = excluded_lines(&outline.items, lines.len());
    let (code, docs) = line_budgets(&lines, &outline.items, &ex);
    if code > MAX_CODE_CHARS {
        return Some(Violation::CodeTooLong { code_chars: code });
    }
    if docs > MAX_DOC_CHARS {
        return Some(Violation::DocsTooLong { doc_chars: docs });
    }
    if !is_test_path_exec(path) {
        if let Some(n) = short_header(&outline.module_attrs, MIN_HEADER_CHARS) {
            return Some(Violation::HeaderTooShort { header_chars: n });
        }
    }
    let (_, exempt) = scope_flags(&outline.items);
    let items = &outline.items;
    let mut i: usize = 0;
    while i < items.len()
        invariant
            i <= items.len(),
            items == &outline.items,
            ls == views(lines@),
            ls == lines_of(content@),
            line_total(ls, lines.len() as int) <= usize::MAX + 1,
            tally(ls, items@, ls.len() as int).0 <= MAX_CODE_CHARS,
            tally(ls, items@, ls.len() as int).1 <= MAX_DOC_CHARS,
            is_test_path(path@) || module_doc_len(outline.module_attrs@, outline.module_attrs.len() as int) >= MIN_HEADER_CHARS,
            exempt.len() == items.len(),
            forall|j: int| 0 <= j < items.len() ==> exempt@[j] == size_exempt(items@, j),
            first_too_long(ls, items@, 0, MAX_FN_CHARS as nat) == first_too_long(ls, items@, i as int, MAX_FN_CHARS as nat),
        decreases items.len() - i,
    {
        let it = &items[i];
        if let Some(f) = &it.func {
            if f.sig_start.line != 0 && f.body_end.line != 0 && f.sig_start.line <= lines.len() && !exempt[i] {
                let size = span_chars_exec(&lines, f.sig_start, f.body_end);
                if size > MAX_FN_CHARS {
                    assert(size_checked(ls, items@, i as int));
                    let name = f.name.clone();
                    return Some(Violation::FunctionTooLong { line: f.sig_start.line, fn_chars: size, name });
                }
            }
        }
        i = i + 1;
    }
    None
}

} // verus!

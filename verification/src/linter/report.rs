//! The messages that report a broken rule.
use vstd::prelude::*;
use crate::linter::violation::{find_violation, violation_in, Violation, ViolationModel};
use crate::linter::rules::{ModuleAttr, Outline, OutlineItem};
use crate::linter::text::{decimal, digit_char};

verus! {

/// The text that `{:?}` writes for the file path `s`: the path quoted, with escapes.
pub uninterp spec fn debug_text(s: Seq<char>) -> Seq<char>;

/// Formats the file path `s` with `{:?}` as a `std::path::Path`, which quotes it and
/// escapes double quotes, backslashes and control characters.
#[verifier::external_body]
fn debug_quoted(s: &str) -> (r: String)
    ensures
        r@ == debug_text(s@),
{
    format!("{:?}", std::path::Path::new(s))
}

/// The message that reports violation `v` of the file at `path`.
pub open spec fn message_of(path: Seq<char>, v: ViolationModel) -> Seq<char> {
    match v {
        ViolationModel::CodeTooLong(n) => "File "@ + debug_text(path) + " has "@ + decimal(n)
            + " logical code characters, exceeding the 10,000-character limit (AGENTS.md Rule 2).\nAction: Refactor by splitting responsibilities into smaller submodules."@,
        ViolationModel::DocsTooLong(n) => "File "@ + debug_text(path) + " has "@ + decimal(n)
            + " documentation/comment characters, exceeding the 4,000-character limit (AGENTS.md Rule 3).\nAction: Keep documentation concise to maintain high signal-to-noise ratio for LLM context."@,
        ViolationModel::HeaderTooShort(n) => "File "@ + debug_text(path)
            + " has a module/file level documentation comment (//!) of only "@ + decimal(n)
            + " characters (minimum 100 characters required, AGENTS.md Rule 1).\nAction: Every production source file must serve as a living Wiki entry detailing its purpose, responsibilities, and architecture."@,
        ViolationModel::FunctionTooLong(line, n, name) => "Function at "@ + debug_text(path)
            + ":"@ + decimal(line) + " exceeds the 2,000-character limit ("@ + decimal(n)
            + " characters, AGENTS.md Rule 4).\nFunction: "@ + name
            + "\nAction: Refactor into smaller, single-responsibility helper functions."@,
    }
}

fn digit_str(d: u128) -> (s: &'static str)
    requires
        d < 10,
    ensures
        s@ == seq![digit_char(d as nat)],
{
    proof {
        reveal_strlit("0");
        reveal_strlit("1");
        reveal_strlit("2");
        reveal_strlit("3");
        reveal_strlit("4");
        reveal_strlit("5");
        reveal_strlit("6");
        reveal_strlit("7");
        reveal_strlit("8");
        reveal_strlit("9");
    }
    if d == 0 { "0" }
    else if d == 1 { "1" }
    else if d == 2 { "2" }
    else if d == 3 { "3" }
    else if d == 4 { "4" }
    else if d == 5 { "5" }
    else if d == 6 { "6" }
    else if d == 7 { "7" }
    else if d == 8 { "8" }
    else { "9" }
}

/// Appends the decimal notation of `n` to `out`.
fn push_decimal(out: &mut String, n: u128)
    ensures
        final(out)@ == old(out)@ + decimal(n as nat),
    decreases n,
{
    if n >= 10 {
        push_decimal(out, n / 10);
        out.append(digit_str(n % 10));
        assert(decimal(n as nat) == decimal((n / 10) as nat).push(digit_char((n % 10) as nat)));
        assert(old(out)@ + decimal(n as nat) =~= old(out)@ + decimal((n / 10) as nat) + seq![digit_char((n % 10) as nat)]);
    } else {
        out.append(digit_str(n));
    }
}

/// Writes the message that reports `v` for the file at `path`.
pub fn message(path: &str, v: &Violation) -> (m: String)
    ensures
        m@ == message_of(path@, v@),
{
    let mut m = String::new();
    match v {
        Violation::CodeTooLong { code_chars } => {
            m.append("File ");
            m.append(debug_quoted(path).as_str());
            m.append(" has ");
            push_decimal(&mut m, *code_chars);
            m.append(" logical code characters, exceeding the 10,000-character limit (AGENTS.md Rule 2).\nAction: Refactor by splitting responsibilities into smaller submodules.");
        },
        Violation::DocsTooLong { doc_chars } => {
            m.append("File ");
            m.append(debug_quoted(path).as_str());
            m.append(" has ");
            push_decimal(&mut m, *doc_chars);
            m.append(" documentation/comment characters, exceeding the 4,000-character limit (AGENTS.md Rule 3).\nAction: Keep documentation concise to maintain high signal-to-noise ratio for LLM context.");
        },
        Violation::HeaderTooShort { header_chars } => {
            m.append("File ");
            m.append(debug_quoted(path).as_str());
            m.append(" has a module/file level documentation comment (//!) of only ");
            push_decimal(&mut m, *header_chars as u128);
            m.append(" characters (minimum 100 characters required, AGENTS.md Rule 1).\nAction: Every production source file must serve as a living Wiki entry detailing its purpose, responsibilities, and architecture.");
        },
        Violation::FunctionTooLong { line, fn_chars, name } => {
            m.append("Function at ");
            m.append(debug_quoted(path).as_str());
            m.append(":");
            push_decimal(&mut m, *line as u128);
            m.append(" exceeds the 2,000-character limit (");
            push_decimal(&mut m, *fn_chars);
            m.append(" characters, AGENTS.md Rule 4).\nFunction: ");
            m.append(name.as_str());
            m.append("\nAction: Refactor into smaller, single-responsibility helper functions.");
        },
    }
    m
}

/// The result of checking a file with file-level attributes `attrs` and items `items`: no
/// violation, or the message about the first one.
pub open spec fn lint_result_in(path: Seq<char>, content: Seq<char>, attrs: Seq<ModuleAttr>, items: Seq<OutlineItem>) -> Result<(), Seq<char>> {
    match violation_in(path, content, attrs, items) {
        Some(v) => Err(message_of(path, v)),
        None => Ok(()),
    }
}

/// The result of checking a file with structure `o` (see [`lint_result_in`]).
pub open spec fn lint_result(path: Seq<char>, content: Seq<char>, o: Outline) -> Result<(), Seq<char>> {
    lint_result_in(path, content, o.module_attrs@, o.items@)
}

/// Checks the file at `path` with text `content` and structure `outline` against the four
/// rules, and reports the first rule it breaks.
pub fn check_outline(path: &str, content: &str, outline: &Outline) -> (r: Result<(), String>)
    ensures
        match r {
            Ok(()) => lint_result(path@, content@, *outline) == Ok::<(), Seq<char>>(()),
            Err(m) => lint_result(path@, content@, *outline) == Err::<(), Seq<char>>(m@),
        },
{
    match find_violation(path, content, outline) {
        Some(v) => Err(message(path, &v)),
        None => Ok(()),
    }
}

} // verus!

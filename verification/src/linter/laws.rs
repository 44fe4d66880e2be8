//! Properties of the linter that hold for every input.
use vstd::prelude::*;
use crate::linter::meta::{
    attr_marks_test, cfg_requires_test, lex, list_at, path_end, pred_at, word_test, TokenModel,
};
use crate::linter::rules::{
    in_test_code, lemma_lines_total, lemma_tally_bound, line_excluded, own_test, size_exempt, tally,
    OutlineItem,
};
use crate::linter::text::{decimal, is_space, lines_of};
use crate::linter::scan::{opens_comment, scan, scan_line_spec, LexState};
use crate::linter::violation::ViolationModel;
use crate::linter::report::{debug_text, message_of};

verus! {

/// Test code does not count toward the code and comment budgets: two texts with the same
/// number of lines that differ only on lines of test code have the same budgets.
pub proof fn law_test_code_does_not_count(
    a: Seq<Seq<char>>,
    b: Seq<Seq<char>>,
    items: Seq<OutlineItem>,
    n: int,
)
    requires
        a.len() == b.len(),
        0 <= n <= a.len(),
        forall|l: int| 0 <= l < a.len() && !line_excluded(items, l + 1) ==> a[l] == b[l],
    ensures
        tally(a, items, n) == tally(b, items, n),
    decreases n,
{
    if n > 0 {
        law_test_code_does_not_count(a, b, items, n - 1);
        if !line_excluded(items, n) {
            assert(a[n - 1] == b[n - 1]);
        }
    }
}

/// The two budgets of a text together never count more than its characters plus one:
/// each line is counted once, with its line ending.
pub proof fn law_budgets_fit_the_text(s: Seq<char>, items: Seq<OutlineItem>)
    ensures
        tally(lines_of(s), items, lines_of(s).len() as int).0 + tally(
            lines_of(s),
            items,
            lines_of(s).len() as int,
        ).1 <= s.len() + 1,
{
    lemma_lines_total(s);
    lemma_tally_bound(lines_of(s), items, lines_of(s).len() as int);
}

/// Item `a` contains item `j`, directly or through other items.
pub open spec fn encloses(items: Seq<OutlineItem>, a: int, j: int) -> bool
    decreases j,
{
    if 0 <= j < items.len() {
        match items[j].parent {
            Some(p) => p < j && (p == a || encloses(items, a, p as int)),
            None => false,
        }
    } else {
        false
    }
}

/// Everything inside test code is test code, and everything inside an item exempt from
/// the function size limit (test code, or an item with `allow(clippy::too_many_lines)`)
/// is exempt too: such an attribute on an `impl` block or a module covers its functions.
pub proof fn law_scopes_are_inherited(items: Seq<OutlineItem>, a: int, j: int)
    requires
        encloses(items, a, j),
    ensures
        in_test_code(items, a) ==> in_test_code(items, j),
        size_exempt(items, a) ==> size_exempt(items, j),
    decreases j,
{
    let p = items[j].parent.unwrap() as int;
    if p != a {
        law_scopes_are_inherited(items, a, p);
    }
}

/// Test code is never held to the function size limit.
pub proof fn law_test_code_is_exempt(items: Seq<OutlineItem>, i: int)
    requires
        in_test_code(items, i),
    ensures
        size_exempt(items, i),
    decreases i,
{
    if !own_test(items[i]) {
        law_test_code_is_exempt(items, items[i].parent.unwrap() as int);
    }
}

proof fn lemma_pred_names_test(t: Seq<TokenModel>, i: int)
    requires
        pred_at(t, i) matches Some((b, _)) && b,
    ensures
        exists|k: int| i <= k < t.len() && t[k] == TokenModel::Ident(word_test()),
    decreases t.len() - i, 0int,
{
    if let TokenModel::Ident(w) = t[i] {
        if i + 1 < t.len() && t[i + 1] == TokenModel::Equals {
        } else if i + 1 < t.len() && t[i + 1] == TokenModel::Open {
            lemma_list_names_test(t, i + 2);
        } else {
            assert(t[i] == TokenModel::Ident(word_test()));
        }
    }
}

proof fn lemma_list_names_test(t: Seq<TokenModel>, j: int)
    requires
        list_at(t, j) matches Some((s, a, n, _)) && (s || (a && n)),
    ensures
        exists|k: int| j <= k < t.len() && t[k] == TokenModel::Ident(word_test()),
    decreases t.len() - j, 1int,
{
    if t[j] != TokenModel::Close {
        let (b, k) = pred_at(t, j).unwrap();
        if b {
            lemma_pred_names_test(t, j);
        } else {
            lemma_list_names_test(t, k + 1);
        }
    }
}

/// Only the word `test` makes code test code: an attribute that marks test code holds
/// `test` as a word of its own, never only inside a string literal such as
/// `feature = "test-utils"`.
pub proof fn law_only_the_word_test_marks_tests(meta: Seq<char>)
    requires
        attr_marks_test(meta),
    ensures
        exists|k: int| 0 <= k < lex(meta).len() && lex(meta)[k] == TokenModel::Ident(word_test()),
{
    let t = lex(meta);
    if cfg_requires_test(t) {
        lemma_pred_names_test(t, 2);
    } else {
        lemma_path_end_bounds(t, 0);
        assert(t[path_end(t, 0) - 1] == TokenModel::Ident(word_test()));
    }
}

proof fn lemma_path_end_bounds(t: Seq<TokenModel>, i: int)
    requires
        0 <= i < t.len(),
    ensures
        i < path_end(t, i) <= t.len(),
    decreases t.len() - i,
{
    if 0 <= i && i + 3 < t.len() && t[i + 1] == TokenModel::Colon && t[i + 2] == TokenModel::Colon
        && t[i + 3] is Ident {
        lemma_path_end_bounds(t, i + 3);
    }
}


/// `w` occurs in `m`.
pub open spec fn contains_seq(m: Seq<char>, w: Seq<char>) -> bool {
    exists|i: int| 0 <= i && i + w.len() <= m.len() && #[trigger] m.subrange(i, i + w.len()) == w
}

/// The rule that a violation breaks, as its report names it.
pub open spec fn rule_tag(v: ViolationModel) -> Seq<char> {
    match v {
        ViolationModel::CodeTooLong(_) => "Rule 2"@,
        ViolationModel::DocsTooLong(_) => "Rule 3"@,
        ViolationModel::HeaderTooShort(_) => "Rule 1"@,
        ViolationModel::FunctionTooLong(_, _, _) => "Rule 4"@,
    }
}

proof fn lemma_found_in(pre: Seq<char>, lit: Seq<char>, off: int, w: Seq<char>)
    requires
        0 <= off,
        off + w.len() <= lit.len(),
        lit.subrange(off, off + w.len()) == w,
    ensures
        contains_seq(pre + lit, w),
{
    let i = pre.len() + off;
    assert((pre + lit).subrange(i, i + w.len()) =~= w);
}

proof fn lemma_found_before(m: Seq<char>, post: Seq<char>, w: Seq<char>)
    requires
        contains_seq(m, w),
    ensures
        contains_seq(m + post, w),
{
    let i = choose|i: int| 0 <= i && i + w.len() <= m.len() && #[trigger] m.subrange(i, i + w.len()) == w;
    assert((m + post).subrange(i, i + w.len()) =~= m.subrange(i, i + w.len()));
}

/// Every report names the rule that was broken ("Rule 1" to "Rule 4").
pub proof fn law_reports_name_their_rule(path: Seq<char>, v: ViolationModel)
    ensures
        contains_seq(message_of(path, v), rule_tag(v)),
{
    match v {
        ViolationModel::CodeTooLong(n) => {
            let lit = " logical code characters, exceeding the 10,000-character limit (AGENTS.md Rule 2).\nAction: Refactor by splitting responsibilities into smaller submodules."@;
            reveal_strlit(" logical code characters, exceeding the 10,000-character limit (AGENTS.md Rule 2).\nAction: Refactor by splitting responsibilities into smaller submodules.");
            reveal_strlit("Rule 2");
            assert(lit.subrange(74, 80) =~= "Rule 2"@);
            lemma_found_in("File "@ + debug_text(path) + " has "@ + decimal(n), lit, 74, "Rule 2"@);
        },
        ViolationModel::DocsTooLong(n) => {
            let lit = " documentation/comment characters, exceeding the 4,000-character limit (AGENTS.md Rule 3).\nAction: Keep documentation concise to maintain high signal-to-noise ratio for LLM context."@;
            reveal_strlit(" documentation/comment characters, exceeding the 4,000-character limit (AGENTS.md Rule 3).\nAction: Keep documentation concise to maintain high signal-to-noise ratio for LLM context.");
            reveal_strlit("Rule 3");
            assert(lit.subrange(82, 88) =~= "Rule 3"@);
            lemma_found_in("File "@ + debug_text(path) + " has "@ + decimal(n), lit, 82, "Rule 3"@);
        },
        ViolationModel::HeaderTooShort(n) => {
            let lit = " characters (minimum 100 characters required, AGENTS.md Rule 1).\nAction: Every production source file must serve as a living Wiki entry detailing its purpose, responsibilities, and architecture."@;
            reveal_strlit(" characters (minimum 100 characters required, AGENTS.md Rule 1).\nAction: Every production source file must serve as a living Wiki entry detailing its purpose, responsibilities, and architecture.");
            reveal_strlit("Rule 1");
            assert(lit.subrange(56, 62) =~= "Rule 1"@);
            lemma_found_in(
                "File "@ + debug_text(path) + " has a module/file level documentation comment (//!) of only "@ + decimal(n),
                lit,
                56,
                "Rule 1"@,
            );
        },
        ViolationModel::FunctionTooLong(line, n, name) => {
            let lit = " characters, AGENTS.md Rule 4).\nFunction: "@;
            reveal_strlit(" characters, AGENTS.md Rule 4).\nFunction: ");
            reveal_strlit("Rule 4");
            assert(lit.subrange(23, 29) =~= "Rule 4"@);
            let pre = "Function at "@ + debug_text(path) + ":"@ + decimal(line)
                + " exceeds the 2,000-character limit ("@ + decimal(n);
            lemma_found_in(pre, lit, 23, "Rule 4"@);
            lemma_found_before(pre + lit, name, "Rule 4"@);
            lemma_found_before(pre + lit + name, "\nAction: Refactor into smaller, single-responsibility helper functions."@, "Rule 4"@);
        },
    }
}


/// Some character from position `j` on is not white space.
pub open spec fn has_visible(line: Seq<char>, j: int) -> bool {
    exists|k: int| j <= k < line.len() && !is_space(#[trigger] line[k])
}

proof fn lemma_visible_step(line: Seq<char>, j: int)
    requires
        0 <= j < line.len(),
    ensures
        has_visible(line, j) == (!is_space(line[j]) || has_visible(line, j + 1)),
{
    if has_visible(line, j) {
        let k = choose|k: int| j <= k < line.len() && !is_space(#[trigger] line[k]);
        if k > j {
            assert(has_visible(line, j + 1));
        }
    }
    if has_visible(line, j + 1) {
        let k = choose|k: int| j + 1 <= k < line.len() && !is_space(#[trigger] line[k]);
        assert(j <= k);
    }
}

proof fn lemma_raw_scan(line: Seq<char>, j: int, h: usize, code: bool)
    requires
        0 <= j <= line.len(),
        forall|k: int| 0 <= k < line.len() ==> line[k] != '"',
    ensures
        scan(line, j, LexState::Raw(h), code) == (code || has_visible(line, j), LexState::Raw(h)),
    decreases line.len() - j,
{
    if j < line.len() {
        lemma_raw_scan(line, j + 1, h, code || !is_space(line[j]));
        lemma_visible_step(line, j);
    }
}

/// Comment markers inside a raw string are not comments: a line without a quote, read
/// inside a raw string, stays inside it and counts as code unless it is blank.
pub proof fn law_raw_strings_hide_comment_markers(line: Seq<char>, h: usize)
    requires
        forall|k: int| 0 <= k < line.len() ==> line[k] != '"',
    ensures
        scan_line_spec(line, LexState::Raw(h)) == (has_visible(line, 0), LexState::Raw(h)),
{
    lemma_raw_scan(line, 0, h, false);
}

proof fn lemma_str_scan(line: Seq<char>, j: int, code: bool)
    requires
        0 <= j <= line.len(),
        forall|k: int| 0 <= k < line.len() ==> line[k] != '"' && line[k] != '\\',
    ensures
        scan(line, j, LexState::Str, code) == (code || has_visible(line, j), LexState::Str),
    decreases line.len() - j,
{
    if j < line.len() {
        lemma_str_scan(line, j + 1, code || !is_space(line[j]));
        lemma_visible_step(line, j);
    }
}

/// Comment markers inside a string literal are not comments: a line without a quote or a
/// backslash, read inside a string, stays inside it and counts as code unless it is blank.
pub proof fn law_strings_hide_comment_markers(line: Seq<char>)
    requires
        forall|k: int| 0 <= k < line.len() ==> line[k] != '"' && line[k] != '\\',
    ensures
        scan_line_spec(line, LexState::Str) == (has_visible(line, 0), LexState::Str),
{
    lemma_str_scan(line, 0, false);
}

proof fn lemma_line_comment_rest(line: Seq<char>, j: int)
    requires
        0 <= j <= line.len(),
    ensures
        scan(line, j, LexState::LineComment, false) == (false, LexState::Code),
    decreases line.len() - j,
{
    if j < line.len() {
        lemma_line_comment_rest(line, j + 1);
    }
}

proof fn lemma_space_prefix_scan(line: Seq<char>, i: int, j: int)
    requires
        0 <= i <= j < line.len(),
        forall|k: int| 0 <= k < j ==> is_space(#[trigger] line[k]),
        scan(line, j, LexState::Code, false) == (false, LexState::Code),
    ensures
        scan(line, i, LexState::Code, false) == (false, LexState::Code),
    decreases j - i,
{
    if i < j {
        lemma_space_prefix_scan(line, i + 1, j);
        assert(is_space(line[i]));
    }
}

/// A line comment holds no code: a line whose first visible characters are `//`, read
/// in code, counts as comments and leaves the scanner in code.
pub proof fn law_line_comments_are_not_code(line: Seq<char>, j: int)
    requires
        0 <= j,
        j + 1 < line.len(),
        forall|k: int| 0 <= k < j ==> is_space(#[trigger] line[k]),
        line[j] == '/',
        line[j + 1] == '/',
    ensures
        scan_line_spec(line, LexState::Code) == (false, LexState::Code),
{
    lemma_line_comment_rest(line, j + 2);
    assert(scan(line, j, LexState::Code, false) == (false, LexState::Code));
    lemma_space_prefix_scan(line, 0, j);
}

/// A comment line holds no code, whatever follows the comment on it: a line that starts
/// inside a block comment, or whose first visible characters open a comment, counts as
/// comments.
pub proof fn law_comment_lines_count_as_comments(line: Seq<char>, st: LexState)
    requires
        st is Block || (st == LexState::Code && opens_comment(line)),
    ensures
        !scan_line_spec(line, st).0,
{
}

} // verus!

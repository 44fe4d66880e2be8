//! Properties of the linter's reading of lines, attributes and paths that hold for every
//! input: what a scanned line leaves behind, which `cfg` predicates require tests, which
//! attributes make an item test code or lift the size limit, and which paths are test
//! files.
use vstd::prelude::*;
use crate::linter::meta::{
    attr_allows_long_fn, attr_is_doc, attr_marks_test, list_at, path_end, pred_at, test_marker, word_all,
    word_any, word_test, TokenModel,
};
use crate::linter::rules::{
    first_too_long, fn_size, in_test_code, line_total, module_doc_len, size_checked, size_exempt,
    seg_chars, span_chars, span_sum, LineCol, ModuleAttr, OutlineItem,
};
use crate::linter::scan::{hashes, scan, scan_line_spec, step, LexState};
use crate::linter::text::{is_space, trim};
use crate::linter::violation::{is_sep, is_test_path, tests_dir_at, tests_file};

verus! {

/// A character that, read in code, is code and changes nothing about where the scanner
/// stands: anything but a quote, an apostrophe, a slash and `r`.
pub open spec fn plain_code_char(c: char) -> bool {
    c != '"' && c != '\'' && c != '/' && c != 'r'
}

/// A character that, read inside a string literal, neither closes nor escapes.
pub open spec fn plain_string_char(c: char) -> bool {
    c != '"' && c != '\\'
}

proof fn lemma_scan_state_ignores_flag(line: Seq<char>, j: int, st: LexState, c1: bool, c2: bool)
    ensures
        scan(line, j, st, c1).1 == scan(line, j, st, c2).1,
    decreases line.len() - j,
{
    if 0 <= j < line.len() {
        let (k, next, c) = step(line, j, st);
        if j < k <= line.len() {
            lemma_scan_state_ignores_flag(line, k, next, c1 || c, c2 || c);
        }
    }
}

proof fn lemma_code_run(line: Seq<char>, j: int, k: int, c: bool)
    requires
        0 <= j <= k <= line.len(),
        forall|i: int| j <= i < k ==> plain_code_char(#[trigger] line[i]),
    ensures
        scan(line, j, LexState::Code, c).1 == scan(line, k, LexState::Code, c).1,
    decreases k - j,
{
    if j < k {
        assert(plain_code_char(line[j]));
        let (n, next, x) = step(line, j, LexState::Code);
        assert(n == j + 1 && next == LexState::Code);
        lemma_code_run(line, j + 1, k, c || x);
        lemma_scan_state_ignores_flag(line, j + 1, LexState::Code, c || x, c);
        lemma_scan_state_ignores_flag(line, k, LexState::Code, c || x, c);
    }
}

proof fn lemma_string_run(line: Seq<char>, j: int, k: int, c: bool)
    requires
        0 <= j <= k <= line.len(),
        forall|i: int| j <= i < k ==> plain_string_char(#[trigger] line[i]),
    ensures
        scan(line, j, LexState::Str, c).1 == scan(line, k, LexState::Str, c).1,
    decreases k - j,
{
    if j < k {
        assert(plain_string_char(line[j]));
        let (n, next, x) = step(line, j, LexState::Str);
        assert(n == j + 1 && next == LexState::Str);
        lemma_string_run(line, j + 1, k, c || x);
        lemma_scan_state_ignores_flag(line, j + 1, LexState::Str, c || x, c);
        lemma_scan_state_ignores_flag(line, k, LexState::Str, c || x, c);
    }
}

/// In a string literal a backslash escapes the next character: a line read in code that
/// holds, between plain code, one complete string literal whose text holds an escaped
/// quote `\"` ends back in code, so the scanner reads the next line as code or comments
/// by what that line holds.
pub proof fn law_escaped_quotes_stay_inside_strings(pre: Seq<char>, a: Seq<char>, b: Seq<char>, post: Seq<char>)
    requires
        forall|i: int| 0 <= i < pre.len() ==> plain_code_char(#[trigger] pre[i]),
        forall|i: int| 0 <= i < a.len() ==> plain_string_char(#[trigger] a[i]),
        forall|i: int| 0 <= i < b.len() ==> plain_string_char(#[trigger] b[i]),
        forall|i: int| 0 <= i < post.len() ==> plain_code_char(#[trigger] post[i]),
    ensures
        scan_line_spec(pre + seq!['"'] + a + seq!['\\', '"'] + b + seq!['"'] + post, LexState::Code).1
            == LexState::Code,
{
    let line = pre + seq!['"'] + a + seq!['\\', '"'] + b + seq!['"'] + post;
    let p0 = pre.len() as int;
    let a0 = p0 + 1;
    let e0 = a0 + a.len();
    let b0 = e0 + 2;
    let q0 = b0 + b.len();
    let z0 = q0 + 1;
    assert(line.len() == z0 + post.len());
    assert forall|i: int| 0 <= i < p0 implies plain_code_char(#[trigger] line[i]) by {
        assert(line[i] == pre[i]);
    }
    assert(line[p0] == '"');
    assert forall|i: int| a0 <= i < e0 implies plain_string_char(#[trigger] line[i]) by {
        assert(line[i] == a[i - a0]);
    }
    assert(line[e0] == '\\');
    assert(line[e0 + 1] == '"');
    assert forall|i: int| b0 <= i < q0 implies plain_string_char(#[trigger] line[i]) by {
        assert(line[i] == b[i - b0]);
    }
    assert(line[q0] == '"');
    assert forall|i: int| z0 <= i < line.len() implies plain_code_char(#[trigger] line[i]) by {
        assert(line[i] == post[i - z0]);
    }
    lemma_code_run(line, 0, p0, false);
    let (n1, s1, x1) = step(line, p0, LexState::Code);
    assert(n1 == a0 && s1 == LexState::Str);
    lemma_scan_state_ignores_flag(line, a0, LexState::Str, false || x1, false);
    lemma_string_run(line, a0, e0, false);
    let (n2, s2, x2) = step(line, e0, LexState::Str);
    assert(n2 == b0 && s2 == LexState::Str);
    lemma_scan_state_ignores_flag(line, b0, LexState::Str, false || x2, false);
    lemma_string_run(line, b0, q0, false);
    let (n3, s3, x3) = step(line, q0, LexState::Str);
    assert(n3 == z0 && s3 == LexState::Code);
    lemma_scan_state_ignores_flag(line, z0, LexState::Code, false || x3, false);
    lemma_code_run(line, z0, line.len() as int, false);
}

/// Token `k` starts a part of the comma-separated list of predicates that starts at token
/// `j`.
pub open spec fn part_at(t: Seq<TokenModel>, j: int, k: int) -> bool
    decreases t.len() - j,
{
    if 0 <= j < t.len() && t[j] != TokenModel::Close {
        k == j || match pred_at(t, j) {
            Some((_, m)) => j < m < t.len() && t[m] == TokenModel::Comma && part_at(t, m + 1, k),
            None => false,
        }
    } else {
        false
    }
}

/// The predicate at token `k` can only hold when compiling tests.
pub open spec fn part_requires_test(t: Seq<TokenModel>, k: int) -> bool {
    pred_at(t, k) matches Some((b, _)) && b
}

/// A list of predicates is judged part by part, whatever their order: some part requires
/// tests exactly when one of its parts does, every part does exactly when each of them
/// does, and it has a part exactly when one starts.
pub proof fn law_lists_are_judged_part_by_part(t: Seq<TokenModel>, j: int)
    requires
        list_at(t, j) is Some,
    ensures
        list_at(t, j).unwrap().0 <==> (exists|k: int| part_at(t, j, k) && part_requires_test(t, k)),
        list_at(t, j).unwrap().1 <==> (forall|k: int| part_at(t, j, k) ==> part_requires_test(t, k)),
        list_at(t, j).unwrap().2 <==> (exists|k: int| #[trigger] part_at(t, j, k)),
    decreases t.len() - j,
{
    if t[j] == TokenModel::Close {
        assert forall|k: int| !part_at(t, j, k) by {}
    } else {
        let (b, m) = pred_at(t, j).unwrap();
        assert(part_at(t, j, j));
        assert(part_requires_test(t, j) == b);
        if t[m] == TokenModel::Close {
            assert(list_at(t, j) == Some((b, b, true, m + 1)));
            assert forall|k: int| part_at(t, j, k) implies k == j by {}
            if b {
                assert(part_at(t, j, j) && part_requires_test(t, j));
            }
            if !b {
                assert(!(part_at(t, j, j) ==> part_requires_test(t, j)));
            }
        } else {
            assert(t[m] == TokenModel::Comma);
            let (s2, a2, n2, e2) = list_at(t, m + 1).unwrap();
            assert(list_at(t, j) == Some((b || s2, b && a2, true, e2)));
            law_lists_are_judged_part_by_part(t, m + 1);
            assert forall|k: int| part_at(t, j, k) <==> (k == j || part_at(t, m + 1, k)) by {}
            if b {
                assert(part_at(t, j, j) && part_requires_test(t, j));
            }
            if s2 {
                let w = choose|k: int| part_at(t, m + 1, k) && part_requires_test(t, k);
                assert(part_at(t, j, w) && part_requires_test(t, w));
            }
            if !b {
                assert(!(part_at(t, j, j) ==> part_requires_test(t, j)));
            }
            if !a2 {
                let w = choose|k: int| !(part_at(t, m + 1, k) ==> part_requires_test(t, k));
                assert(part_at(t, j, w));
                assert(!(part_at(t, j, w) ==> part_requires_test(t, w)));
            }
        }
    }
}

/// `all(..)` requires tests exactly when one of its parts does, in any position, and
/// `any(..)` exactly when it has parts and each of them does.
pub proof fn law_all_and_any_judge_every_part(t: Seq<TokenModel>, i: int)
    requires
        0 <= i && i + 1 < t.len(),
        t[i + 1] == TokenModel::Open,
        pred_at(t, i) is Some,
    ensures
        t[i] == TokenModel::Ident(word_all()) ==> (pred_at(t, i).unwrap().0 <==> exists|k: int|
            part_at(t, i + 2, k) && part_requires_test(t, k)),
        t[i] == TokenModel::Ident(word_any()) ==> (pred_at(t, i).unwrap().0 <==> ((exists|k: int|
            #[trigger] part_at(t, i + 2, k)) && forall|k: int| part_at(t, i + 2, k) ==> part_requires_test(t, k))),
{
    law_lists_are_judged_part_by_part(t, i + 2);
}

/// Every attribute of an item counts, whatever its position and whatever other attributes
/// stand beside it (such as doc comments): an item with an attribute that marks test code
/// is test code, and one with `allow(clippy::too_many_lines)` is exempt from the function
/// size limit.
pub proof fn law_every_attribute_counts(items: Seq<OutlineItem>, i: int, k: int)
    requires
        0 <= i < items.len(),
        0 <= k < items[i].attrs.len(),
    ensures
        attr_marks_test(items[i].attrs@[k]@) ==> in_test_code(items, i),
        attr_marks_test(items[i].attrs@[k]@) ==> size_exempt(items, i),
        attr_allows_long_fn(items[i].attrs@[k]@) ==> size_exempt(items, i),
{
}

/// Only a whole path component makes a test file: a test path has a directory named
/// exactly `tests` or a file named exactly `tests.rs`, between separators (`/` or `\`)
/// or the path's ends; `contests/` or `my_tests.rs` do not count.
pub proof fn law_test_paths_name_whole_components(p: Seq<char>)
    requires
        is_test_path(p),
    ensures
        exists|a: int, b: int|
            #![trigger p.subrange(a, b)]
            0 <= a <= b <= p.len() && (a == 0 || is_sep(p[a - 1])) && ((b < p.len()
                && is_sep(p[b]) && p.subrange(a, b) == seq!['t', 'e', 's', 't', 's'])
                || (b == p.len() && p.subrange(a, b) == seq!['t', 'e', 's', 't', 's', '.', 'r', 's'])),
{
    if tests_file(p) {
        let a = p.len() - 8;
        assert(p.subrange(a, p.len() as int) =~= seq!['t', 'e', 's', 't', 's', '.', 'r', 's']);
        assert(a == 0 || is_sep(p[a - 1]));
        let b = p.len() as int;
        assert(0 <= a <= b <= p.len() && (a == 0 || is_sep(p[a - 1])) && b == p.len()
            && p.subrange(a, b) == seq!['t', 'e', 's', 't', 's', '.', 'r', 's']);
    } else {
        let a = choose|a: int| tests_dir_at(p, a);
        assert(p.subrange(a, a + 5) =~= seq!['t', 'e', 's', 't', 's']);
        assert(a == 0 || is_sep(p[a - 1]));
        let b = a + 5;
        assert(0 <= a <= b <= p.len() && (a == 0 || is_sep(p[a - 1])) && b < p.len() && is_sep(p[b])
            && p.subrange(a, b) == seq!['t', 'e', 's', 't', 's']);
    }
}

/// A character literal holds any character, a quote included, without opening a string:
/// a line of plain code with a character literal `'c'` in it ends back in code.
pub proof fn law_char_literals_open_nothing(pre: Seq<char>, c: char, post: Seq<char>)
    requires
        c != '\\',
        forall|i: int| 0 <= i < pre.len() ==> plain_code_char(#[trigger] pre[i]),
        forall|i: int| 0 <= i < post.len() ==> plain_code_char(#[trigger] post[i]),
    ensures
        scan_line_spec(pre + seq!['\'', c, '\''] + post, LexState::Code).1 == LexState::Code,
{
    let line = pre + seq!['\'', c, '\''] + post;
    let p0 = pre.len() as int;
    let z0 = p0 + 3;
    assert forall|i: int| 0 <= i < p0 implies plain_code_char(#[trigger] line[i]) by {
        assert(line[i] == pre[i]);
    }
    assert forall|i: int| z0 <= i < line.len() implies plain_code_char(#[trigger] line[i]) by {
        assert(line[i] == post[i - z0]);
    }
    assert(line[p0] == '\'' && line[p0 + 1] == c && line[p0 + 2] == '\'');
    lemma_code_run(line, 0, p0, false);
    let (n1, s1, x1) = step(line, p0, LexState::Code);
    assert(n1 == z0 && s1 == LexState::Code);
    lemma_scan_state_ignores_flag(line, z0, LexState::Code, false || x1, false);
    lemma_code_run(line, z0, line.len() as int, false);
}

/// A character that neither opens nor closes a block comment.
pub open spec fn plain_comment_char(c: char) -> bool {
    c != '/' && c != '*'
}

proof fn lemma_comment_run(line: Seq<char>, j: int, k: int, d: usize, c: bool)
    requires
        0 <= j <= k <= line.len(),
        forall|i: int| j <= i < k ==> plain_comment_char(#[trigger] line[i]),
    ensures
        scan(line, j, LexState::Block(d), c).1 == scan(line, k, LexState::Block(d), c).1,
    decreases k - j,
{
    if j < k {
        assert(plain_comment_char(line[j]));
        let (n, next, x) = step(line, j, LexState::Block(d));
        assert(n == j + 1 && next == LexState::Block(d));
        lemma_comment_run(line, j + 1, k, d, c || x);
        lemma_scan_state_ignores_flag(line, j + 1, LexState::Block(d), c || x, c);
        lemma_scan_state_ignores_flag(line, k, LexState::Block(d), c || x, c);
    }
}

/// Block comments nest: on a line of plain code, `/* .. */` closes the comment it opened
/// and the line ends in code, while `/* /* .. */` leaves one comment open.
pub proof fn law_block_comments_nest(pre: Seq<char>, a: Seq<char>, post: Seq<char>)
    requires
        forall|i: int| 0 <= i < pre.len() ==> plain_code_char(#[trigger] pre[i]),
        forall|i: int| 0 <= i < a.len() ==> plain_comment_char(#[trigger] a[i]),
        forall|i: int| 0 <= i < post.len() ==> plain_code_char(#[trigger] post[i]),
    ensures
        scan_line_spec(pre + seq!['/', '*'] + a + seq!['*', '/'] + post, LexState::Code).1
            == LexState::Code,
        scan_line_spec(pre + seq!['/', '*', '/', '*'] + a + seq!['*', '/'], LexState::Code).1
            == LexState::Block(1),
{
    let line = pre + seq!['/', '*'] + a + seq!['*', '/'] + post;
    let p0 = pre.len() as int;
    let a0 = p0 + 2;
    let e0 = a0 + a.len();
    let z0 = e0 + 2;
    assert forall|i: int| 0 <= i < p0 implies plain_code_char(#[trigger] line[i]) by {
        assert(line[i] == pre[i]);
    }
    assert forall|i: int| a0 <= i < e0 implies plain_comment_char(#[trigger] line[i]) by {
        assert(line[i] == a[i - a0]);
    }
    assert forall|i: int| z0 <= i < line.len() implies plain_code_char(#[trigger] line[i]) by {
        assert(line[i] == post[i - z0]);
    }
    assert(line[p0] == '/' && line[p0 + 1] == '*' && line[e0] == '*' && line[e0 + 1] == '/');
    lemma_code_run(line, 0, p0, false);
    let (n1, s1, x1) = step(line, p0, LexState::Code);
    assert(n1 == a0 && s1 == LexState::Block(1));
    lemma_scan_state_ignores_flag(line, a0, LexState::Block(1), false || x1, false);
    lemma_comment_run(line, a0, e0, 1, false);
    let (n2, s2, x2) = step(line, e0, LexState::Block(1));
    assert(n2 == z0 && s2 == LexState::Code);
    lemma_scan_state_ignores_flag(line, z0, LexState::Code, false || x2, false);
    lemma_code_run(line, z0, line.len() as int, false);

    let nested = pre + seq!['/', '*', '/', '*'] + a + seq!['*', '/'];
    let b0 = p0 + 4;
    let f0 = b0 + a.len();
    assert forall|i: int| 0 <= i < p0 implies plain_code_char(#[trigger] nested[i]) by {
        assert(nested[i] == pre[i]);
    }
    assert forall|i: int| b0 <= i < f0 implies plain_comment_char(#[trigger] nested[i]) by {
        assert(nested[i] == a[i - b0]);
    }
    assert(nested[p0] == '/' && nested[p0 + 1] == '*' && nested[p0 + 2] == '/' && nested[p0 + 3] == '*');
    assert(nested[f0] == '*' && nested[f0 + 1] == '/' && nested.len() == f0 + 2);
    lemma_code_run(nested, 0, p0, false);
    let (m1, t1, y1) = step(nested, p0, LexState::Code);
    assert(m1 == p0 + 2 && t1 == LexState::Block(1));
    lemma_scan_state_ignores_flag(nested, p0 + 2, LexState::Block(1), false || y1, false);
    let (m2, t2, y2) = step(nested, p0 + 2, LexState::Block(1));
    assert(m2 == b0 && t2 == LexState::Block(2));
    lemma_scan_state_ignores_flag(nested, b0, LexState::Block(2), false || y2, false);
    lemma_comment_run(nested, b0, f0, 2, false);
    let (m3, t3, y3) = step(nested, f0, LexState::Block(2));
    assert(m3 == f0 + 2 && t3 == LexState::Block(1));
    lemma_scan_state_ignores_flag(nested, f0 + 2, LexState::Block(1), false || y3, false);
    assert(scan(nested, f0 + 2, LexState::Block(1), false).1 == LexState::Block(1));
    assert(scan(nested, f0, LexState::Block(2), false).1 == LexState::Block(1));
    assert(scan(nested, b0, LexState::Block(2), false).1 == LexState::Block(1));
    assert(scan(nested, p0 + 2, LexState::Block(1), false).1 == LexState::Block(1));
    assert(scan(nested, p0, LexState::Code, false).1 == LexState::Block(1));
    assert(scan(nested, 0, LexState::Code, false).1 == LexState::Block(1));
}

/// The rule of the function size limit looks at functions in source order and reports the
/// first one that is held to the limit and exceeds it: every function before it is within
/// the limit or exempt.
pub proof fn law_the_first_long_function_is_reported(lines: Seq<Seq<char>>, items: Seq<OutlineItem>, i: int, limit: nat)
    requires
        0 <= i,
        first_too_long(lines, items, i, limit) is Some,
    ensures
        i <= first_too_long(lines, items, i, limit).unwrap() < items.len(),
        size_checked(lines, items, first_too_long(lines, items, i, limit).unwrap()),
        fn_size(lines, items[first_too_long(lines, items, i, limit).unwrap()]) > limit,
        forall|j: int| i <= j < first_too_long(lines, items, i, limit).unwrap() ==> !(
            size_checked(lines, items, j) && fn_size(lines, items[j]) > limit),
    decreases items.len() - i,
{
    if !(size_checked(lines, items, i) && fn_size(lines, items[i]) > limit) {
        law_the_first_long_function_is_reported(lines, items, i + 1, limit);
    }
}

/// A function is measured in characters from the start of its signature to the end of its
/// body: on one line, the columns' difference; over whole lines from `first` to `last`,
/// the lines' characters with the line endings between them.
pub proof fn law_function_size_counts_the_span(lines: Seq<Seq<char>>, first: usize, last: usize, sc: usize, ec: usize)
    requires
        1 <= first <= last <= lines.len(),
    ensures
        first == last && sc <= ec <= lines[first - 1].len() ==> span_chars(
            lines,
            LineCol { line: first, column: sc },
            LineCol { line: last, column: ec },
        ) == ec - sc,
        ec == lines[last - 1].len() ==> span_chars(
            lines,
            LineCol { line: first, column: 0 },
            LineCol { line: last, column: ec },
        ) + 1 == line_total(lines, last as int) - line_total(lines, first - 1),
{
    let f = first as int;
    let l = last as int;
    if first == last && sc <= ec <= lines[first - 1].len() {
        assert(span_sum(lines, f, f, sc as int, ec as int, f - 1) == 0);
        assert(span_sum(lines, f, f, sc as int, ec as int, f) == ec - sc);
    }
    lemma_whole_lines(lines, f, l, lines[last - 1].len() as int, l);
}

proof fn lemma_whole_lines(lines: Seq<Seq<char>>, first: int, last: int, ec: int, upto: int)
    requires
        1 <= first <= upto <= last <= lines.len(),
        ec == lines[last - 1].len(),
    ensures
        span_sum(lines, first, last, 0, ec, upto) + (if upto == last { 1int } else { 0int })
            == line_total(lines, upto) - line_total(lines, first - 1),
    decreases upto,
{
    let line = lines[upto - 1];
    assert(line_total(lines, upto) == line_total(lines, upto - 1) + line.len() + 1);
    if upto > first {
        lemma_whole_lines(lines, first, last, ec, upto - 1);
    } else {
        assert(span_sum(lines, first, last, 0, ec, upto - 1) == 0);
    }
    assert(seg_chars(line, 0, if upto == last { ec } else { line.len() as int }) == line.len());
}

/// The module header counts every documentation attribute of the file, wherever it
/// stands: the header is at least as long as the trimmed text of each `//!` line.
pub proof fn law_every_header_line_counts(attrs: Seq<ModuleAttr>, k: int)
    requires
        0 <= k < attrs.len(),
        attrs[k].value is Some,
        attr_is_doc(attrs[k].meta@),
    ensures
        module_doc_len(attrs, attrs.len() as int) >= trim(attrs[k].value.unwrap()@).len(),
{
    lemma_header_prefix(attrs, k + 1, attrs.len() as int);
}

proof fn lemma_header_prefix(attrs: Seq<ModuleAttr>, m: int, n: int)
    requires
        0 <= m <= n <= attrs.len(),
    ensures
        module_doc_len(attrs, m) <= module_doc_len(attrs, n),
    decreases n - m,
{
    if m < n {
        lemma_header_prefix(attrs, m, n - 1);
    }
}

/// A test attribute is any path that ends in the word `test`, such as `tokio::test`.
pub proof fn law_paths_ending_in_test_mark_tests(w: Seq<char>)
    ensures
        test_marker(seq![TokenModel::Ident(w), TokenModel::Colon, TokenModel::Colon, TokenModel::Ident(word_test())]),
        test_marker(seq![TokenModel::Ident(word_test())]),
{
    let t = seq![TokenModel::Ident(w), TokenModel::Colon, TokenModel::Colon, TokenModel::Ident(word_test())];
    assert(path_end(t, 3) == 4);
    assert(path_end(t, 0) == 4);
    let u = seq![TokenModel::Ident(word_test())];
    assert(path_end(u, 0) == 1);
}

proof fn lemma_hashes_count(line: Seq<char>, k: int, h: int)
    requires
        0 <= k,
        0 <= h,
        k + h < line.len(),
        forall|i: int| k <= i < k + h ==> #[trigger] line[i] == '#',
        line[k + h] != '#',
    ensures
        hashes(line, k) == h,
    decreases h,
{
    if h > 0 {
        lemma_hashes_count(line, k + 1, h - 1);
    }
}

proof fn lemma_hashes_at_least(line: Seq<char>, k: int, h: int)
    requires
        0 <= k,
        0 <= h,
        k + h <= line.len(),
        forall|i: int| k <= i < k + h ==> #[trigger] line[i] == '#',
    ensures
        hashes(line, k) >= h,
    decreases h,
{
    if h > 0 {
        lemma_hashes_at_least(line, k + 1, h - 1);
    }
}

proof fn lemma_raw_run(line: Seq<char>, j: int, k: int, h: usize, c: bool)
    requires
        0 <= j <= k <= line.len(),
        forall|i: int| j <= i < k ==> #[trigger] line[i] != '"',
    ensures
        scan(line, j, LexState::Raw(h), c).1 == scan(line, k, LexState::Raw(h), c).1,
    decreases k - j,
{
    if j < k {
        assert(line[j] != '"');
        let (n, next, x) = step(line, j, LexState::Raw(h));
        assert(n == j + 1 && next == LexState::Raw(h));
        lemma_raw_run(line, j + 1, k, h, c || x);
        lemma_scan_state_ignores_flag(line, j + 1, LexState::Raw(h), c || x, c);
        lemma_scan_state_ignores_flag(line, k, LexState::Raw(h), c || x, c);
    }
}

/// A raw string `r#.."..."#..` closes only at a quote followed by as many `#` as opened
/// it, and holds anything else, comment markers included: a line of plain code with one
/// complete raw string in it ends back in code.
pub proof fn law_raw_strings_close_at_their_hashes(pre: Seq<char>, h: usize, a: Seq<char>, post: Seq<char>)
    requires
        forall|i: int| 0 <= i < pre.len() ==> plain_code_char(#[trigger] pre[i]),
        forall|i: int| 0 <= i < a.len() ==> #[trigger] a[i] != '"',
        forall|i: int| 0 <= i < post.len() ==> plain_code_char(#[trigger] post[i]),
    ensures
        scan_line_spec(
            pre + seq!['r'] + Seq::new(h as nat, |i: int| '#') + seq!['"'] + a + seq!['"'] + Seq::new(
                h as nat,
                |i: int| '#',
            ) + post,
            LexState::Code,
        ).1 == LexState::Code,
{
    let hs = Seq::new(h as nat, |i: int| '#');
    let line = pre + seq!['r'] + hs + seq!['"'] + a + seq!['"'] + hs + post;
    let p0 = pre.len() as int;
    let q0 = p0 + 1 + h;
    let a0 = q0 + 1;
    let e0 = a0 + a.len();
    let z0 = e0 + 1 + h;
    assert forall|i: int| 0 <= i < p0 implies plain_code_char(#[trigger] line[i]) by {
        assert(line[i] == pre[i]);
    }
    assert(line[p0] == 'r');
    assert forall|i: int| p0 + 1 <= i < q0 implies #[trigger] line[i] == '#' by {
        assert(line[i] == hs[i - p0 - 1]);
    }
    assert(line[q0] == '"');
    assert forall|i: int| a0 <= i < e0 implies #[trigger] line[i] != '"' by {
        assert(line[i] == a[i - a0]);
    }
    assert(line[e0] == '"');
    assert forall|i: int| e0 + 1 <= i < z0 implies #[trigger] line[i] == '#' by {
        assert(line[i] == hs[i - e0 - 1]);
    }
    assert forall|i: int| z0 <= i < line.len() implies plain_code_char(#[trigger] line[i]) by {
        assert(line[i] == post[i - z0]);
    }
    lemma_code_run(line, 0, p0, false);
    lemma_hashes_count(line, p0 + 1, h as int);
    let (n1, s1, x1) = step(line, p0, LexState::Code);
    assert(n1 == a0 && s1 == LexState::Raw(h));
    lemma_scan_state_ignores_flag(line, a0, LexState::Raw(h), false || x1, false);
    lemma_raw_run(line, a0, e0, h, false);
    lemma_hashes_at_least(line, e0 + 1, h as int);
    let (n2, s2, x2) = step(line, e0, LexState::Raw(h));
    assert(n2 == z0 && s2 == LexState::Code);
    lemma_scan_state_ignores_flag(line, z0, LexState::Code, false || x2, false);
    lemma_code_run(line, z0, line.len() as int, false);
}

/// What single predicates require: the word `test` alone requires tests; `key = "value"`
/// never does, whatever the key or the value (`feature = "test"` included); `not(..)`
/// never does.
pub proof fn law_single_predicates(t: Seq<TokenModel>, i: int)
    requires
        0 <= i < t.len(),
    ensures
        t[i] == TokenModel::Ident(word_test()) && (i + 1 == t.len() || (t[i + 1] != TokenModel::Equals
            && t[i + 1] != TokenModel::Open)) ==> pred_at(t, i) == Some((true, i + 1)),
        t[i] is Ident && i + 2 < t.len() && t[i + 1] == TokenModel::Equals && t[i + 2]
            == TokenModel::Literal ==> pred_at(t, i) == Some((false, i + 3)),
        t[i] == TokenModel::Ident(seq!['n', 'o', 't']) && i + 1 < t.len() && t[i + 1]
            == TokenModel::Open && pred_at(t, i) is Some ==> !pred_at(t, i).unwrap().0,
{
    assert(seq!['n', 'o', 't'] != word_all()) by {
        assert(seq!['n', 'o', 't'][0] != word_all()[0]);
    }
    assert(seq!['n', 'o', 't'] != word_any()) by {
        assert(seq!['n', 'o', 't'][1] != word_any()[1]);
    }
}

} // verus!

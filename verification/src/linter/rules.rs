//! The structure of a source file as the rules read it, and the measures they take:
//! test-code scopes, line budgets, the module header's length and function sizes.
use vstd::prelude::*;
use crate::linter::meta::{attr_allows_long_fn, attr_is_doc, attr_marks_test, classify_attr};
use crate::linter::scan::{scan_line, scan_line_spec, LexState};
use crate::linter::text::{chars_of, first_newline, lines_of, strip_cr, trim, trim_bounds, trimmed_len, views};

verus! {

/// A position in a source text: a 1-based line and a 0-based column counted in characters.
#[derive(Debug, Clone, Copy, PartialEq, Eq)]
pub struct LineCol {
    /// The line, counted from 1.
    pub line: usize,
    /// The column, counted in characters from 0.
    pub column: usize,
}

/// Where a function with a body stands: its name, the start of its signature and the end
/// of its body (just past the closing brace).
pub struct FnSite {
    /// The function's name.
    pub name: String,
    /// The start of the signature (`fn`, or a qualifier such as `async` before it).
    pub sig_start: LineCol,
    /// The position just past the body's closing brace.
    pub body_end: LineCol,
}

/// An item of a source file, as far as the linter reads it.
pub struct OutlineItem {
    /// The item that contains this one (a module, an `impl` or a trait), by its index in
    /// [`Outline::items`]; it comes before this item.
    pub parent: Option<usize>,
    /// The texts of the item's attributes (without `#[` and `]`), such as `cfg (test)`.
    pub attrs: Vec<String>,
    /// The first line the item occupies, attributes included.
    pub first_line: usize,
    /// The last line the item occupies.
    pub last_line: usize,
    /// The function's site, when the item is a function with a body.
    pub func: Option<FnSite>,
}

/// A file-level (inner) attribute: its text and, when it is of the form `name = "text"`,
/// the value of its string.
pub struct ModuleAttr {
    /// The attribute's text, such as `doc = " Overview"`.
    pub meta: String,
    /// The string value, when the attribute has one.
    pub value: Option<String>,
}

/// The structure of a source file that the linter reads: its file-level attributes and its
/// items in source order, each after the item that contains it.
pub struct Outline {
    /// The file-level attributes.
    pub module_attrs: Vec<ModuleAttr>,
    /// The items, enclosing ones first.
    pub items: Vec<OutlineItem>,
}

/// The item carries an attribute that makes it test code.
pub open spec fn own_test(it: OutlineItem) -> bool {
    exists|k: int| 0 <= k < it.attrs.len() && attr_marks_test(#[trigger] it.attrs@[k]@)
}

/// The item carries an attribute that lifts the function size limit.
pub open spec fn own_allow(it: OutlineItem) -> bool {
    exists|k: int| 0 <= k < it.attrs.len() && attr_allows_long_fn(#[trigger] it.attrs@[k]@)
}

/// Item `i` is test code: it or an item that contains it is marked as test code.
pub open spec fn in_test_code(items: Seq<OutlineItem>, i: int) -> bool
    decreases i,
{
    if 0 <= i < items.len() {
        own_test(items[i]) || match items[i].parent {
            Some(p) => p < i && in_test_code(items, p as int),
            None => false,
        }
    } else {
        false
    }
}

/// Item `i` is exempt from the function size limit: it or an item that contains it is test
/// code or carries `allow(clippy::too_many_lines)`.
pub open spec fn size_exempt(items: Seq<OutlineItem>, i: int) -> bool
    decreases i,
{
    if 0 <= i < items.len() {
        own_test(items[i]) || own_allow(items[i]) || match items[i].parent {
            Some(p) => p < i && size_exempt(items, p as int),
            None => false,
        }
    } else {
        false
    }
}

fn own_flags(it: &OutlineItem) -> (r: (bool, bool))
    ensures
        r.0 == own_test(*it),
        r.1 == own_allow(*it),
{
    let mut t = false;
    let mut a = false;
    let mut k: usize = 0;
    while k < it.attrs.len()
        invariant
            k <= it.attrs.len(),
            t == exists|j: int| 0 <= j < k && attr_marks_test(#[trigger] it.attrs@[j]@),
            a == exists|j: int| 0 <= j < k && attr_allows_long_fn(#[trigger] it.attrs@[j]@),
        decreases it.attrs.len() - k,
    {
        let c = classify_attr(it.attrs[k].as_str());
        t = t || c.marks_test;
        a = a || c.allows_long_fn;
        k = k + 1;
    }
    (t, a)
}

/// For every item, whether it is test code and whether it is exempt from the size limit.
pub fn scope_flags(items: &Vec<OutlineItem>) -> (r: (Vec<bool>, Vec<bool>))
    ensures
        r.0.len() == items.len(),
        r.1.len() == items.len(),
        forall|i: int| 0 <= i < items.len() ==> r.0@[i] == in_test_code(items@, i),
        forall|i: int| 0 <= i < items.len() ==> r.1@[i] == size_exempt(items@, i),
{
    let mut tests: Vec<bool> = Vec::new();
    let mut exempt: Vec<bool> = Vec::new();
    let mut i: usize = 0;
    while i < items.len()
        invariant
            i <= items.len(),
            tests.len() == i,
            exempt.len() == i,
            forall|j: int| 0 <= j < i ==> tests@[j] == in_test_code(items@, j),
            forall|j: int| 0 <= j < i ==> exempt@[j] == size_exempt(items@, j),
        decreases items.len() - i,
    {
        let (t, a) = own_flags(&items[i]);
        let (pt, pa) = match items[i].parent {
            Some(p) => if p < i {
                (tests[p], exempt[p])
            } else {
                (false, false)
            },
            None => (false, false),
        };
        tests.push(t || pt);
        exempt.push(t || a || pa);
        i = i + 1;
    }
    (tests, exempt)
}

/// Line `ln` (counted from 1) lies within an item that is test code.
pub open spec fn line_excluded(items: Seq<OutlineItem>, ln: int) -> bool {
    exists|i: int|
        0 <= i < items.len() && in_test_code(items, i) && #[trigger] items[i].first_line <= ln
            <= items[i].last_line
}

/// For each of the first `n` lines, whether it lies within test code.
pub fn excluded_lines(items: &Vec<OutlineItem>, n: usize) -> (ex: Vec<bool>)
    ensures
        ex.len() == n,
        forall|l: int| 0 <= l < n ==> ex@[l] == line_excluded(items@, l + 1),
{
    let (tests, _) = scope_flags(items);
    let mut ex: Vec<bool> = Vec::new();
    let mut l: usize = 0;
    while l < n
        invariant
            l <= n,
            ex.len() == l,
            tests.len() == items.len(),
            forall|i: int| 0 <= i < items.len() ==> tests@[i] == in_test_code(items@, i),
            forall|j: int| 0 <= j < l ==> ex@[j] == line_excluded(items@, j + 1),
        decreases n - l,
    {
        let mut found = false;
        let mut i: usize = 0;
        while i < items.len()
            invariant
                i <= items.len(),
                l < n,
                tests.len() == items.len(),
                forall|k: int| 0 <= k < items.len() ==> tests@[k] == in_test_code(items@, k),
                found == exists|k: int|
                    0 <= k < i && in_test_code(items@, k) && #[trigger] items@[k].first_line <= l
                        + 1 <= items@[k].last_line,
            decreases items.len() - i,
        {
            if tests[i] && items[i].first_line <= l + 1 && l + 1 <= items[i].last_line {
                found = true;
            }
            i = i + 1;
        }
        ex.push(found);
        l = l + 1;
    }
    ex
}


/// The budgets after the first `n` lines: characters of code, characters of comments,
/// and the scanner's state at the end. A line counts its characters and its line ending.
/// Lines of test code count for nothing and leave the scanner's state as it was; blank
/// lines count for nothing; a line counts as code or as comments as
/// [`scan_line_spec`] says.
pub open spec fn tally(lines: Seq<Seq<char>>, items: Seq<OutlineItem>, n: int) -> (nat, nat, LexState)
    decreases n,
{
    if n <= 0 || n > lines.len() {
        (0, 0, LexState::Code)
    } else {
        let prev = tally(lines, items, n - 1);
        let line = lines[n - 1];
        let w = line.len() + 1;
        let (has_code, next) = scan_line_spec(line, prev.2);
        if line_excluded(items, n) {
            prev
        } else if trim(line).len() == 0 {
            (prev.0, prev.1, next)
        } else if has_code {
            ((prev.0 + w) as nat, prev.1, next)
        } else {
            (prev.0, prev.1 + w, next)
        }
    }
}

/// The characters of the first `n` lines, each with one line ending.
pub open spec fn line_total(lines: Seq<Seq<char>>, n: int) -> nat
    decreases n,
{
    if n <= 0 || n > lines.len() {
        0
    } else {
        line_total(lines, n - 1) + lines[n - 1].len() + 1
    }
}

/// The budgets never count more than the lines hold.
pub proof fn lemma_tally_bound(lines: Seq<Seq<char>>, items: Seq<OutlineItem>, n: int)
    requires
        0 <= n <= lines.len(),
    ensures
        tally(lines, items, n).0 + tally(lines, items, n).1 <= line_total(lines, n),
    decreases n,
{
    if n > 0 {
        lemma_tally_bound(lines, items, n - 1);
    }
}

proof fn lemma_line_total_prefix(a: Seq<Seq<char>>, b: Seq<Seq<char>>, n: int)
    requires
        0 <= n <= a.len(),
        a.len() <= b.len(),
        forall|k: int| 0 <= k < a.len() ==> a[k] == b[k],
    ensures
        line_total(a, n) == line_total(b, n),
    decreases n,
{
    if n > 0 {
        lemma_line_total_prefix(a, b, n - 1);
    }
}

proof fn lemma_line_total_concat(a: Seq<Seq<char>>, b: Seq<Seq<char>>, n: int)
    requires
        0 <= n <= b.len(),
    ensures
        line_total(a + b, a.len() + n) == line_total(a, a.len() as int) + line_total(b, n),
    decreases n,
{
    if n == 0 {
        lemma_line_total_prefix(a, a + b, a.len() as int);
    } else {
        lemma_line_total_concat(a, b, n - 1);
        assert((a + b)[a.len() + n - 1] == b[n - 1]);
    }
}

/// The lines of a text hold at most one character more than the text, line endings
/// counted once each.
pub proof fn lemma_lines_total(s: Seq<char>)
    ensures
        line_total(lines_of(s), lines_of(s).len() as int) <= s.len() + 1,
    decreases s.len(),
{
    let k = first_newline(s);
    if s.len() == 0 {
    } else if k < s.len() {
        let head = seq![strip_cr(s.take(k as int))];
        let rest = lines_of(s.skip((k + 1) as int));
        lemma_lines_total(s.skip((k + 1) as int));
        lemma_line_total_concat(head, rest, rest.len() as int);
        assert(line_total(head, 0) == 0);
        assert(line_total(head, 1) == strip_cr(s.take(k as int)).len() + 1);
    } else {
        assert(line_total(seq![s], 0) == 0);
        assert(line_total(seq![s], 1) == s.len() + 1);
    }
}

/// The code and comment budgets of `lines` (see [`tally`]), given which lines are test code.
pub fn line_budgets(lines: &Vec<Vec<char>>, items: &Vec<OutlineItem>, ex: &Vec<bool>) -> (r: (
    u128,
    u128,
))
    requires
        ex.len() == lines.len(),
        forall|l: int| 0 <= l < lines.len() ==> ex@[l] == line_excluded(items@, l + 1),
        line_total(views(lines@), lines.len() as int) <= usize::MAX + 1,
    ensures
        r.0 == tally(views(lines@), items@, lines.len() as int).0,
        r.1 == tally(views(lines@), items@, lines.len() as int).1,
{
    let ghost ls = views(lines@);
    let mut code: u128 = 0;
    let mut docs: u128 = 0;
    let mut state = LexState::Code;
    let mut l: usize = 0;
    while l < lines.len()
        invariant
            l <= lines.len() == ex.len() == ls.len(),
            ls == views(lines@),
            forall|j: int| 0 <= j < lines.len() ==> ex@[j] == line_excluded(items@, j + 1),
            line_total(ls, lines.len() as int) <= usize::MAX + 1,
            (code as nat, docs as nat, state) == tally(ls, items@, l as int),
        decreases lines.len() - l,
    {
        proof {
            lemma_tally_bound(ls, items@, l + 1);
            lemma_line_total_mono(ls, l + 1, lines.len() as int);
        }
        let line = &lines[l];
        assert(line@ == ls[l as int]);
        let w = line.len() as u128 + 1;
        if !ex[l] {
            let (has_code, next) = scan_line(line, state);
            let (a, b) = trim_bounds(line);
            if a == b {
            } else if has_code {
                code = code + w;
            } else {
                docs = docs + w;
            }
            state = next;
        }
        l = l + 1;
    }
    (code, docs)
}

/// `line_total` grows with the number of lines.
pub proof fn lemma_line_total_mono(lines: Seq<Seq<char>>, m: int, n: int)
    requires
        0 <= m <= n <= lines.len(),
    ensures
        line_total(lines, m) <= line_total(lines, n),
    decreases n - m,
{
    if m < n {
        lemma_line_total_mono(lines, m, n - 1);
    }
}


/// What one file-level attribute adds to the module header: the trimmed length of a
/// documentation string.
pub open spec fn doc_part(a: ModuleAttr) -> nat {
    match a.value {
        Some(v) => if attr_is_doc(a.meta@) {
            trim(v@).len()
        } else {
            0
        },
        None => 0,
    }
}

/// The header length of the first `n` file-level attributes, in characters.
pub open spec fn module_doc_len(attrs: Seq<ModuleAttr>, n: int) -> nat
    decreases n,
{
    if n <= 0 || n > attrs.len() {
        0
    } else {
        module_doc_len(attrs, n - 1) + doc_part(attrs[n - 1])
    }
}

proof fn lemma_module_doc_len_mono(attrs: Seq<ModuleAttr>, m: int, n: int)
    requires
        0 <= m <= n <= attrs.len(),
    ensures
        module_doc_len(attrs, m) <= module_doc_len(attrs, n),
    decreases n - m,
{
    if m < n {
        lemma_module_doc_len_mono(attrs, m, n - 1);
    }
}

/// The module header's length when it is shorter than `limit` characters.
pub fn short_header(attrs: &Vec<ModuleAttr>, limit: usize) -> (r: Option<usize>)
    ensures
        match r {
            Some(n) => n == module_doc_len(attrs@, attrs.len() as int) && n < limit,
            None => module_doc_len(attrs@, attrs.len() as int) >= limit,
        },
{
    if limit == 0 {
        return None;
    }
    let mut total: usize = 0;
    let mut k: usize = 0;
    while k < attrs.len()
        invariant
            k <= attrs.len(),
            total == module_doc_len(attrs@, k as int),
            total < limit,
        decreases attrs.len() - k,
    {
        let a = &attrs[k];
        let part: usize = match &a.value {
            Some(v) => {
                let c = classify_attr(a.meta.as_str());
                if c.is_doc {
                    let chars = chars_of(v.as_str());
                    trimmed_len(&chars)
                } else {
                    0
                }
            },
            None => 0,
        };
        assert(part == doc_part(attrs@[k as int]));
        if part >= limit - total {
            proof {
                lemma_module_doc_len_mono(attrs@, k + 1, attrs.len() as int);
            }
            return None;
        }
        total = total + part;
        k = k + 1;
    }
    Some(total)
}

/// The characters of `line` between columns `from` and `to`, each clamped to the line.
pub open spec fn seg_chars(line: Seq<char>, from: int, to: int) -> nat {
    let a = if from < line.len() { from } else { line.len() as int };
    let b = if to < line.len() { to } else { line.len() as int };
    if a <= b { (b - a) as nat } else { 0 }
}

/// The characters of lines `first..=upto` of a span from (`first`, `sc`) to (`last`, `ec`),
/// a line ending counted after each line but the last.
pub open spec fn span_sum(lines: Seq<Seq<char>>, first: int, last: int, sc: int, ec: int, upto: int) -> nat
    decreases upto,
{
    if first < 1 || upto < first || upto > lines.len() {
        0
    } else {
        let line = lines[upto - 1];
        span_sum(lines, first, last, sc, ec, upto - 1) + seg_chars(
            line,
            if upto == first { sc } else { 0 },
            if upto == last { ec } else { line.len() as int },
        ) + if upto < last { 1nat } else { 0nat }
    }
}

/// The characters of the text from `start` up to `end`, lines clamped to the text.
pub open spec fn span_chars(lines: Seq<Seq<char>>, start: LineCol, end: LineCol) -> nat {
    let first: int = if start.line < 1 { 1 } else { start.line as int };
    let last: int = if end.line < lines.len() { end.line as int } else { lines.len() as int };
    if first > last {
        0
    } else {
        span_sum(lines, first, last, start.column as int, end.column as int, last)
    }
}

proof fn lemma_span_sum_bound(lines: Seq<Seq<char>>, first: int, last: int, sc: int, ec: int, upto: int)
    requires
        1 <= first,
        upto <= lines.len(),
        0 <= sc,
        0 <= ec,
    ensures
        span_sum(lines, first, last, sc, ec, upto) <= line_total(lines, upto),
    decreases upto,
{
    if upto >= first {
        lemma_span_sum_bound(lines, first, last, sc, ec, upto - 1);
        lemma_line_total_mono(lines, upto - 1, upto);
    } else if upto >= 0 {
        lemma_line_total_mono(lines, 0, upto);
    }
}

fn seg_chars_exec(line: &Vec<char>, from: usize, to: usize) -> (r: usize)
    ensures
        r == seg_chars(line@, from as int, to as int),
{
    let n = line.len();
    let a = if from < n { from } else { n };
    let b = if to < n { to } else { n };
    if a <= b { b - a } else { 0 }
}

/// Counts the characters of a span (see [`span_chars`]).
pub fn span_chars_exec(lines: &Vec<Vec<char>>, start: LineCol, end: LineCol) -> (r: u128)
    requires
        line_total(views(lines@), lines.len() as int) <= usize::MAX + 1,
    ensures
        r == span_chars(views(lines@), start, end),
{
    let ghost ls = views(lines@);
    let first: usize = if start.line < 1 { 1 } else { start.line };
    let last: usize = if end.line < lines.len() { end.line } else { lines.len() };
    if first > last {
        return 0;
    }
    let mut total: u128 = 0;
    let mut u: usize = first;
    assert(span_sum(ls, first as int, last as int, start.column as int, end.column as int, first - 1) == 0);
    loop
        invariant_except_break
            total == span_sum(ls, first as int, last as int, start.column as int, end.column as int, u - 1),
        invariant
            1 <= first <= u <= last,
            last <= lines.len(),
            ls == views(lines@),
            line_total(ls, lines.len() as int) <= usize::MAX + 1,
        ensures
            total == span_sum(ls, first as int, last as int, start.column as int, end.column as int, last as int),
        decreases last - u,
    {
        proof {
            lemma_span_sum_bound(ls, first as int, last as int, start.column as int, end.column as int, u as int);
            lemma_line_total_mono(ls, u as int, lines.len() as int);
        }
        let line = &lines[u - 1];
        assert(line@ == ls[u - 1]);
        let from = if u == first { start.column } else { 0 };
        let to = if u == last { end.column } else { line.len() };
        let seg = seg_chars_exec(line, from, to);
        total = total + seg as u128;
        if u == last {
            break;
        }
        total = total + 1;
        u = u + 1;
    }
    total
}

/// A function that the size limit applies to: it has a body, its position is known, it
/// starts within the text, and neither it nor an item around it is exempt.
pub open spec fn size_checked(lines: Seq<Seq<char>>, items: Seq<OutlineItem>, i: int) -> bool {
    &&& 0 <= i < items.len()
    &&& items[i].func is Some
    &&& items[i].func.unwrap().sig_start.line != 0
    &&& items[i].func.unwrap().body_end.line != 0
    &&& items[i].func.unwrap().sig_start.line <= lines.len()
    &&& !size_exempt(items, i)
}

/// The size of the function of item `i`, from the start of its signature to the end of
/// its body.
pub open spec fn fn_size(lines: Seq<Seq<char>>, it: OutlineItem) -> nat {
    span_chars(lines, it.func.unwrap().sig_start, it.func.unwrap().body_end)
}

/// The first item from `i` on whose function exceeds `limit` characters.
pub open spec fn first_too_long(lines: Seq<Seq<char>>, items: Seq<OutlineItem>, i: int, limit: nat) -> Option<int>
    decreases items.len() - i,
{
    if i < 0 || i >= items.len() {
        None
    } else if size_checked(lines, items, i) && fn_size(lines, items[i]) > limit {
        Some(i)
    } else {
        first_too_long(lines, items, i + 1, limit)
    }
}

} // verus!

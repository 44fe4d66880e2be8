use rust_agent_native_template::linter::violation::{
    find_violation, is_test_path_exec, Violation, MAX_CODE_CHARS, MAX_DOC_CHARS, MAX_FN_CHARS,
    MIN_HEADER_CHARS,
};
use rust_agent_native_template::linter::meta::{classify_attr, tokenize, AttrClass, Token};
use rust_agent_native_template::linter::report::{check_outline, message};
use rust_agent_native_template::linter::rules::{
    excluded_lines, line_budgets, scope_flags, short_header, span_chars_exec, FnSite, LineCol,
    ModuleAttr, Outline, OutlineItem,
};
use rust_agent_native_template::linter::syntax::{check_tree, outline_source};
use rust_agent_native_template::linter::tree::{outline_of, SynFile, SynFn, SynKind, SynNode, SynRegion};
use rust_agent_native_template::linter::text::{chars_of, split_lines, trim_bounds};
use rust_agent_native_template::linter::check_source;
use rust_agent_native_template::linter::scan::{scan_line, LexState};

fn s(v: &[char]) -> String {
    v.iter().collect()
}

fn header(n: usize) -> ModuleAttr {
    let text: String = std::iter::repeat('h').take(n).collect();
    ModuleAttr { meta: "doc = \"x\"".to_string(), value: Some(format!(" {} ", text)) }
}

fn plain_item(parent: Option<usize>, attrs: &[&str], first: usize, last: usize) -> OutlineItem {
    OutlineItem {
        parent,
        attrs: attrs.iter().map(|a| a.to_string()).collect(),
        first_line: first,
        last_line: last,
        func: None,
    }
}

fn fn_item(parent: Option<usize>, attrs: &[&str], name: &str, start: (usize, usize), end: (usize, usize)) -> OutlineItem {
    OutlineItem {
        parent,
        attrs: attrs.iter().map(|a| a.to_string()).collect(),
        first_line: start.0,
        last_line: end.0,
        func: Some(FnSite {
            name: name.to_string(),
            sig_start: LineCol { line: start.0, column: start.1 },
            body_end: LineCol { line: end.0, column: end.1 },
        }),
    }
}

/// `fn big() {`, `body` lines of 24 characters, `}`.
fn big_fn_source(body: usize) -> String {
    let mut src = String::from("fn big() {\n");
    for _ in 0..body {
        src.push_str("    let _v = 1234567890;\n");
    }
    src.push_str("}\n");
    src
}

fn long_header_source() -> String {
    format!("//! {}\n", "h".repeat(120))
}

#[test]
fn decimal_writes_plain_digits() {
    let code_msg = |n: u128| message("a.rs", &Violation::CodeTooLong { code_chars: n });
    for (n, text) in [(0u128, "0"), (7, "7"), (10, "10"), (12345, "12345"), (u128::MAX, "340282366920938463463374607431768211455")] {
        let want = format!("File \"a.rs\" has {} logical code characters", text);
        assert!(code_msg(n).starts_with(&want), "{}", code_msg(n));
    }
}

#[test]
fn trim_strips_unicode_white_space() {
    assert_eq!(trim_bounds(&chars_of("  ab c \t")), (2, 6));
    assert_eq!(trim_bounds(&chars_of("   ")).0, trim_bounds(&chars_of("   ")).1);
    assert_eq!(trim_bounds(&chars_of("\u{3000}x\u{a0}")), (1, 2));
    assert_eq!(trim_bounds(&chars_of("")), (0, 0));
}

#[test]
fn lines_split_like_str_lines() {
    for text in ["a\r\nb\n\nc", "a\n", "", "x\r", "\n\n", "one"] {
        let got: Vec<String> = split_lines(&chars_of(text)).iter().map(|l| s(l)).collect();
        let want: Vec<String> = text.lines().map(|l| l.to_string()).collect();
        assert_eq!(got, want, "text {:?}", text);
    }
}

#[test]
fn tokenize_reads_words_strings_and_punctuation() {
    let t = tokenize(&chars_of("cfg (all (not (feature = \"mo,ck)\") , test))"));
    let w = |x: &str| Token::Ident(x.chars().collect());
    assert_eq!(
        t,
        vec![
            w("cfg"), Token::Open, w("all"), Token::Open, w("not"), Token::Open, w("feature"),
            Token::Equals, Token::Literal, Token::Close, Token::Comma, w("test"), Token::Close,
            Token::Close,
        ]
    );
    assert_eq!(tokenize(&chars_of("tokio :: test")), vec![w("tokio"), Token::Colon, Token::Colon, w("test")]);
    assert_eq!(tokenize(&chars_of("x = 12 # \"a\\\"b\"")), vec![w("x"), Token::Equals, Token::Literal, Token::Other, Token::Literal]);
}

fn class(t: bool, a: bool, d: bool) -> AttrClass {
    AttrClass { marks_test: t, allows_long_fn: a, is_doc: d }
}

#[test]
fn attributes_are_classified() {
    assert_eq!(classify_attr("cfg (test)"), class(true, false, false));
    assert_eq!(classify_attr("cfg (all (not (feature = \"mock\") , test))"), class(true, false, false));
    assert_eq!(classify_attr("cfg (all (feature = \"test-utils\"))"), class(false, false, false));
    assert_eq!(classify_attr("cfg (not (test))"), class(false, false, false));
    assert_eq!(classify_attr("cfg (any (test , unix))"), class(false, false, false));
    assert_eq!(classify_attr("cfg (any (test , test ,))"), class(true, false, false));
    assert_eq!(classify_attr("cfg (any ())"), class(false, false, false));
    assert_eq!(classify_attr("cfg (all ())"), class(false, false, false));
    assert_eq!(classify_attr("cfg (test_utils)"), class(false, false, false));
    assert_eq!(classify_attr("test"), class(true, false, false));
    assert_eq!(classify_attr("tokio :: test"), class(true, false, false));
    assert_eq!(classify_attr("tokio :: test (flavor = \"multi_thread\")"), class(true, false, false));
    assert_eq!(classify_attr("should_panic"), class(false, false, false));
    assert_eq!(classify_attr("allow (clippy :: too_many_lines)"), class(false, true, false));
    assert_eq!(classify_attr("allow (dead_code , clippy :: too_many_lines)"), class(false, true, false));
    assert_eq!(classify_attr("allow (clippy :: all)"), class(false, false, false));
    assert_eq!(classify_attr("deny (clippy :: too_many_lines)"), class(false, false, false));
    assert_eq!(classify_attr("doc = \" hi\""), class(false, false, true));
    assert_eq!(classify_attr("cfg_attr (test , allow (x))"), class(false, false, false));
}

#[test]
fn test_paths_are_recognised() {
    assert!(!is_test_path_exec("src/contest.rs"));
    assert!(!is_test_path_exec("src/mytests.rs"));
    assert!(!is_test_path_exec("src/test_large_fn.rs"));
    assert!(is_test_path_exec("src/tests.rs"));
    assert!(is_test_path_exec("tests.rs"));
    assert!(is_test_path_exec("tests/a.rs"));
    assert!(is_test_path_exec("src/tests/mod.rs"));
    assert!(is_test_path_exec("src\\tests\\x.rs"));
}

#[test]
fn scopes_are_inherited_by_contained_items() {
    let items = vec![
        plain_item(None, &["cfg (test)"], 1, 10),
        plain_item(Some(0), &[], 2, 9),
        fn_item(Some(1), &[], "inner", (3, 0), (8, 1)),
        plain_item(None, &["allow (clippy :: too_many_lines)"], 11, 20),
        fn_item(Some(3), &[], "method", (12, 4), (19, 5)),
        fn_item(None, &["tokio :: test"], "t", (21, 0), (22, 1)),
        fn_item(None, &[], "plain", (23, 0), (24, 1)),
    ];
    let (tests, exempt) = scope_flags(&items);
    assert_eq!(tests, vec![true, true, true, false, false, true, false]);
    assert_eq!(exempt, vec![true, true, true, true, true, true, false]);
    let ex = excluded_lines(&items, 25);
    for l in 0..25 {
        let ln = l + 1;
        assert_eq!(ex[l], (1..=10).contains(&ln) || (21..=22).contains(&ln), "line {}", ln);
    }
}

#[test]
fn budgets_count_characters_per_line() {
    // 10 + 1 code, blank, 9 + 1 comment, block comment over 3 lines, 5 + 1 code.
    let text = "let x = 1;\n\n// comment\n/* a\n b\n*/\nx + 1\n";
    let lines = split_lines(&chars_of(text));
    let items: Vec<OutlineItem> = Vec::new();
    let ex = excluded_lines(&items, lines.len());
    let (code, docs) = line_budgets(&lines, &items, &ex);
    assert_eq!(code, 11 + 6);
    assert_eq!(docs, 11 + 5 + 3 + 3);
    // Characters, not bytes.
    let lines = split_lines(&chars_of("// 한국어\n"));
    let (code, docs) = line_budgets(&lines, &items, &excluded_lines(&items, lines.len()));
    assert_eq!((code, docs), (0, 7));
}

#[test]
fn budgets_skip_test_code_lines() {
    let text = "fn a() {}\n#[cfg(test)]\nmod t {\n// c\n}\n";
    let lines = split_lines(&chars_of(text));
    let items = vec![plain_item(None, &["cfg (test)"], 2, 5)];
    let (code, docs) = line_budgets(&lines, &items, &excluded_lines(&items, lines.len()));
    assert_eq!((code, docs), (10, 0));
}

#[test]
fn header_length_is_trimmed_and_summed() {
    let attrs = vec![
        ModuleAttr { meta: "doc = \" a \"".to_string(), value: Some(" ab ".to_string()) },
        ModuleAttr { meta: "allow (x)".to_string(), value: None },
        ModuleAttr { meta: "doc = \"\"".to_string(), value: Some("\t".to_string()) },
        ModuleAttr { meta: "doc = \"xyz\"".to_string(), value: Some("xyz".to_string()) },
        ModuleAttr { meta: "other = \"zzzz\"".to_string(), value: Some("zzzz".to_string()) },
    ];
    assert_eq!(short_header(&attrs, MIN_HEADER_CHARS), Some(5));
    assert_eq!(short_header(&attrs, 5), None);
    assert_eq!(short_header(&attrs, 6), Some(5));
    assert_eq!(short_header(&vec![header(100)], MIN_HEADER_CHARS), None);
    assert_eq!(short_header(&vec![header(99)], MIN_HEADER_CHARS), Some(99));
}

#[test]
fn span_counts_columns_and_line_endings() {
    let lines = split_lines(&chars_of("abcdef\nghij\nklmnop"));
    let at = |l, c| LineCol { line: l, column: c };
    assert_eq!(span_chars_exec(&lines, at(1, 2), at(1, 5)), 3);
    assert_eq!(span_chars_exec(&lines, at(1, 2), at(3, 2)), 4 + 1 + 4 + 1 + 2);
    assert_eq!(span_chars_exec(&lines, at(2, 0), at(9, 99)), 4 + 1 + 6);
    assert_eq!(span_chars_exec(&lines, at(3, 1), at(2, 0)), 0);
    assert_eq!(span_chars_exec(&lines, at(1, 5), at(1, 2)), 0);
}

#[test]
fn find_violation_reports_each_rule_with_its_count() {
    let items: Vec<OutlineItem> = Vec::new();
    let with_header = Outline { module_attrs: vec![header(100)], items: Vec::new() };
    // Rule 2: 1001 lines of 9 + 1 characters.
    let code = "let a = 1;\n".repeat(910) + "x\n";
    let v = find_violation("src/a.rs", &code, &with_header);
    assert_eq!(v, Some(Violation::CodeTooLong { code_chars: 910 * 11 + 2 }));
    let code_ok = "let a = 1;\n".repeat(909);
    assert_eq!(find_violation("src/a.rs", &code_ok, &with_header), None);
    // Rule 3.
    let docs = "// comment\n".repeat(364);
    assert_eq!(find_violation("src/a.rs", &docs, &with_header), Some(Violation::DocsTooLong { doc_chars: 4004 }));
    assert_eq!(find_violation("src/a.rs", &"// comment\n".repeat(363), &with_header), None);
    // Rule 1, production files only.
    let short = Outline { module_attrs: vec![header(42)], items };
    assert_eq!(find_violation("src/a.rs", "fn a() {}\n", &short), Some(Violation::HeaderTooShort { header_chars: 42 }));
    assert_eq!(find_violation("src/tests/a.rs", "fn a() {}\n", &short), None);
    // Rule 4: 10 + 1 + 100 * 25 + 1 characters.
    let src = big_fn_source(100);
    let big = Outline { module_attrs: vec![header(100)], items: vec![fn_item(None, &[], "big", (1, 0), (102, 1))] };
    assert_eq!(
        find_violation("src/a.rs", &src, &big),
        Some(Violation::FunctionTooLong { line: 1, fn_chars: 2512, name: "big".to_string() })
    );
    let exempt = Outline {
        module_attrs: vec![header(100)],
        items: vec![fn_item(None, &["allow (clippy :: too_many_lines)"], "big", (1, 0), (102, 1))],
    };
    assert_eq!(find_violation("src/a.rs", &src, &exempt), None);
    // Exactly at the limits.
    assert_eq!(MAX_CODE_CHARS, 10000);
    assert_eq!(MAX_DOC_CHARS, 4000);
    assert_eq!(MAX_FN_CHARS, 2000);
}

#[test]
fn rule_order_is_code_docs_header_functions() {
    let text = "let a = 1;\n".repeat(1000) + &"// comment\n".repeat(400);
    let o = Outline { module_attrs: Vec::new(), items: Vec::new() };
    assert!(matches!(find_violation("src/a.rs", &text, &o), Some(Violation::CodeTooLong { .. })));
    let text = "// comment\n".repeat(400);
    assert!(matches!(find_violation("src/a.rs", &text, &o), Some(Violation::DocsTooLong { .. })));
}

#[test]
fn messages_are_exact() {
    let m = message("src/a.rs", &Violation::HeaderTooShort { header_chars: 5 });
    assert_eq!(
        m,
        "File \"src/a.rs\" has a module/file level documentation comment (//!) of only 5 characters (minimum 100 characters required, AGENTS.md Rule 1).\nAction: Every production source file must serve as a living Wiki entry detailing its purpose, responsibilities, and architecture."
    );
    let m = message("src/a.rs", &Violation::CodeTooLong { code_chars: 12345 });
    assert_eq!(
        m,
        "File \"src/a.rs\" has 12345 logical code characters, exceeding the 10,000-character limit (AGENTS.md Rule 2).\nAction: Refactor by splitting responsibilities into smaller submodules."
    );
    let m = message("src/a.rs", &Violation::DocsTooLong { doc_chars: 4001 });
    assert_eq!(
        m,
        "File \"src/a.rs\" has 4001 documentation/comment characters, exceeding the 4,000-character limit (AGENTS.md Rule 3).\nAction: Keep documentation concise to maintain high signal-to-noise ratio for LLM context."
    );
    let m = message("src/e\"x.rs", &Violation::FunctionTooLong { line: 7, fn_chars: 2001, name: "f".to_string() });
    assert_eq!(
        m,
        "Function at \"src/e\\\"x.rs\":7 exceeds the 2,000-character limit (2001 characters, AGENTS.md Rule 4).\nFunction: f\nAction: Refactor into smaller, single-responsibility helper functions."
    );
}

#[test]
fn every_report_names_its_rule() {
    let cases = [
        (Violation::CodeTooLong { code_chars: 1 }, "Rule 2"),
        (Violation::DocsTooLong { doc_chars: 1 }, "Rule 3"),
        (Violation::HeaderTooShort { header_chars: 1 }, "Rule 1"),
        (Violation::FunctionTooLong { line: 1, fn_chars: 1, name: "g".to_string() }, "Rule 4"),
    ];
    for (v, tag) in cases {
        assert!(message("p.rs", &v).contains(tag));
    }
}

#[test]
fn check_outline_maps_violations_to_messages() {
    let o = Outline { module_attrs: vec![header(3)], items: Vec::new() };
    let r = check_outline("src/a.rs", "fn a() {}\n", &o);
    assert_eq!(r, Err(message("src/a.rs", &Violation::HeaderTooShort { header_chars: 3 })));
    let o = Outline { module_attrs: vec![header(100)], items: Vec::new() };
    assert_eq!(check_outline("src/a.rs", "fn a() {}\n", &o), Ok(()));
}

#[test]
fn outline_reads_attributes_items_and_regions() {
    let src = "//! Header one\n//! two\n#![allow(dead_code)]\n\n/// Doc.\n#[cfg(test)]\nmod m {\n    fn f() {\n        1;\n    }\n}\n\nimpl S {\n    #[allow(clippy::too_many_lines)]\n    pub async fn g(&self) {}\n}\n\ntrait T {\n    fn req(&self);\n    fn prov(&self) {}\n}\n";
    let o = outline_source(src).expect("parses");
    assert_eq!(o.module_attrs.len(), 3);
    assert_eq!(o.module_attrs[0].value.as_deref(), Some(" Header one"));
    assert_eq!(o.module_attrs[1].value.as_deref(), Some(" two"));
    assert_eq!(o.module_attrs[2].value, None);
    assert!(classify_attr(&o.module_attrs[0].meta).is_doc);
    assert!(classify_attr(&o.module_attrs[2].meta).allows_long_fn == false);
    let items = &o.items;
    assert_eq!(items.len(), 8);
    // mod m: its doc comment and cfg are attributes; it spans lines 5 to 11.
    assert_eq!(items[0].parent, None);
    assert_eq!((items[0].first_line, items[0].last_line), (5, 11));
    assert!(items[0].attrs.iter().any(|a| classify_attr(a).marks_test));
    assert!(items[0].func.is_none());
    // fn f inside m, and the statement of its body.
    assert_eq!(items[1].parent, Some(0));
    let f = items[1].func.as_ref().expect("body");
    assert_eq!(f.name, "f");
    assert_eq!(f.sig_start, LineCol { line: 8, column: 4 });
    assert_eq!(f.body_end, LineCol { line: 10, column: 5 });
    assert_eq!(items[2].parent, Some(1));
    assert_eq!((items[2].first_line, items[2].last_line), (9, 9));
    assert!(items[2].func.is_none() && items[2].attrs.is_empty());
    // impl S and its method g: the signature starts at `async`, after `pub`.
    assert_eq!(items[3].parent, None);
    assert_eq!(items[4].parent, Some(3));
    let g = items[4].func.as_ref().expect("body");
    assert_eq!(g.name, "g");
    assert_eq!(g.sig_start, LineCol { line: 15, column: 8 });
    assert!(items[4].attrs.iter().any(|a| classify_attr(a).allows_long_fn));
    // trait T: a required function has no body, a provided one has.
    assert_eq!(items[6].parent, Some(5));
    assert!(items[6].func.is_none());
    assert_eq!(items[7].func.as_ref().expect("default body").name, "prov");
}

#[test]
fn unparsable_text_has_no_outline_and_passes() {
    assert!(outline_source("pub fn broken( {\n").is_none());
    assert_eq!(check_source("src/a.rs", "pub fn broken( {\n"), Ok(()));
}

#[test]
fn check_source_reports_a_long_function_with_its_exact_size() {
    let src = long_header_source() + &big_fn_source(100);
    // The function starts on line 2; its span is the same 2512 characters.
    let want = message("src/a.rs", &Violation::FunctionTooLong { line: 2, fn_chars: 2512, name: "big".to_string() });
    assert_eq!(check_source("src/a.rs", &src), Err(want));
    let src_ok = long_header_source() + &big_fn_source(79);
    assert_eq!(check_source("src/a.rs", &src_ok), Ok(()));
}

#[test]
fn test_code_changes_do_not_change_the_verdict() {
    let base = long_header_source() + "pub fn a() {}\n#[cfg(test)]\nmod tests {\n";
    let quiet = base.clone() + "}\n";
    let noisy = base + &"    // a long explanatory comment line inside the test module\n".repeat(200) + "}\n";
    assert_eq!(check_source("src/a.rs", &quiet), Ok(()));
    assert_eq!(check_source("src/a.rs", &noisy), Ok(()));
}

#[test]
fn nested_test_module_functions_are_exempt() {
    let body = "        let _v = 1234567890;\n".repeat(100);
    let src = long_header_source() + "#[cfg(test)]\nmod outer {\n    mod inner {\n        fn huge() {\n" + &body + "        }\n    }\n}\n";
    assert_eq!(check_source("src/a.rs", &src), Ok(()));
}

#[test]
fn a_feature_named_test_is_not_test_code() {
    let body = "    let _v = 1234567890;\n".repeat(100);
    let src = long_header_source() + "#[cfg(feature = \"test\")]\nfn huge() {\n" + &body + "}\n";
    let r = check_source("src/a.rs", &src);
    assert!(matches!(&r, Err(m) if m.contains("Rule 4") && m.contains("huge")), "{:?}", r);
}

#[test]
fn budgets_fit_the_text() {
    let text = "a\nbb\n\n// c\nd";
    let lines = split_lines(&chars_of(text));
    let items: Vec<OutlineItem> = Vec::new();
    let (code, docs) = line_budgets(&lines, &items, &excluded_lines(&items, lines.len()));
    assert_eq!(code + docs, 2 + 3 + 5 + 2);
    assert!(code + docs <= text.chars().count() as u128 + 1);
}

fn budgets_of(text: &str) -> (u128, u128) {
    let lines = split_lines(&chars_of(text));
    let items: Vec<OutlineItem> = Vec::new();
    let ex = excluded_lines(&items, lines.len());
    line_budgets(&lines, &items, &ex)
}

#[test]
fn comment_markers_inside_raw_strings_are_code() {
    assert_eq!(budgets_of("let q = r#\"\n    /* not a comment */\n    // nor this\n\"#;\n"), (12 + 24 + 16 + 4, 0));
}

#[test]
fn block_comments_nest() {
    assert_eq!(budgets_of("/* a /* b */ still comment\n*/\nx\n"), (2, 27 + 3));
}

#[test]
fn lifetimes_and_char_literals_do_not_open_strings() {
    assert_eq!(budgets_of("fn f<'a>(x: &'a str) -> char { '\"' } // c\n// d\n"), (42, 5));
    assert_eq!(budgets_of("let c = '\\''; // q\n// r\n"), (19, 5));
}

#[test]
fn a_block_comment_opened_after_code_continues() {
    assert_eq!(budgets_of("let y = 2; /* start\nmiddle\nend */\n"), (20, 7 + 7));
}

#[test]
fn strings_run_across_lines() {
    assert_eq!(budgets_of("let s = \"a\n// b\nc\";\n"), (11 + 5 + 4, 0));
}

#[test]
fn scanner_reads_lines_in_context() {
    assert_eq!(scan_line(&chars_of("    /* x */ // y"), LexState::Raw(1)), (true, LexState::Raw(1)));
    assert_eq!(scan_line(&chars_of("    /* x */ // y"), LexState::Str), (true, LexState::Str));
    assert_eq!(scan_line(&chars_of("  // hi"), LexState::Code), (false, LexState::Code));
    assert_eq!(scan_line(&chars_of("  x // y"), LexState::Code), (true, LexState::Code));
    assert_eq!(scan_line(&chars_of("end */ x"), LexState::Block(1)), (false, LexState::Code));
    assert_eq!(scan_line(&chars_of("  /* c */ x"), LexState::Code), (false, LexState::Code));
    assert_eq!(scan_line(&chars_of("  x /* c */"), LexState::Code), (true, LexState::Code));
    assert_eq!(scan_line(&chars_of("end */"), LexState::Block(2)), (false, LexState::Block(1)));
    assert_eq!(scan_line(&chars_of("\"## x"), LexState::Raw(2)), (true, LexState::Code));
    assert_eq!(scan_line(&chars_of("\"# x"), LexState::Raw(2)), (true, LexState::Raw(2)));
    assert_eq!(scan_line(&chars_of("   "), LexState::Code), (false, LexState::Code));
}

#[test]
fn outline_lists_every_item_with_its_container() {
    let src = "use std::fmt;\nconst A: u8 = 1;\nimpl S {\n    const B: u8 = 2;\n    fn f() {}\n}\nmod m {\n    struct T;\n}\n";
    let o = outline_source(src).expect("parses");
    let parents: Vec<Option<usize>> = o.items.iter().map(|i| i.parent).collect();
    assert_eq!(parents, vec![None, None, Some(1), None, Some(3), Some(4), Some(3), None, Some(7)]);
    let lines: Vec<(usize, usize)> = o.items.iter().map(|i| (i.first_line, i.last_line)).collect();
    assert_eq!(lines, vec![(1, 1), (2, 2), (2, 2), (3, 6), (4, 4), (4, 4), (5, 5), (7, 9), (8, 8)]);
    let fns: Vec<bool> = o.items.iter().map(|i| i.func.is_some()).collect();
    assert_eq!(fns, vec![false, false, false, false, false, false, true, false, false]);
    assert!(o.items[0].attrs.is_empty() && o.items[1].attrs.is_empty());
}

#[test]
fn functions_inside_function_bodies_are_listed() {
    let src = "fn outer() {\n    fn inner() {}\n    let x = 1;\n}\n";
    let o = outline_source(src).expect("parses");
    let parents: Vec<Option<usize>> = o.items.iter().map(|i| i.parent).collect();
    assert_eq!(parents, vec![None, Some(0), Some(0), Some(2)]);
    assert_eq!(o.items[1].func.as_ref().expect("body").name, "inner");
    assert!(o.items[2].func.is_none() && o.items[3].func.is_none());
}

#[test]
fn functions_in_const_initializer_blocks_are_measured() {
    let body = "        let _v = 1234567890;\n".repeat(100);
    let src = long_header_source() + "const _: () = {\n    fn huge() {\n" + &body + "    }\n};\n";
    let o = outline_source(&src).expect("parses");
    assert_eq!(o.items[2].parent, Some(1));
    assert_eq!(o.items[2].func.as_ref().expect("body").name, "huge");
    let r = check_source("src/a.rs", &src);
    assert!(matches!(&r, Err(m) if m.contains("Rule 4") && m.contains("huge")), "{:?}", r);
    let src = long_header_source() + "static S: u8 = {\n    fn tiny() {}\n    3\n};\n";
    let o = outline_source(&src).expect("parses");
    assert_eq!(o.items.len(), 4);
    assert_eq!(o.items[2].func.as_ref().expect("body").name, "tiny");
}

fn region(a: (usize, usize), b: (usize, usize)) -> SynRegion {
    SynRegion { start: LineCol { line: a.0, column: a.1 }, end: LineCol { line: b.0, column: b.1 } }
}

fn leaf(kind: SynKind, attrs: &[&str], r: SynRegion) -> SynNode {
    SynNode { kind, attrs: attrs.iter().map(|a| a.to_string()).collect(), region: r, children: Vec::new() }
}

#[test]
fn outline_of_flattens_the_tree_in_pre_order() {
    let f = SynFn { name: "f".to_string(), sig: region((3, 4), (3, 12)), body: Some(region((3, 13), (5, 5))) };
    let req = SynFn { name: "r".to_string(), sig: region((7, 4), (7, 12)), body: None };
    let module = SynNode {
        kind: SynKind::Item,
        attrs: vec!["cfg (test)".to_string()],
        region: region((1, 0), (6, 1)),
        children: vec![leaf(SynKind::Other, &[], region((2, 4), (2, 10))), leaf(SynKind::Func(f), &["inline"], region((3, 4), (5, 5)))],
    };
    let tr = SynNode { kind: SynKind::Item, attrs: Vec::new(), region: region((7, 0), (8, 1)), children: vec![leaf(SynKind::Func(req), &[], region((7, 4), (7, 13)))] };
    let t = SynFile { attrs: vec![header(3)], items: vec![module, tr] };
    let o = outline_of(t);
    assert_eq!(o.module_attrs.len(), 1);
    let parents: Vec<Option<usize>> = o.items.iter().map(|i| i.parent).collect();
    assert_eq!(parents, vec![None, Some(0), Some(0), None, Some(3)]);
    let lines: Vec<(usize, usize)> = o.items.iter().map(|i| (i.first_line, i.last_line)).collect();
    assert_eq!(lines, vec![(1, 6), (2, 2), (3, 5), (7, 8), (7, 7)]);
    let site = o.items[2].func.as_ref().expect("body");
    assert_eq!((site.name.as_str(), site.sig_start, site.body_end), ("f", LineCol { line: 3, column: 4 }, LineCol { line: 5, column: 5 }));
    assert_eq!(o.items[2].attrs, vec!["inline".to_string()]);
    assert!(o.items[4].func.is_none());
    assert_eq!(o.items[0].attrs, vec!["cfg (test)".to_string()]);
}

#[test]
fn check_tree_passes_without_a_parse_and_reports_from_a_tree() {
    assert_eq!(check_tree("src/a.rs", "fn broken( {\n", None), Ok(()));
    let t = SynFile { attrs: vec![header(3)], items: Vec::new() };
    assert_eq!(check_tree("src/a.rs", "fn a() {}\n", Some(t)), Err(message("src/a.rs", &Violation::HeaderTooShort { header_chars: 3 })));
    let t = SynFile { attrs: vec![header(100)], items: Vec::new() };
    assert_eq!(check_tree("src/a.rs", "fn a() {}\n", Some(t)), Ok(()));
}

#[test]
fn parsing_twice_gives_the_same_positions() {
    let src = "fn a() {\n}\n";
    let first = outline_source(src).expect("parses");
    let _other = outline_source(&"fn z() {}\n".repeat(50)).expect("parses");
    let second = outline_source(src).expect("parses");
    let a = first.items[0].func.as_ref().expect("body");
    let b = second.items[0].func.as_ref().expect("body");
    assert_eq!((a.sig_start, a.body_end), (b.sig_start, b.body_end));
    assert_eq!(a.body_end, LineCol { line: 2, column: 1 });
}

fn big_body(indent: &str) -> String {
    format!("{}let _v = 1234567890;\n", indent).repeat(100)
}

#[test]
fn functions_in_closures_of_initializers_are_measured() {
    let src = long_header_source() + "static X: Lazy<u8> = Lazy::new(|| {\n    fn big() {\n" + &big_body("        ") + "    }\n    1\n});\n";
    let r = check_source("src/a.rs", &src);
    assert!(matches!(&r, Err(m) if m.contains("Rule 4") && m.contains("big")), "{:?}", r);
}

#[test]
fn functions_in_associated_consts_are_measured() {
    let src = long_header_source() + "impl S {\n    const C: u8 = {\n        fn big() {\n" + &big_body("            ") + "        }\n        1\n    };\n}\n";
    let r = check_source("src/a.rs", &src);
    assert!(matches!(&r, Err(m) if m.contains("Rule 4") && m.contains("big")), "{:?}", r);
}

#[test]
fn test_only_structs_and_uses_count_toward_no_budget() {
    let fields: String = (0..400).map(|i| format!("    field_number_{}: u64,\n", i)).collect();
    let plain = long_header_source() + "struct Big {\n" + &fields + "}\n";
    let r = check_source("src/a.rs", &plain);
    assert!(matches!(&r, Err(m) if m.contains("Rule 2")), "{:?}", r);
    let gated = long_header_source() + "#[cfg(test)]\nuse std::fmt;\n#[cfg(test)]\nstruct Big {\n" + &fields + "}\n";
    assert_eq!(check_source("src/a.rs", &gated), Ok(()));
    let o = outline_source(&gated).expect("parses");
    assert!(o.items[0].attrs.iter().any(|a| classify_attr(a).marks_test));
    assert_eq!(o.items[1].parent, None);
    assert_eq!(o.items.len(), 2 + 400);
}

#[test]
fn a_line_that_opens_with_a_comment_counts_as_comments() {
    assert_eq!(budgets_of("/* c */ let x = 1;\nlet y = 2; // d\n"), (16, 19));
}

#[test]
fn paths_are_quoted_as_paths() {
    let m = message("src/it's.rs", &Violation::CodeTooLong { code_chars: 1 });
    let want = format!("File {:?} has 1 ", std::path::Path::new("src/it's.rs"));
    assert!(m.starts_with(&want), "{}", m);
    let m = message("src/a\tb.rs", &Violation::CodeTooLong { code_chars: 1 });
    assert!(m.starts_with("File \"src/a\\tb.rs\" has 1 "), "{}", m);
}

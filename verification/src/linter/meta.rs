//! Reading attributes from their text: a small lexer, the configuration predicates that
//! mark test code, test attributes, the function-size escape hatch and documentation.
use vstd::prelude::*;
use crate::linter::text::{chars_of, is_space, is_space_char};

verus! {

/// A token of an attribute's text, as far as the linter needs to tell them apart.
#[derive(Debug, PartialEq, Eq)]
pub enum Token {
    /// A word: an identifier, a keyword, or a raw-identifier body.
    Ident(Vec<char>),
    /// A string literal or a number; its content does not matter here.
    Literal,
    /// `(`.
    Open,
    /// `)`.
    Close,
    /// `,`.
    Comma,
    /// `=`.
    Equals,
    /// `:`.
    Colon,
    /// Any other character.
    Other,
}

/// What a [`Token`] stands for.
pub enum TokenModel {
    /// A word.
    Ident(Seq<char>),
    /// A literal.
    Literal,
    /// `(`.
    Open,
    /// `)`.
    Close,
    /// `,`.
    Comma,
    /// `=`.
    Equals,
    /// `:`.
    Colon,
    /// Any other single character.
    Other,
}

impl View for Token {
    type V = TokenModel;

    open spec fn view(&self) -> TokenModel {
        match self {
            Token::Ident(w) => TokenModel::Ident(w@),
            Token::Literal => TokenModel::Literal,
            Token::Open => TokenModel::Open,
            Token::Close => TokenModel::Close,
            Token::Comma => TokenModel::Comma,
            Token::Equals => TokenModel::Equals,
            Token::Colon => TokenModel::Colon,
            Token::Other => TokenModel::Other,
        }
    }
}

/// The views of a vector of tokens.
pub open spec fn token_views(v: Seq<Token>) -> Seq<TokenModel> {
    v.map_values(|t: Token| t@)
}

/// A character that can begin a word.
pub open spec fn word_start(c: char) -> bool {
    let n = c as u32;
    ||| c == '_'
    ||| 0x41 <= n <= 0x5A
    ||| 0x61 <= n <= 0x7A
    ||| (n >= 0x80 && !is_space(c))
}

/// A decimal digit.
pub open spec fn is_digit(c: char) -> bool {
    let n = c as u32;
    0x30 <= n <= 0x39
}

/// A character that can continue a word or a number.
pub open spec fn word_char(c: char) -> bool {
    word_start(c) || is_digit(c)
}

/// The token of a single punctuation character.
pub open spec fn punct(c: char) -> TokenModel {
    if c == '(' {
        TokenModel::Open
    } else if c == ')' {
        TokenModel::Close
    } else if c == ',' {
        TokenModel::Comma
    } else if c == '=' {
        TokenModel::Equals
    } else if c == ':' {
        TokenModel::Colon
    } else {
        TokenModel::Other
    }
}

fn punct_token(c: char) -> (t: Token)
    ensures
        t@ == punct(c),
{
    if c == '(' {
        Token::Open
    } else if c == ')' {
        Token::Close
    } else if c == ',' {
        Token::Comma
    } else if c == '=' {
        Token::Equals
    } else if c == ':' {
        Token::Colon
    } else {
        Token::Other
    }
}

/// The number of leading word characters of `s`.
pub open spec fn word_len(s: Seq<char>) -> nat
    decreases s.len(),
{
    if s.len() > 0 && word_char(s[0]) {
        1 + word_len(s.drop_first())
    } else {
        0
    }
}

/// The number of characters of a string literal's body and closing quote, given the
/// characters after its opening quote; a backslash escapes the character after it.
pub open spec fn string_body_len(s: Seq<char>) -> nat
    decreases s.len(),
{
    if s.len() == 0 {
        0
    } else if s[0] == '"' {
        1
    } else if s[0] == '\\' && s.len() >= 2 {
        2 + string_body_len(s.skip(2))
    } else {
        1 + string_body_len(s.drop_first())
    }
}

/// A run of word characters is no longer than the text.
proof fn lemma_word_len_bound(s: Seq<char>)
    ensures
        word_len(s) <= s.len(),
    decreases s.len(),
{
    if s.len() > 0 {
        lemma_word_len_bound(s.drop_first());
    }
}

/// A string literal's body is no longer than the text.
proof fn lemma_string_body_len_bound(s: Seq<char>)
    ensures
        string_body_len(s) <= s.len(),
    decreases s.len(),
{
    if s.len() > 0 {
        lemma_string_body_len_bound(s.drop_first());
        if s.len() >= 2 {
            lemma_string_body_len_bound(s.skip(2));
        }
    }
}

/// The tokens of `s`: white space separates tokens, words and numbers run as long as word
/// characters follow, string literals run to their closing quote, and every other character
/// is a token of its own.
pub open spec fn lex(s: Seq<char>) -> Seq<TokenModel>
    decreases s.len(),
    via lex_decreases
{
    if s.len() == 0 {
        seq![]
    } else if is_space(s[0]) {
        lex(s.drop_first())
    } else if word_start(s[0]) {
        let k = 1 + word_len(s.drop_first());
        seq![TokenModel::Ident(s.take(k as int))] + lex(s.skip(k as int))
    } else if is_digit(s[0]) {
        let k = 1 + word_len(s.drop_first());
        seq![TokenModel::Literal] + lex(s.skip(k as int))
    } else if s[0] == '"' {
        let k = 1 + string_body_len(s.drop_first());
        seq![TokenModel::Literal] + lex(s.skip(k as int))
    } else {
        seq![punct(s[0])] + lex(s.drop_first())
    }
}

fn is_digit_char(c: char) -> (b: bool)
    ensures
        b == is_digit(c),
{
    let n = c as u32;
    0x30 <= n && n <= 0x39
}

fn is_word_start(c: char) -> (b: bool)
    ensures
        b == word_start(c),
{
    let n = c as u32;
    c == '_' || (0x41 <= n && n <= 0x5A) || (0x61 <= n && n <= 0x7A) || (n >= 0x80
        && !is_space_char(c))
}

fn is_word_char(c: char) -> (b: bool)
    ensures
        b == word_char(c),
{
    is_word_start(c) || is_digit_char(c)
}

/// The end of the run of word characters that starts at `i`.
fn word_end(s: &Vec<char>, i: usize) -> (e: usize)
    requires
        i <= s.len(),
    ensures
        e == i + word_len(s@.skip(i as int)),
        e <= s.len(),
{
    let mut j = i;
    while j < s.len() && is_word_char(s[j])
        invariant
            i <= j <= s.len(),
            word_len(s@.skip(i as int)) == (j - i) + word_len(s@.skip(j as int)),
        decreases s.len() - j,
    {
        assert(s@.skip(j as int).drop_first() =~= s@.skip(j + 1));
        j = j + 1;
    }
    j
}

/// The end of the string literal whose body starts at `i` (just after the opening quote).
fn string_end(s: &Vec<char>, i: usize) -> (e: usize)
    requires
        i <= s.len(),
    ensures
        e == i + string_body_len(s@.skip(i as int)),
        e <= s.len(),
{
    let mut j = i;
    loop
        invariant
            i <= j <= s.len(),
            string_body_len(s@.skip(i as int)) == (j - i) + string_body_len(s@.skip(j as int)),
        decreases s.len() - j,
    {
        if j >= s.len() {
            return j;
        }
        if s[j] == '"' {
            return j + 1;
        }
        assert(s@.skip(j as int)[0] == s[j as int]);
        if s[j] == '\\' && j + 1 < s.len() {
            assert(s@.skip(j as int).skip(2) =~= s@.skip(j + 2));
            j = j + 2;
        } else {
            assert(s@.skip(j as int).drop_first() =~= s@.skip(j + 1));
            j = j + 1;
        }
    }
}

/// Each step of [`lex`] consumes at least one character.
#[via_fn]
proof fn lex_decreases(s: Seq<char>) {
    if s.len() > 0 {
        lemma_word_len_bound(s.drop_first());
        lemma_string_body_len_bound(s.drop_first());
    }
}

fn push_token(toks: &mut Vec<Token>, t: Token)
    ensures
        token_views(final(toks)@) == token_views(old(toks)@).push(t@),
{
    let ghost before = toks@;
    let ghost v = t@;
    toks.push(t);
    assert(token_views(toks@) =~= token_views(before).push(v));
}

/// Splits `s` into tokens (see [`lex`]).
pub fn tokenize(s: &Vec<char>) -> (toks: Vec<Token>)
    ensures
        token_views(toks@) == lex(s@),
{
    let n = s.len();
    let mut toks: Vec<Token> = Vec::new();
    let mut i: usize = 0;
    assert(s@.skip(0) =~= s@);
    assert(token_views(toks@) + lex(s@) =~= lex(s@));
    while i < n
        invariant
            i <= n == s.len(),
            lex(s@) == token_views(toks@) + lex(s@.skip(i as int)),
        decreases n - i,
    {
        let ghost rest = s@.skip(i as int);
        let ghost before = token_views(toks@);
        let c = s[i];
        assert(rest[0] == c);
        assert(rest.drop_first() =~= s@.skip(i + 1));
        if is_space_char(c) {
            i = i + 1;
        } else {
            let (tok, e) = if is_word_start(c) {
                let e = word_end(s, i + 1);
                let mut w: Vec<char> = Vec::new();
                let mut j = i;
                while j < e
                    invariant
                        i <= j <= e <= n == s.len(),
                        w@ == s@.subrange(i as int, j as int),
                    decreases e - j,
                {
                    w.push(s[j]);
                    j = j + 1;
                }
                assert(w@ =~= rest.take(e - i));
                assert(rest.skip(e - i) =~= s@.skip(e as int));
                assert(lex(rest) == seq![TokenModel::Ident(w@)] + lex(s@.skip(e as int)));
                (Token::Ident(w), e)
            } else if is_digit_char(c) {
                let e = word_end(s, i + 1);
                assert(rest.skip(e - i) =~= s@.skip(e as int));
                assert(lex(rest) == seq![TokenModel::Literal] + lex(s@.skip(e as int)));
                (Token::Literal, e)
            } else if c == '"' {
                let e = string_end(s, i + 1);
                assert(rest.skip(e - i) =~= s@.skip(e as int));
                assert(lex(rest) == seq![TokenModel::Literal] + lex(s@.skip(e as int)));
                (Token::Literal, e)
            } else {
                let t = punct_token(c);
                assert(lex(rest) == seq![t@] + lex(s@.skip(i + 1)));
                (t, i + 1)
            };
            assert(lex(rest) == seq![tok@] + lex(s@.skip(e as int)));
            push_token(&mut toks, tok);
            assert(token_views(toks@) + lex(s@.skip(e as int)) =~= before + lex(rest));
            i = e;
        }
    }
    assert(s@.skip(n as int) =~= Seq::<char>::empty());
    assert(token_views(toks@) + seq![] =~= token_views(toks@));
    toks
}


/// `cfg`
pub open spec fn word_cfg() -> Seq<char> {
    seq!['c', 'f', 'g']
}

/// `test`
pub open spec fn word_test() -> Seq<char> {
    seq!['t', 'e', 's', 't']
}

/// `all`
pub open spec fn word_all() -> Seq<char> {
    seq!['a', 'l', 'l']
}

/// `any`
pub open spec fn word_any() -> Seq<char> {
    seq!['a', 'n', 'y']
}

/// `allow`
pub open spec fn word_allow() -> Seq<char> {
    seq!['a', 'l', 'l', 'o', 'w']
}

/// `clippy`
pub open spec fn word_clippy() -> Seq<char> {
    seq!['c', 'l', 'i', 'p', 'p', 'y']
}

/// `too_many_lines`
pub open spec fn word_too_many_lines() -> Seq<char> {
    seq!['t', 'o', 'o', '_', 'm', 'a', 'n', 'y', '_', 'l', 'i', 'n', 'e', 's']
}

/// `doc`
pub open spec fn word_doc() -> Seq<char> {
    seq!['d', 'o', 'c']
}

/// Whether `t` is the word `w`.
fn is_word(t: &Token, w: &Vec<char>) -> (b: bool)
    ensures
        b == (t@ == TokenModel::Ident(w@)),
{
    match t {
        Token::Ident(v) => {
            if v.len() != w.len() {
                return false;
            }
            let mut i: usize = 0;
            assert(t@ == TokenModel::Ident(v@));
            while i < v.len()
                invariant
                    i <= v.len() == w.len(),
                    t@ == TokenModel::Ident(v@),
                    forall|k: int| 0 <= k < i ==> v@[k] == w@[k],
                decreases v.len() - i,
            {
                if v[i] != w[i] {
                    assert(v@[i as int] != w@[i as int]);
                    assert(v@ != w@);
                    assert(t@ == TokenModel::Ident(v@));
                    return false;
                }
                i = i + 1;
            }
            assert(v@ =~= w@);
            true
        },
        _ => false,
    }
}

/// Evaluates the configuration predicate that starts at token `i`. The result tells
/// whether the predicate can only hold when compiling tests, and where it ends.
/// `test` requires tests; `all(..)` requires them when one of its parts does;
/// `any(..)` when it has parts and all of them do; `not(..)`, `key = "value"`, any other
/// word and any other list do not.
pub open spec fn pred_at(t: Seq<TokenModel>, i: int) -> Option<(bool, int)>
    decreases t.len() - i, 0int,
{
    if 0 <= i < t.len() {
        match t[i] {
            TokenModel::Ident(w) => {
                if i + 1 < t.len() && t[i + 1] == TokenModel::Equals {
                    if i + 2 < t.len() && t[i + 2] == TokenModel::Literal {
                        Some((false, i + 3))
                    } else {
                        None
                    }
                } else if i + 1 < t.len() && t[i + 1] == TokenModel::Open {
                    match list_at(t, i + 2) {
                        Some((some_part, every_part, nonempty, e)) => Some(
                            (
                                if w == word_all() {
                                    some_part
                                } else if w == word_any() {
                                    nonempty && every_part
                                } else {
                                    false
                                },
                                e,
                            ),
                        ),
                        None => None,
                    }
                } else {
                    Some((w == word_test(), i + 1))
                }
            },
            _ => None,
        }
    } else {
        None
    }
}

/// Evaluates the comma-separated predicates from token `j` up to the closing
/// parenthesis: whether some part requires tests, whether every part does, whether
/// there is a part, and the position after the closing parenthesis.
pub open spec fn list_at(t: Seq<TokenModel>, j: int) -> Option<(bool, bool, bool, int)>
    decreases t.len() - j, 1int,
{
    if 0 <= j < t.len() {
        if t[j] == TokenModel::Close {
            Some((false, true, false, j + 1))
        } else {
            match pred_at(t, j) {
                Some((b, k)) => {
                    if j < k < t.len() {
                        if t[k] == TokenModel::Close {
                            Some((b, b, true, k + 1))
                        } else if t[k] == TokenModel::Comma {
                            match list_at(t, k + 1) {
                                Some((s, a, _, e)) => Some((b || s, b && a, true, e)),
                                None => None,
                            }
                        } else {
                            None
                        }
                    } else {
                        None
                    }
                },
                None => None,
            }
        }
    } else {
        None
    }
}

struct Words {
    test: Vec<char>,
    all: Vec<char>,
    any: Vec<char>,
}

impl Words {
    spec fn wf(&self) -> bool {
        &&& self.test@ == word_test()
        &&& self.all@ == word_all()
        &&& self.any@ == word_any()
    }
}

fn eval_pred(t: &Vec<Token>, i: usize, words: &Words) -> (r: Option<(bool, usize)>)
    requires
        words.wf(),
    ensures
        match r {
            Some((b, e)) => pred_at(token_views(t@), i as int) == Some((b, e as int)) && e <= t.len(),
            None => pred_at(token_views(t@), i as int) is None,
        },
    decreases t.len() - i, 0usize,
{
    let ghost tv = token_views(t@);
    if i >= t.len() {
        return None;
    }
    assert(tv[i as int] == t@[i as int]@);
    match &t[i] {
        Token::Ident(w) => {
            if i + 1 < t.len() && matches!(t[i + 1], Token::Equals) {
                assert(tv[i + 1] == t@[i + 1]@);
                if i + 2 < t.len() && matches!(t[i + 2], Token::Literal) {
                    assert(tv[i + 2] == t@[i + 2]@);
                    Some((false, i + 3))
                } else {
                    assert(i + 2 < t.len() ==> tv[i + 2] == t@[i + 2]@);
                    None
                }
            } else if i + 1 < t.len() && matches!(t[i + 1], Token::Open) {
                assert(tv[i + 1] == t@[i + 1]@);
                match eval_list(t, i + 2, words) {
                    Some((some_part, every_part, nonempty, e)) => {
                        let b = if is_word(&t[i], &words.all) {
                            some_part
                        } else if is_word(&t[i], &words.any) {
                            nonempty && every_part
                        } else {
                            false
                        };
                        Some((b, e))
                    },
                    None => None,
                }
            } else {
                assert(i + 1 < t.len() ==> tv[i + 1] == t@[i + 1]@);
                Some((is_word(&t[i], &words.test), i + 1))
            }
        },
        _ => None,
    }
}

fn eval_list(t: &Vec<Token>, j: usize, words: &Words) -> (r: Option<(bool, bool, bool, usize)>)
    requires
        words.wf(),
    ensures
        match r {
            Some((s, a, n, e)) => list_at(token_views(t@), j as int) == Some((s, a, n, e as int))
                && e <= t.len(),
            None => list_at(token_views(t@), j as int) is None,
        },
    decreases t.len() - j, 1usize,
{
    let ghost tv = token_views(t@);
    if j >= t.len() {
        return None;
    }
    assert(tv[j as int] == t@[j as int]@);
    if matches!(t[j], Token::Close) {
        return Some((false, true, false, j + 1));
    }
    match eval_pred(t, j, words) {
        Some((b, k)) => {
            if j < k && k < t.len() {
                assert(tv[k as int] == t@[k as int]@);
                if matches!(t[k], Token::Close) {
                    Some((b, b, true, k + 1))
                } else if matches!(t[k], Token::Comma) {
                    match eval_list(t, k + 1, words) {
                        Some((s, a, _, e)) => Some((b || s, b && a, true, e)),
                        None => None,
                    }
                } else {
                    None
                }
            } else {
                None
            }
        },
        None => None,
    }
}


/// `cfg(P)` where the predicate `P` can only hold when compiling tests.
pub open spec fn cfg_requires_test(t: Seq<TokenModel>) -> bool {
    &&& t.len() >= 3
    &&& t[0] == TokenModel::Ident(word_cfg())
    &&& t[1] == TokenModel::Open
    &&& match pred_at(t, 2) {
        Some((b, e)) => b && e + 1 == t.len() && t[e] == TokenModel::Close,
        None => false,
    }
}

/// The end of the path `a::b::c` whose first word is token `i`.
pub open spec fn path_end(t: Seq<TokenModel>, i: int) -> int
    decreases t.len() - i,
{
    if 0 <= i && i + 3 < t.len() && t[i + 1] == TokenModel::Colon && t[i + 2]
        == TokenModel::Colon && t[i + 3] is Ident {
        path_end(t, i + 3)
    } else {
        i + 1
    }
}

/// A test attribute: a path whose last segment is `test` (`test`, `tokio::test`),
/// alone or followed by arguments.
pub open spec fn test_marker(t: Seq<TokenModel>) -> bool {
    &&& t.len() >= 1
    &&& t[0] is Ident
    &&& t[path_end(t, 0) - 1] == TokenModel::Ident(word_test())
    &&& (path_end(t, 0) == t.len() || t[path_end(t, 0)] == TokenModel::Open)
}

/// The lint `clippy::too_many_lines` as an entry of a lint list, at token `i`.
pub open spec fn lint_entry_at(t: Seq<TokenModel>, i: int) -> bool {
    &&& 2 <= i && i + 4 < t.len()
    &&& (t[i - 1] == TokenModel::Open || t[i - 1] == TokenModel::Comma)
    &&& t[i] == TokenModel::Ident(word_clippy())
    &&& t[i + 1] == TokenModel::Colon
    &&& t[i + 2] == TokenModel::Colon
    &&& t[i + 3] == TokenModel::Ident(word_too_many_lines())
    &&& (t[i + 4] == TokenModel::Comma || t[i + 4] == TokenModel::Close)
}

/// `allow(..)` with `clippy::too_many_lines` among its lints.
pub open spec fn allows_long_functions(t: Seq<TokenModel>) -> bool {
    &&& t.len() >= 3
    &&& t[0] == TokenModel::Ident(word_allow())
    &&& t[1] == TokenModel::Open
    &&& exists|i: int| lint_entry_at(t, i)
}

/// `doc = ..`: a documentation attribute.
pub open spec fn is_doc(t: Seq<TokenModel>) -> bool {
    &&& t.len() >= 2
    &&& t[0] == TokenModel::Ident(word_doc())
    &&& t[1] == TokenModel::Equals
}

/// An attribute that makes its item test code: a `cfg` that requires tests, or a test
/// attribute.
pub open spec fn attr_marks_test(meta: Seq<char>) -> bool {
    cfg_requires_test(lex(meta)) || test_marker(lex(meta))
}

/// An attribute that lifts the function size limit.
pub open spec fn attr_allows_long_fn(meta: Seq<char>) -> bool {
    allows_long_functions(lex(meta))
}

/// A documentation attribute.
pub open spec fn attr_is_doc(meta: Seq<char>) -> bool {
    is_doc(lex(meta))
}

/// What the linter reads from one attribute.
#[derive(Debug, PartialEq, Eq)]
pub struct AttrClass {
    /// The attribute makes its item test code.
    pub marks_test: bool,
    /// The attribute lifts the function size limit.
    pub allows_long_fn: bool,
    /// The attribute is documentation.
    pub is_doc: bool,
}

fn words() -> (w: Words)
    ensures
        w.wf(),
{
    let w = Words { test: vec!['t', 'e', 's', 't'], all: vec!['a', 'l', 'l'], any: vec!['a', 'n', 'y'] };
    assert(w.test@ =~= word_test());
    assert(w.all@ =~= word_all());
    assert(w.any@ =~= word_any());
    w
}

fn token_is(t: &Vec<Token>, i: usize, k: &Token) -> (b: bool)
    requires
        !(k is Ident),
    ensures
        b == (i < t.len() && token_views(t@)[i as int] == k@),
{
    if i >= t.len() {
        return false;
    }
    assert(token_views(t@)[i as int] == t@[i as int]@);
    match (&t[i], k) {
        (Token::Literal, Token::Literal) => true,
        (Token::Open, Token::Open) => true,
        (Token::Close, Token::Close) => true,
        (Token::Comma, Token::Comma) => true,
        (Token::Equals, Token::Equals) => true,
        (Token::Colon, Token::Colon) => true,
        (Token::Other, Token::Other) => true,
        _ => false,
    }
}

fn word_at(t: &Vec<Token>, i: usize, w: &Vec<char>) -> (b: bool)
    ensures
        b == (i < t.len() && token_views(t@)[i as int] == TokenModel::Ident(w@)),
{
    if i >= t.len() {
        return false;
    }
    assert(token_views(t@)[i as int] == t@[i as int]@);
    is_word(&t[i], w)
}

fn requires_test_cfg(t: &Vec<Token>) -> (b: bool)
    ensures
        b == cfg_requires_test(token_views(t@)),
{
    let n = t.len();
    if n < 3 || !word_at(t, 0, &vec!['c', 'f', 'g']) || !token_is(t, 1, &Token::Open) {
        assert(seq!['c', 'f', 'g'] =~= word_cfg());
        return false;
    }
    assert(seq!['c', 'f', 'g'] =~= word_cfg());
    let w = words();
    match eval_pred(t, 2, &w) {
        Some((b, e)) => b && e == n - 1 && token_is(t, e, &Token::Close),
        None => false,
    }
}

fn path_end_exec(t: &Vec<Token>, i: usize) -> (e: usize)
    requires
        i < t.len(),
    ensures
        e == path_end(token_views(t@), i as int),
        i < e <= t.len(),
{
    let ghost tv = token_views(t@);
    let mut j = i;
    while t.len() > 3 && j < t.len() - 3 && token_is(t, j + 1, &Token::Colon) && token_is(t, j + 2, &Token::Colon)
        && matches!(t[j + 3], Token::Ident(_))
        invariant
            i <= j < t.len(),
            tv == token_views(t@),
            path_end(tv, i as int) == path_end(tv, j as int),
        decreases t.len() - j,
    {
        assert(tv[j + 3] == t@[j + 3]@);
        j = j + 3;
    }
    assert(j + 3 < t.len() ==> tv[j + 3] == t@[j + 3]@);
    j + 1
}

fn test_marker_exec(t: &Vec<Token>) -> (b: bool)
    ensures
        b == test_marker(token_views(t@)),
{
    let ghost tv = token_views(t@);
    if t.len() == 0 {
        return false;
    }
    assert(tv[0] == t@[0]@);
    if !matches!(t[0], Token::Ident(_)) {
        return false;
    }
    let e = path_end_exec(t, 0);
    let ok = word_at(t, e - 1, &vec!['t', 'e', 's', 't']);
    assert(seq!['t', 'e', 's', 't'] =~= word_test());
    ok && (e == t.len() || token_is(t, e, &Token::Open))
}

fn allows_long_exec(t: &Vec<Token>) -> (b: bool)
    ensures
        b == allows_long_functions(token_views(t@)),
{
    let ghost tv = token_views(t@);
    let clippy = vec!['c', 'l', 'i', 'p', 'p', 'y'];
    let lint = vec!['t', 'o', 'o', '_', 'm', 'a', 'n', 'y', '_', 'l', 'i', 'n', 'e', 's'];
    assert(clippy@ =~= word_clippy());
    assert(lint@ =~= word_too_many_lines());
    assert(seq!['a', 'l', 'l', 'o', 'w'] =~= word_allow());
    if t.len() < 3 || !word_at(t, 0, &vec!['a', 'l', 'l', 'o', 'w']) || !token_is(t, 1, &Token::Open) {
        return false;
    }
    let mut i: usize = 2;
    while t.len() > 4 && i < t.len() - 4
        invariant
            2 <= i,
            tv.len() >= 3,
            tv[0] == TokenModel::Ident(word_allow()),
            tv[1] == TokenModel::Open,
            tv == token_views(t@),
            clippy@ == word_clippy(),
            lint@ == word_too_many_lines(),
            forall|k: int| 2 <= k < i ==> !lint_entry_at(tv, k),
        decreases t.len() - i,
    {
        if (token_is(t, i - 1, &Token::Open) || token_is(t, i - 1, &Token::Comma))
            && word_at(t, i, &clippy) && token_is(t, i + 1, &Token::Colon)
            && token_is(t, i + 2, &Token::Colon) && word_at(t, i + 3, &lint)
            && (token_is(t, i + 4, &Token::Comma) || token_is(t, i + 4, &Token::Close)) {
            assert(lint_entry_at(tv, i as int));
            return true;
        }
        i = i + 1;
    }
    assert forall|k: int| !lint_entry_at(tv, k) by {
        if 2 <= k < i {
        }
    }
    false
}

fn is_doc_exec(t: &Vec<Token>) -> (b: bool)
    ensures
        b == is_doc(token_views(t@)),
{
    assert(seq!['d', 'o', 'c'] =~= word_doc());
    t.len() >= 2 && word_at(t, 0, &vec!['d', 'o', 'c']) && token_is(t, 1, &Token::Equals)
}

/// Reads an attribute from its text (the attribute without `#[` and `]`).
pub fn classify_attr(meta: &str) -> (c: AttrClass)
    ensures
        c.marks_test == attr_marks_test(meta@),
        c.allows_long_fn == attr_allows_long_fn(meta@),
        c.is_doc == attr_is_doc(meta@),
{
    let chars = chars_of(meta);
    let t = tokenize(&chars);
    let cfg_test = requires_test_cfg(&t);
    let marker = test_marker_exec(&t);
    AttrClass {
        marks_test: cfg_test || marker,
        allows_long_fn: allows_long_exec(&t),
        is_doc: is_doc_exec(&t),
    }
}

} // verus!

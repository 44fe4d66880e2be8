# rust_agent_native_template

A Rust project template whose source files are held to four budgets, and a small
calculator. The library is written in Verus and its behaviour is proved against the
contracts stated in its source.

## Layout

- `src/example/calculator.rs`: `CalculatorError`, the error the calculator reports.
- `src/linter/`: the source linter.
  - `text.rs`: characters, white space, trimming, line splitting, decimal notation.
  - `meta.rs`: reading attributes from their text (`cfg` predicates that mark test code,
    `#[test]`-like attributes, `allow(clippy::too_many_lines)`, documentation).
  - `scan.rs`: a line scanner that tells code from comments.
  - `rules.rs`: the structure of a file as the rules read it; test-code scopes; the code
    and comment budgets; the module header's length; function sizes.
  - `violation.rs`: the four rules and the order in which they are applied.
  - `report.rs`: the messages.
  - `tree.rs`: a parsed file as plain values (a tree of items with their kinds,
    attributes and regions) and its flattening into the outline that the rules read.
  - `syntax.rs`: parsing with `syn` into that tree, and `check_source`.
  - `laws.rs`: properties that hold for every input.
- `app/`: the program: the `f64` calculator and the linter's file-system driver
  (`lint` as the first argument runs the linter on `src/`).

## The rules

1. A production file opens with a `//!` header of at least 100 characters.
2. A file holds at most 10,000 characters of code.
3. A file holds at most 4,000 characters of comments and documentation.
4. A function spans at most 2,000 characters.

Characters are counted as Unicode characters, each line with its line ending; blank
lines count for nothing, and a line counts as code or as comments as said below. The
scanner knows string literals, raw strings, character
literals, lifetimes and nested block comments. Test code
(items and other syntax nodes under a `cfg` that requires `test`, and functions with a test attribute such as
`#[test]` or `#[tokio::test]`) counts toward no budget and no function limit;
`#[allow(clippy::too_many_lines)]` lifts the function limit for an item and everything in
it. A file that does not parse passes, so that the compiler reports the error.

The structure is read from syn's parse, converted node for node into a plain tree: every
item (of the file, of modules, of blocks and of `extern` blocks), every member of an
`impl` block or a trait, every variant and field, every statement, `match` arm and
expression, each with its attributes and its region. The verified code decides from
that tree what is test code and which functions are measured, so a function is found
wherever it stands among these nodes: in a module, a block, a closure or an initializer.
Attributes of parameters, generic parameters and patterns are not read, and expressions
that stand inside types or patterns (such as an array length) are not entered.
`check_source` states its result as the rules above applied to that parse, and
`check_tree` states it for any given tree.

A line counts as comments when it starts inside a block comment or when its first visible
characters open a comment, even if code follows on it; any other line that is not blank
counts as code.

//! Reading a source file's structure with syn, and checking a file from its text.
use vstd::prelude::*;
use crate::linter::report::{check_outline, lint_result_in};
use crate::linter::rules::{LineCol, ModuleAttr, Outline};
use crate::linter::tree::{flat_nodes, outline_of, outline_wf, SynFile, SynFn, SynKind, SynNode, SynRegion};
use syn::spanned::Spanned;
use syn::{Expr, Item};

verus! {

/// An item of a module or of a block.
#[verifier::external_type_specification]
#[verifier::external_body]
pub struct ExSynItem(syn::Item);

/// An item of an `impl` block.
#[verifier::external_type_specification]
#[verifier::external_body]
pub struct ExSynImplItem(syn::ImplItem);

/// An item of a trait.
#[verifier::external_type_specification]
#[verifier::external_body]
pub struct ExSynTraitItem(syn::TraitItem);

/// An item of an `extern` block.
#[verifier::external_type_specification]
#[verifier::external_body]
pub struct ExSynForeignItem(syn::ForeignItem);

/// A variant of an enum.
#[verifier::external_type_specification]
#[verifier::external_body]
pub struct ExSynVariant(syn::Variant);

/// A field of a struct, a union or an enum variant.
#[verifier::external_type_specification]
#[verifier::external_body]
pub struct ExSynField(syn::Field);

/// A statement of a block.
#[verifier::external_type_specification]
#[verifier::external_body]
pub struct ExSynStmt(syn::Stmt);

/// A `let` statement.
#[verifier::external_type_specification]
#[verifier::external_body]
pub struct ExSynLocal(syn::Local);

/// An expression.
#[verifier::external_type_specification]
#[verifier::external_body]
pub struct ExSynExpr(syn::Expr);

/// An arm of a `match` expression.
#[verifier::external_type_specification]
#[verifier::external_body]
pub struct ExSynArm(syn::Arm);

/// A field of a struct expression, `name: value`.
#[verifier::external_type_specification]
#[verifier::external_body]
pub struct ExSynFieldValue(syn::FieldValue);

/// A function signature.
#[verifier::external_type_specification]
#[verifier::external_body]
pub struct ExSynSignature(syn::Signature);

/// A braced block of statements.
#[verifier::external_type_specification]
#[verifier::external_body]
pub struct ExSynBlock(syn::Block);

/// An attribute, outer (`#[..]`) or inner (`#![..]`); doc comments are attributes too.
#[verifier::external_type_specification]
#[verifier::external_body]
pub struct ExSynAttribute(syn::Attribute);

/// A region of source text.
#[verifier::external_type_specification]
#[verifier::external_body]
pub struct ExSpan(proc_macro2::Span);

/// What syn makes of a source text, as plain values: none when `syn::parse_file` rejects
/// the text; else the file's inner attributes and its syntax tree, in which every item,
/// member, variant, field, statement, `match` arm and expression is a node with its kind,
/// its attributes' texts, its region (lines from 1, columns in characters from 0) and the
/// nodes it contains.
pub uninterp spec fn syn_tree(content: Seq<char>) -> Option<SynFile>;

/// Parses `content` as a whole source file with `syn::parse_file` and converts the tree,
/// node for node, into plain values; the result is [`syn_tree`] of the text. Before
/// parsing it clears the thread's table of source positions with
/// `proc_macro2::extra::invalidate_current_thread_spans`, so that positions count from
/// the start of this text alone. proc-macro2 holds positions as `u32` offsets counted in
/// characters, hence the bound on the length. The conversion of each kind of node is one
/// of the functions below; what the tree holds is not stated beyond its name.
#[verifier::external_body]
fn parse_tree(content: &str) -> (t: Option<SynFile>)
    requires
        content@.len() < 0xFFFF_FFFF,
    ensures
        t == syn_tree(content@),
{
    proc_macro2::extra::invalidate_current_thread_spans();
    match syn::parse_file(content) {
        Ok(file) => Some(SynFile {
            attrs: file.attrs.iter().map(file_attr).collect(),
            items: file.items.iter().map(item_node).collect(),
        }),
        Err(_) => None,
    }
}

/// Converts a file-level attribute: its text (see [`attr_text`]) and, for `name = "text"`,
/// the string's value from `syn::LitStr::value`, escapes resolved.
#[verifier::external_body]
fn file_attr(attr: &syn::Attribute) -> ModuleAttr {
    let value = match &attr.meta {
        syn::Meta::NameValue(syn::MetaNameValue {
            value: syn::Expr::Lit(syn::ExprLit { lit: syn::Lit::Str(s), .. }),
            ..
        }) => Some(s.value()),
        _ => None,
    };
    ModuleAttr { meta: attr_text(attr), value }
}

/// Prints an attribute's content (what stands between `#[` and `]`) with
/// `quote::ToTokens::to_token_stream` and the token stream's `to_string`, such as
/// `cfg (all (not (feature = "mock") , test))`.
#[verifier::external_body]
fn attr_text(attr: &syn::Attribute) -> String {
    quote::ToTokens::to_token_stream(&attr.meta).to_string()
}

/// Converts a span with `proc_macro2::Span::start` and `end`.
#[verifier::external_body]
fn region_of(span: proc_macro2::Span) -> SynRegion {
    let (s, e) = (span.start(), span.end());
    SynRegion {
        start: LineCol { line: s.line, column: s.column },
        end: LineCol { line: e.line, column: e.column },
    }
}

/// Builds a node from a syntax node's kind, its attributes (each printed by
/// [`attr_text`]), its span and its converted children.
#[verifier::external_body]
fn node_of(kind: SynKind, attrs: &Vec<syn::Attribute>, span: proc_macro2::Span, children: Vec<SynNode>) -> SynNode {
    SynNode { kind, attrs: attrs.iter().map(attr_text).collect(), region: region_of(span), children }
}

/// Builds a node for a syntax node that has no attributes and no children (verbatim
/// tokens, and variants that syn may add later).
#[verifier::external_body]
fn bare_node(span: proc_macro2::Span) -> SynNode {
    SynNode { kind: SynKind::Other, attrs: Vec::new(), region: region_of(span), children: Vec::new() }
}

/// Converts a function's signature and body: the identifier's `to_string`, and the regions
/// of `syn::spanned::Spanned::span` on the signature and on the body.
#[verifier::external_body]
fn fn_of(sig: &syn::Signature, body: Option<&syn::Block>) -> SynFn {
    SynFn { name: sig.ident.to_string(), sig: region_of(sig.span()), body: body.map(|b| region_of(b.span())) }
}

/// Converts an item: a function, whose children are the statements of its body; an inline
/// module, whose children are its items; an `impl` block, whose children are its members.
/// Other items go to [`item_node_rest`]. Each node has the item's attributes and the span
/// of `syn::spanned::Spanned::span` on it, outer attributes included.
#[verifier::external_body]
fn item_node(item: &Item) -> SynNode {
    let (kind, attrs, children) = match item {
        Item::Fn(x) => (SynKind::Func(fn_of(&x.sig, Some(&x.block))), &x.attrs, block_nodes(&x.block)),
        Item::Mod(x) => (SynKind::Item, &x.attrs, x.content.iter().flat_map(|c| c.1.iter().map(item_node)).collect()),
        Item::Impl(x) => (SynKind::Item, &x.attrs, x.items.iter().map(impl_member_node).collect()),
        _ => return item_node_rest(item),
    };
    node_of(kind, attrs, item.span(), children)
}

/// Converts a trait, whose children are its members; a `const` or `static` item, whose
/// child is its initializer; an enum, whose children are its variants; a struct, whose
/// children are its fields. Other items go to [`item_node_last`].
#[verifier::external_body]
fn item_node_rest(item: &Item) -> SynNode {
    let (attrs, children): (_, Vec<SynNode>) = match item {
        Item::Trait(x) => (&x.attrs, x.items.iter().map(trait_member_node).collect()),
        Item::Const(x) => (&x.attrs, one(&x.expr)),
        Item::Static(x) => (&x.attrs, one(&x.expr)),
        Item::Enum(x) => (&x.attrs, x.variants.iter().map(variant_node).collect()),
        Item::Struct(x) => (&x.attrs, x.fields.iter().map(field_node).collect()),
        _ => return item_node_last(item),
    };
    node_of(SynKind::Item, attrs, item.span(), children)
}

/// Converts a union, whose children are its fields, and an `extern` block, whose children
/// are its items; other items go to [`item_node_plain`].
#[verifier::external_body]
fn item_node_last(item: &Item) -> SynNode {
    let (attrs, children): (_, Vec<SynNode>) = match item {
        Item::Union(x) => (&x.attrs, x.fields.named.iter().map(field_node).collect()),
        Item::ForeignMod(x) => (&x.attrs, x.items.iter().map(foreign_item_node).collect()),
        _ => return item_node_plain(item),
    };
    node_of(SynKind::Item, attrs, item.span(), children)
}

/// Converts `use`, `extern crate`, type aliases, trait aliases and macro invocations,
/// which have no children; verbatim tokens have no attributes.
#[verifier::external_body]
fn item_node_plain(item: &Item) -> SynNode {
    let attrs = match item {
        Item::Use(x) => &x.attrs,
        Item::ExternCrate(x) => &x.attrs,
        Item::Type(x) => &x.attrs,
        Item::TraitAlias(x) => &x.attrs,
        Item::Macro(x) => &x.attrs,
        _ => return bare_node(item.span()),
    };
    node_of(SynKind::Item, attrs, item.span(), Vec::new())
}

/// Converts a variant of an enum: its children are its fields and its discriminant.
#[verifier::external_body]
fn variant_node(variant: &syn::Variant) -> SynNode {
    let fields = variant.fields.iter().map(field_node);
    let children = fields.chain(variant.discriminant.iter().map(|(_, e)| expr_node(e))).collect();
    node_of(SynKind::Variant, &variant.attrs, variant.span(), children)
}

/// Converts a field of a struct, a union or a variant.
#[verifier::external_body]
fn field_node(field: &syn::Field) -> SynNode {
    node_of(SynKind::Field, &field.attrs, field.span(), Vec::new())
}

/// Converts an item of an `extern` block.
#[verifier::external_body]
fn foreign_item_node(member: &syn::ForeignItem) -> SynNode {
    let attrs = match member {
        syn::ForeignItem::Fn(x) => &x.attrs,
        syn::ForeignItem::Static(x) => &x.attrs,
        syn::ForeignItem::Type(x) => &x.attrs,
        syn::ForeignItem::Macro(x) => &x.attrs,
        _ => return bare_node(member.span()),
    };
    node_of(SynKind::Member, attrs, member.span(), Vec::new())
}

/// Converts a member of an `impl` block: a function, whose children are the statements of
/// its body; a `const`, whose child is its value; a type or a macro invocation.
#[verifier::external_body]
fn impl_member_node(member: &syn::ImplItem) -> SynNode {
    let (kind, attrs, children) = match member {
        syn::ImplItem::Fn(x) => (SynKind::Func(fn_of(&x.sig, Some(&x.block))), &x.attrs, block_nodes(&x.block)),
        syn::ImplItem::Const(x) => (SynKind::Member, &x.attrs, one(&x.expr)),
        syn::ImplItem::Type(x) => (SynKind::Member, &x.attrs, Vec::new()),
        syn::ImplItem::Macro(x) => (SynKind::Member, &x.attrs, Vec::new()),
        _ => return bare_node(member.span()),
    };
    node_of(kind, attrs, member.span(), children)
}

/// Converts a member of a trait: a function, whose children are the statements of its
/// default body if it has one; a `const`, whose child is its default value if any; a type
/// or a macro invocation.
#[verifier::external_body]
fn trait_member_node(member: &syn::TraitItem) -> SynNode {
    let (kind, attrs, children) = match member {
        syn::TraitItem::Fn(x) => (SynKind::Func(fn_of(&x.sig, x.default.as_ref())), &x.attrs, x.default.iter().flat_map(block_nodes).collect()),
        syn::TraitItem::Const(x) => (SynKind::Member, &x.attrs, x.default.iter().map(|(_, e)| expr_node(e)).collect()),
        syn::TraitItem::Type(x) => (SynKind::Member, &x.attrs, Vec::new()),
        syn::TraitItem::Macro(x) => (SynKind::Member, &x.attrs, Vec::new()),
        _ => return bare_node(member.span()),
    };
    node_of(kind, attrs, member.span(), children)
}

/// Converts the statements of a block, one for one.
#[verifier::external_body]
fn block_nodes(block: &syn::Block) -> Vec<SynNode> {
    block.stmts.iter().map(stmt_node).collect()
}

/// Converts a statement: a `let`, whose children are its initializer and its `else`
/// block; an item; an expression, which is its own node; a macro invocation.
#[verifier::external_body]
fn stmt_node(stmt: &syn::Stmt) -> SynNode {
    match stmt {
        syn::Stmt::Local(x) => local_node(x),
        syn::Stmt::Item(x) => item_node(x),
        syn::Stmt::Expr(x, _) => expr_node(x),
        syn::Stmt::Macro(x) => node_of(SynKind::Other, &x.attrs, stmt.span(), Vec::new()),
    }
}

/// Converts a `let` statement: its children are its initializer and its `else` block.
#[verifier::external_body]
fn local_node(local: &syn::Local) -> SynNode {
    let inits = local.init.iter().map(|i| expr_node(&i.expr));
    let elses = local.init.iter().flat_map(|i| i.diverge.iter().map(|(_, e)| expr_node(e)));
    node_of(SynKind::Let, &local.attrs, local.span(), inits.chain(elses).collect())
}

/// Converts an arm of a `match`: its children are its guard and its body.
#[verifier::external_body]
fn arm_node(arm: &syn::Arm) -> SynNode {
    let guard = arm.guard.iter().map(|(_, e)| expr_node(e));
    node_of(SynKind::Arm, &arm.attrs, arm.span(), guard.chain(std::iter::once(expr_node(&arm.body))).collect())
}

/// Converts a field of a struct expression: its child is its value.
#[verifier::external_body]
fn field_value_node(field: &syn::FieldValue) -> SynNode {
    node_of(SynKind::Field, &field.attrs, field.span(), one(&field.expr))
}

/// Builds the node of expression `e`, with attributes `attrs` and its converted children.
#[verifier::external_body]
fn ex(attrs: &Vec<syn::Attribute>, e: &Expr, children: Vec<SynNode>) -> SynNode {
    node_of(SynKind::Expr, attrs, e.span(), children)
}

/// Converts one expression into a list of one child.
#[verifier::external_body]
fn one(e: &Expr) -> Vec<SynNode> {
    vec![expr_node(e)]
}

/// Converts an optional expression into a list of none or one child.
#[verifier::external_body]
fn opt(e: &Option<Box<Expr>>) -> Vec<SynNode> {
    e.iter().map(|b| expr_node(b)).collect()
}

/// Converts an expression into a node with its attributes and the span of
/// `syn::spanned::Spanned::span` on it; its children are its operand expressions and the
/// statements of its blocks, in source order. This one converts the kinds `Array`, `Assign`, `Async`, `Await`, `Binary`;
/// the other kinds go to [`expr_node_b`].
#[verifier::external_body]
fn expr_node(e: &Expr) -> SynNode {
    match e {
        Expr::Array(x) => ex(&x.attrs, e, x.elems.iter().map(expr_node).collect()),
        Expr::Assign(x) => ex(&x.attrs, e, vec![expr_node(&x.left), expr_node(&x.right)]),
        Expr::Async(x) => ex(&x.attrs, e, block_nodes(&x.block)),
        Expr::Await(x) => ex(&x.attrs, e, one(&x.base)),
        Expr::Binary(x) => ex(&x.attrs, e, vec![expr_node(&x.left), expr_node(&x.right)]),
        _ => expr_node_b(e),
    }
}

/// Converts the expression kinds `Block`, `Break`, `Cast`, `Call`, `Closure`;
/// the other kinds go to [`expr_node_c`].
#[verifier::external_body]
fn expr_node_b(e: &Expr) -> SynNode {
    match e {
        Expr::Block(x) => ex(&x.attrs, e, block_nodes(&x.block)),
        Expr::Break(x) => ex(&x.attrs, e, opt(&x.expr)),
        Expr::Cast(x) => ex(&x.attrs, e, one(&x.expr)),
        Expr::Call(x) => ex(&x.attrs, e, std::iter::once(&*x.func).chain(&x.args).map(expr_node).collect()),
        Expr::Closure(x) => ex(&x.attrs, e, one(&x.body)),
        _ => expr_node_c(e),
    }
}

/// Converts the expression kinds `Const`, `Continue`, `Field`, `ForLoop`, `Group`;
/// the other kinds go to [`expr_node_d`].
#[verifier::external_body]
fn expr_node_c(e: &Expr) -> SynNode {
    match e {
        Expr::Const(x) => ex(&x.attrs, e, block_nodes(&x.block)),
        Expr::Continue(x) => ex(&x.attrs, e, Vec::new()),
        Expr::Field(x) => ex(&x.attrs, e, one(&x.base)),
        Expr::ForLoop(x) => ex(&x.attrs, e, one(&x.expr).into_iter().chain(block_nodes(&x.body)).collect()),
        Expr::Group(x) => ex(&x.attrs, e, one(&x.expr)),
        _ => expr_node_d(e),
    }
}

/// Converts the expression kinds `If`, `Index`, `Infer`, `Let`;
/// the other kinds go to [`expr_node_e`].
#[verifier::external_body]
fn expr_node_d(e: &Expr) -> SynNode {
    match e {
        Expr::If(x) => ex(&x.attrs, e, one(&x.cond).into_iter().chain(block_nodes(&x.then_branch)).chain(x.else_branch.iter().map(|(_, b)| expr_node(b))).collect()),
        Expr::Index(x) => ex(&x.attrs, e, vec![expr_node(&x.expr), expr_node(&x.index)]),
        Expr::Infer(x) => ex(&x.attrs, e, Vec::new()),
        Expr::Let(x) => ex(&x.attrs, e, one(&x.expr)),
        _ => expr_node_e(e),
    }
}

/// Converts the expression kinds `Lit`, `Loop`, `Macro`, `Match`;
/// the other kinds go to [`expr_node_f`].
#[verifier::external_body]
fn expr_node_e(e: &Expr) -> SynNode {
    match e {
        Expr::Lit(x) => ex(&x.attrs, e, Vec::new()),
        Expr::Loop(x) => ex(&x.attrs, e, block_nodes(&x.body)),
        Expr::Macro(x) => ex(&x.attrs, e, Vec::new()),
        Expr::Match(x) => ex(&x.attrs, e, one(&x.expr).into_iter().chain(x.arms.iter().map(arm_node)).collect()),
        _ => expr_node_f(e),
    }
}

/// Converts the expression kinds `MethodCall`, `Paren`, `Path`, `Range`, `RawAddr`;
/// the other kinds go to [`expr_node_g`].
#[verifier::external_body]
fn expr_node_f(e: &Expr) -> SynNode {
    match e {
        Expr::MethodCall(x) => ex(&x.attrs, e, std::iter::once(&*x.receiver).chain(&x.args).map(expr_node).collect()),
        Expr::Paren(x) => ex(&x.attrs, e, one(&x.expr)),
        Expr::Path(x) => ex(&x.attrs, e, Vec::new()),
        Expr::Range(x) => ex(&x.attrs, e, opt(&x.start).into_iter().chain(opt(&x.end)).collect()),
        Expr::RawAddr(x) => ex(&x.attrs, e, one(&x.expr)),
        _ => expr_node_g(e),
    }
}

/// Converts the expression kinds `Reference`, `Repeat`, `Return`, `Struct`, `Try`;
/// the other kinds go to [`expr_node_h`].
#[verifier::external_body]
fn expr_node_g(e: &Expr) -> SynNode {
    match e {
        Expr::Reference(x) => ex(&x.attrs, e, one(&x.expr)),
        Expr::Repeat(x) => ex(&x.attrs, e, vec![expr_node(&x.expr), expr_node(&x.len)]),
        Expr::Return(x) => ex(&x.attrs, e, opt(&x.expr)),
        Expr::Struct(x) => ex(&x.attrs, e, x.fields.iter().map(field_value_node).chain(opt(&x.rest)).collect()),
        Expr::Try(x) => ex(&x.attrs, e, one(&x.expr)),
        _ => expr_node_h(e),
    }
}

/// Converts the expression kinds `TryBlock`, `Tuple`, `Unary`, `Unsafe`, `While`;
/// the other kinds go to [`expr_node_i`].
#[verifier::external_body]
fn expr_node_h(e: &Expr) -> SynNode {
    match e {
        Expr::TryBlock(x) => ex(&x.attrs, e, block_nodes(&x.block)),
        Expr::Tuple(x) => ex(&x.attrs, e, x.elems.iter().map(expr_node).collect()),
        Expr::Unary(x) => ex(&x.attrs, e, one(&x.expr)),
        Expr::Unsafe(x) => ex(&x.attrs, e, block_nodes(&x.block)),
        Expr::While(x) => ex(&x.attrs, e, one(&x.cond).into_iter().chain(block_nodes(&x.body)).collect()),
        _ => expr_node_i(e),
    }
}

/// Converts the expression kinds `Yield`;
/// verbatim tokens have no attributes and no children.
#[verifier::external_body]
fn expr_node_i(e: &Expr) -> SynNode {
    match e {
        Expr::Yield(x) => ex(&x.attrs, e, opt(&x.expr)),
        _ => bare_node(e.span()),
    }
}

/// Whether `o` is the outline of the parse `t`: none when the text does not parse, else
/// the file's attributes and its items flattened in pre-order (see [`flat_nodes`]).
pub open spec fn outline_matches(o: Option<Outline>, t: Option<SynFile>) -> bool {
    match (o, t) {
        (None, None) => true,
        (Some(x), Some(f)) => x.module_attrs@ == f.attrs@ && x.items@ == flat_nodes(f.items@, None, 0),
        _ => false,
    }
}

/// Parses `content` with syn and reads its structure: the file-level attributes, and every
/// item of the file, of its inline modules, `impl` blocks and traits, and of the bodies of
/// its functions and of its `const` and `static` initializer blocks, in source order, each
/// with its region, the texts of its attributes and, for a function with a body, its
/// site. When syn rejects the text there is no outline.
pub fn outline_source(content: &str) -> (o: Option<Outline>)
    requires
        content@.len() < 0xFFFF_FFFF,
    ensures
        outline_matches(o, syn_tree(content@)),
        o matches Some(x) ==> outline_wf(x),
{
    match parse_tree(content) {
        Some(t) => Some(outline_of(t)),
        None => None,
    }
}

/// The result of checking a file given what its parse produced: a file that does not
/// parse passes, and is left to the compiler's own diagnostics; otherwise the first rule
/// that its outline breaks, if any.
pub open spec fn source_result(path: Seq<char>, content: Seq<char>, t: Option<SynFile>) -> Result<
    (),
    Seq<char>,
> {
    match t {
        Some(f) => lint_result_in(path, content, f.attrs@, flat_nodes(f.items@, None, 0)),
        None => Ok(()),
    }
}

/// The view of a check's result.
pub open spec fn result_view(r: Result<(), String>) -> Result<(), Seq<char>> {
    match r {
        Ok(()) => Ok(()),
        Err(m) => Err(m@),
    }
}

/// Checks the file at `path` with text `content` given what its parse produced: passes
/// when there is no parse, and otherwise reports the first rule that the file breaks.
pub fn check_tree(path: &str, content: &str, t: Option<SynFile>) -> (r: Result<(), String>)
    ensures
        result_view(r) == source_result(path@, content@, t),
{
    match t {
        Some(f) => {
            let o = outline_of(f);
            check_outline(path, content, &o)
        },
        None => Ok(()),
    }
}

/// Checks the source file at `path` with text `content`: its code budget (Rule 2), its
/// comment budget (Rule 3), its module header (Rule 1) and its functions' sizes (Rule 4),
/// with test code left out, and reports the first rule it breaks. A file that does not
/// parse passes.
pub fn check_source(path: &str, content: &str) -> (r: Result<(), String>)
    requires
        content@.len() < 0xFFFF_FFFF,
    ensures
        result_view(r) == source_result(path@, content@, syn_tree(content@)),
{
    check_tree(path, content, parse_tree(content))
}

} // verus!

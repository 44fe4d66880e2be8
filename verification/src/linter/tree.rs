//! A parsed source file as plain values: its file-level attributes and its tree of items,
//! and the flattening of that tree into the outline that the rules read.
use vstd::prelude::*;
use crate::linter::rules::{FnSite, LineCol, ModuleAttr, Outline, OutlineItem};

verus! {

/// A region of source text: where it starts and the position just past its end.
#[derive(Debug, Clone, Copy, PartialEq, Eq)]
pub struct SynRegion {
    /// The first position of the region.
    pub start: LineCol,
    /// The position just past the region's last character.
    pub end: LineCol,
}

/// A function: its name, the region of its signature and that of its body, if it has one.
pub struct SynFn {
    /// The function's name.
    pub name: String,
    /// The region of the signature, from its first keyword to its last token.
    pub sig: SynRegion,
    /// The region of the body, from its opening to its closing brace; a trait's required
    /// function has none.
    pub body: Option<SynRegion>,
}

/// What kind of syntax node a node is.
pub enum SynKind {
    /// A function (free, in a block, in an `impl` block or in a trait).
    Func(SynFn),
    /// Any other item of a module, of a block or of the file.
    Item,
    /// Any other member of an `impl` block, of a trait or of an `extern` block.
    Member,
    /// A variant of an enum.
    Variant,
    /// A field of a struct, a union or a variant, or of a struct expression.
    Field,
    /// A `let` statement.
    Let,
    /// An expression.
    Expr,
    /// An arm of a `match` expression.
    Arm,
    /// A macro invocation in statement position, or verbatim tokens.
    Other,
}

/// A syntax node of a source file with the nodes it contains.
pub struct SynNode {
    /// The node's kind.
    pub kind: SynKind,
    /// The texts of its attributes (what stands between `#[` and `]`).
    pub attrs: Vec<String>,
    /// The region it occupies, outer attributes included.
    pub region: SynRegion,
    /// The nodes it contains, in source order: the items of a module, the members of an
    /// `impl` block or a trait, the statements of a function body or of a block, the
    /// operands of an expression, and so on.
    pub children: Vec<SynNode>,
}

/// A parsed source file: its file-level attributes and its items.
pub struct SynFile {
    /// The file-level (inner) attributes, `//!` comments included.
    pub attrs: Vec<ModuleAttr>,
    /// The file's items, in source order.
    pub items: Vec<SynNode>,
}

/// The site of a function with a body: its name, the start of its signature and the end
/// of its body; none for any other node.
pub open spec fn site_of(kind: SynKind) -> Option<FnSite> {
    match kind {
        SynKind::Func(f) => match f.body {
            Some(b) => Some(FnSite { name: f.name, sig_start: f.sig.start, body_end: b.end }),
            None => None,
        },
        _ => None,
    }
}

/// The outline item for node `n` inside the item at index `parent`.
pub open spec fn item_of(n: SynNode, parent: Option<usize>) -> OutlineItem {
    OutlineItem {
        parent,
        attrs: n.attrs,
        first_line: n.region.start.line,
        last_line: n.region.end.line,
        func: site_of(n.kind),
    }
}

/// The outline items of node `n` and of everything it contains, in pre-order, when the
/// node's item lands at index `base` and its container at `parent`.
pub open spec fn flat_node(n: SynNode, parent: Option<usize>, base: int) -> Seq<OutlineItem>
    decreases n,
{
    seq![item_of(n, parent)] + flat_nodes(n.children@, Some(base as usize), base + 1)
}

/// The outline items of nodes `ns` and of everything they contain, in pre-order, when the
/// first lands at index `base`; each has its container at `parent`.
pub open spec fn flat_nodes(ns: Seq<SynNode>, parent: Option<usize>, base: int) -> Seq<OutlineItem>
    decreases ns,
{
    if ns.len() == 0 {
        Seq::empty()
    } else {
        let pre = flat_nodes(ns.drop_last(), parent, base);
        pre + flat_node(ns.last(), parent, base + pre.len())
    }
}

/// Every item's container comes before it.
pub open spec fn items_wf(items: Seq<OutlineItem>) -> bool {
    forall|i: int|
        0 <= i < items.len() ==> match #[trigger] items[i].parent {
            Some(p) => p < i,
            None => true,
        }
}

/// An outline whose items come after their containers.
pub open spec fn outline_wf(o: Outline) -> bool {
    items_wf(o.items@)
}

proof fn lemma_push_wf(s: Seq<OutlineItem>, x: OutlineItem)
    requires
        items_wf(s),
        x.parent matches Some(p) ==> p < s.len(),
    ensures
        items_wf(s.push(x)),
{
    assert forall|i: int| 0 <= i < s.push(x).len() implies match #[trigger] s.push(x)[i].parent {
        Some(p) => p < i,
        None => true,
    } by {
        if i < s.len() {
            assert(s.push(x)[i] == s[i]);
        }
    }
}

/// Unfolds [`flat_nodes`] on the first `k + 1` nodes.
proof fn lemma_flat_nodes_step(g: Seq<SynNode>, k: int, parent: Option<usize>, base: int)
    requires
        0 <= k < g.len(),
    ensures
        flat_nodes(g.take(k + 1), parent, base) == flat_nodes(g.take(k), parent, base) + flat_node(
            g[k],
            parent,
            base + flat_nodes(g.take(k), parent, base).len(),
        ),
{
    assert(g.take(k + 1).drop_last() =~= g.take(k));
    assert(g.take(k + 1).last() == g[k]);
}

fn site(kind: SynKind) -> (r: Option<FnSite>)
    ensures
        r == site_of(kind),
{
    match kind {
        SynKind::Func(f) => match f.body {
            Some(b) => Some(FnSite { name: f.name, sig_start: f.sig.start, body_end: b.end }),
            None => None,
        },
        _ => None,
    }
}

/// Appends the outline items of `n` and of everything it contains, `n` inside the item at
/// index `parent`.
fn flatten_node(n: SynNode, parent: Option<usize>, out: &mut Vec<OutlineItem>)
    requires
        items_wf(old(out)@),
        parent matches Some(p) ==> p < old(out).len(),
    ensures
        items_wf(final(out)@),
        final(out)@ == old(out)@ + flat_node(n, parent, old(out).len() as int),
    decreases n,
{
    let ghost g = n;
    let idx = out.len();
    let SynNode { kind, attrs, region, children } = n;
    let item = OutlineItem {
        parent,
        attrs,
        first_line: region.start.line,
        last_line: region.end.line,
        func: site(kind),
    };
    assert(item == item_of(g, parent));
    proof {
        lemma_push_wf(out@, item);
    }
    out.push(item);
    flatten_nodes(children, Some(idx), out);
    assert(out@ =~= old(out)@ + flat_node(g, parent, idx as int));
}

/// Appends the outline items of `ns` and of everything they contain, each inside the item
/// at index `parent`.
#[verifier::loop_isolation(false)]
fn flatten_nodes(ns: Vec<SynNode>, parent: Option<usize>, out: &mut Vec<OutlineItem>)
    requires
        items_wf(old(out)@),
        parent matches Some(p) ==> p < old(out).len(),
    ensures
        items_wf(final(out)@),
        final(out)@ == old(out)@ + flat_nodes(ns@, parent, old(out).len() as int),
    decreases ns@,
{
    let ghost g = ns@;
    assert(g.len() == ns.len());
    let ghost o0 = out@;
    let mut rest = ns;
    let mut k: usize = 0;
    assert(g.take(0) =~= Seq::<SynNode>::empty());
    assert(o0 + flat_nodes(g.take(0), parent, o0.len() as int) =~= o0);
    while rest.len() > 0
        invariant
            k + rest.len() == g.len(),
            rest@ == g.skip(k as int),
            g.len() <= usize::MAX,
            out@ == o0 + flat_nodes(g.take(k as int), parent, o0.len() as int),
            items_wf(out@),
            o0.len() <= out.len(),
            parent matches Some(p) ==> p < o0.len(),
        decreases rest.len(),
    {
        let n = rest.remove(0);
        assert(n == g[k as int]);
        assert(rest@ =~= g.skip(k + 1));
        let ghost before = out@;
        proof {
            assert(decreases_to!(g => g[k as int]));
        }
        flatten_node(n, parent, out);
        proof {
            lemma_flat_nodes_step(g, k as int, parent, o0.len() as int);
        }
        assert(out@ =~= o0 + flat_nodes(g.take(k + 1), parent, o0.len() as int));
        k = k + 1;
    }
    assert(g.take(k as int) =~= g);
}

/// The outline of a parsed file: its file-level attributes, and its items and everything
/// they contain in pre-order, each after the item that contains it.
pub fn outline_of(t: SynFile) -> (o: Outline)
    ensures
        o.module_attrs@ == t.attrs@,
        o.items@ == flat_nodes(t.items@, None, 0),
        outline_wf(o),
{
    let SynFile { attrs, items } = t;
    let mut out: Vec<OutlineItem> = Vec::new();
    assert(out@ + flat_nodes(items@, None, 0) =~= flat_nodes(items@, None, 0));
    flatten_nodes(items, None, &mut out);
    Outline { module_attrs: attrs, items: out }
}

} // verus!

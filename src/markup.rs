//! The vector-graphics document tree that the diagram compiler writes, and
//! the repair of the font styles in its style blocks.
use vstd::prelude::*;
use crate::diagrams::{font_patched, patch_css};
use crate::text::append_text;

verus! {

broadcast use vstd::std_specs::vec::group_vec_axioms;

/// An element: its name, namespace data and attributes as name/value pairs,
/// and its children in document order.
pub struct MarkupElement {
    pub prefix: Option<String>,
    pub namespace: Option<String>,
    pub namespaces: Option<Vec<(String, String)>>,
    pub name: String,
    pub attributes: Vec<(String, String)>,
    pub children: Vec<MarkupNode>,
}

/// A node of the document tree.
pub enum MarkupNode {
    Element(MarkupElement),
    Comment(String),
    CData(String),
    Text(String),
    ProcessingInstruction(String, Option<String>),
}

/// The text and character data among these nodes, joined in order.
pub open spec fn text_of(nodes: Seq<MarkupNode>) -> Seq<char>
    decreases nodes.len(),
{
    if nodes.len() == 0 {
        Seq::empty()
    } else {
        text_of(nodes.drop_last()) + match nodes.last() {
            MarkupNode::Text(t) => t@,
            MarkupNode::CData(t) => t@,
            _ => Seq::<char>::empty(),
        }
    }
}

/// Two elements agree on everything but their children.
pub open spec fn same_shell(a: MarkupElement, b: MarkupElement) -> bool {
    &&& a.prefix == b.prefix
    &&& a.namespace == b.namespace
    &&& a.namespaces == b.namespaces
    &&& a.name == b.name
    &&& a.attributes == b.attributes
}

/// `new` is `old` with its style blocks repaired: a `style` element gets one
/// text child, its former text with the font families replaced; any other
/// element keeps its fields and has each child repaired in turn; other nodes
/// are unchanged.
pub open spec fn styles_patched(old: MarkupNode, new: MarkupNode) -> bool
    decreases old,
{
    match old {
        MarkupNode::Element(e) => match new {
            MarkupNode::Element(f) => {
                &&& same_shell(e, f)
                &&& if e.name@ == "style"@ {
                    &&& f.children@.len() == 1
                    &&& f.children@[0] matches MarkupNode::Text(t)
                    &&& t@ == font_patched(text_of(e.children@))
                } else {
                    children_patched(e.children@, f.children@)
                }
            },
            _ => false,
        },
        _ => new == old,
    }
}

/// Each node of `news` is the node of `olds` at the same place, repaired.
pub open spec fn children_patched(olds: Seq<MarkupNode>, news: Seq<MarkupNode>) -> bool
    decreases olds,
{
    if olds.len() == 0 {
        news.len() == 0
    } else {
        &&& news.len() == olds.len()
        &&& children_patched(olds.drop_last(), news.drop_last())
        &&& styles_patched(olds.last(), news.last())
    }
}

/// The text and character data among the nodes, joined in order.
fn text_of_nodes(nodes: &Vec<MarkupNode>) -> (r: String)
    ensures
        r@ == text_of(nodes@),
{
    let mut r = String::new();
    let mut i: usize = 0;
    while i < nodes.len()
        invariant
            0 <= i <= nodes@.len(),
            r@ == text_of(nodes@.subrange(0, i as int)),
        decreases nodes@.len() - i,
    {
        proof {
            assert(nodes@.subrange(0, i + 1).drop_last() =~= nodes@.subrange(0, i as int));
        }
        match &nodes[i] {
            MarkupNode::Text(t) => append_text(&mut r, t.as_str()),
            MarkupNode::CData(t) => append_text(&mut r, t.as_str()),
            _ => {
                assert(r@ =~= r@ + Seq::<char>::empty());
            },
        }
        i = i + 1;
    }
    assert(nodes@.subrange(0, nodes@.len() as int) =~= nodes@);
    r
}

/// Repairs the style blocks of a node and of everything below it.
pub fn walk_to_styles(node: MarkupNode) -> (r: MarkupNode)
    ensures
        styles_patched(node, r),
    decreases node,
{
    match node {
        MarkupNode::Element(e) => MarkupNode::Element(patch_element(e)),
        other => other,
    }
}

/// Repairs one element: a `style` element's text, or each child of any other.
fn patch_element(e: MarkupElement) -> (f: MarkupElement)
    ensures
        same_shell(e, f),
        e.name@ == "style"@ ==> {
            &&& f.children@.len() == 1
            &&& f.children@[0] matches MarkupNode::Text(t)
            &&& t@ == font_patched(text_of(e.children@))
        },
        e.name@ != "style"@ ==> children_patched(e.children@, f.children@),
    decreases e,
{
    let MarkupElement { prefix, namespace, namespaces, name, attributes, children } = e;
    if name == "style".to_owned() {
        let text = text_of_nodes(&children);
        let css = patch_css(text.as_str());
        let mut kids: Vec<MarkupNode> = Vec::new();
        kids.push(MarkupNode::Text(css));
        MarkupElement { prefix, namespace, namespaces, name, attributes, children: kids }
    } else {
        let kids = patch_children(children);
        MarkupElement { prefix, namespace, namespaces, name, attributes, children: kids }
    }
}

/// Repairs each node of a sequence of siblings.
fn patch_children(children: Vec<MarkupNode>) -> (r: Vec<MarkupNode>)
    ensures
        children_patched(children@, r@),
    decreases children,
{
    let ghost olds = children@;
    let n = children.len();
    let mut rest = children;
    let mut r: Vec<MarkupNode> = Vec::new();
    let mut i: usize = 0;
    while i < n
        invariant
            0 <= i <= n,
            n == olds.len(),
            rest@ == olds.subrange(i as int, n as int),
            r@.len() == i,
            children_patched(olds.subrange(0, i as int), r@),
            decreases_to!(children => olds),
        decreases n - i,
    {
        let c = rest.remove(0);
        assert(c == olds[i as int]);
        assert(decreases_to!(children => c));
        let ghost before = r@;
        let p = walk_to_styles(c);
        r.push(p);
        proof {
            assert(olds.subrange(0, i + 1).drop_last() =~= olds.subrange(0, i as int));
            assert(r@.drop_last() =~= before);
            assert(rest@ =~= olds.subrange(i + 1, n as int));
        }
        i = i + 1;
    }
    assert(olds.subrange(0, n as int) =~= olds);
    r
}

/// Repairs the style blocks below the document's root element; the root
/// itself keeps its fields.
pub fn postprocess_svg_styles(root: MarkupElement) -> (r: MarkupElement)
    ensures
        same_shell(root, r),
        children_patched(root.children@, r.children@),
{
    let MarkupElement { prefix, namespace, namespaces, name, attributes, children } = root;
    let kids = patch_children(children);
    MarkupElement { prefix, namespace, namespaces, name, attributes, children: kids }
}

} // verus!

//! The syntax-tree model: markup elements with attributes and children,
//! plus the ghost view of each type used by the contracts.

use vstd::prelude::*;

verus! {

/// A half-open byte-offset range `(lo, hi)` into one source buffer,
/// identifying where a node's opening tag originated. `lo <= hi` for a
/// well-formed span.
#[derive(Clone, Copy, PartialEq, Eq, Structural)]
pub struct Span {
    pub lo: u32,
    pub hi: u32,
}

impl Span {
    pub open spec fn wf(self) -> bool {
        self.lo <= self.hi
    }
}

/// One attribute of a markup element's opening tag: a name and an
/// optional string-literal value.
pub struct Attr {
    pub name: String,
    pub value: Option<String>,
}

/// Ghost view of an attribute.
pub struct AttrV {
    pub name: Seq<char>,
    pub value: Option<Seq<char>>,
}

impl View for Attr {
    type V = AttrV;

    open spec fn view(&self) -> AttrV {
        AttrV {
            name: self.name@,
            value: match self.value {
                Option::Some(s) => Option::Some(s@),
                Option::None => Option::None,
            },
        }
    }
}

/// A markup element: its tag name, the ordered attribute sequence of its
/// opening tag (insertion order significant), the opening tag's span, and
/// its ordered children.
pub struct Element {
    pub name: String,
    pub attrs: Vec<Attr>,
    pub span: Span,
    pub children: Vec<Node>,
}

/// A node of the syntax tree. Non-markup constructs are modelled by the
/// substructure the walker must still recurse into: an interpolated
/// expression or a fragment grouping carries child nodes, and any other
/// construct with no markup inside is opaque text.
pub enum Node {
    Element(Element),
    Expr(Vec<Node>),
    Fragment(Vec<Node>),
    Text(String),
}

/// A whole compilation unit's tree, rooted at a single program node.
pub struct Program {
    pub body: Vec<Node>,
}

/// Ghost view of an element.
pub struct ElementV {
    pub name: Seq<char>,
    pub attrs: Seq<AttrV>,
    pub span: Span,
    pub children: Seq<NodeV>,
}

/// Ghost view of a node.
pub enum NodeV {
    Element(ElementV),
    Expr(Seq<NodeV>),
    Fragment(Seq<NodeV>),
    Text(Seq<char>),
}

pub open spec fn elem_view(e: Element) -> ElementV
    decreases e,
{
    ElementV {
        name: e.name@,
        attrs: e.attrs@.map_values(|a: Attr| a@),
        span: e.span,
        children: nodes_view(e.children@),
    }
}

pub open spec fn node_view(n: Node) -> NodeV
    decreases n,
{
    match n {
        Node::Element(e) => NodeV::Element(elem_view(e)),
        Node::Expr(v) => NodeV::Expr(nodes_view(v@)),
        Node::Fragment(v) => NodeV::Fragment(nodes_view(v@)),
        Node::Text(s) => NodeV::Text(s@),
    }
}

pub open spec fn nodes_view(s: Seq<Node>) -> Seq<NodeV>
    decreases s,
{
    if s.len() == 0 {
        Seq::<NodeV>::empty()
    } else {
        nodes_view(s.subrange(0, s.len() - 1)).push(node_view(s[s.len() - 1]))
    }
}

impl View for Element {
    type V = ElementV;

    open spec fn view(&self) -> ElementV {
        elem_view(*self)
    }
}

impl View for Node {
    type V = NodeV;

    open spec fn view(&self) -> NodeV {
        node_view(*self)
    }
}

impl View for Program {
    type V = Seq<NodeV>;

    open spec fn view(&self) -> Seq<NodeV> {
        nodes_view(self.body@)
    }
}

/// `nodes_view` maps the sequence pointwise: same length, and the view of
/// each node stands at its index.
pub proof fn lemma_nodes_view_index(s: Seq<Node>)
    ensures
        nodes_view(s).len() == s.len(),
        forall|i: int| 0 <= i < s.len() ==> nodes_view(s)[i] == node_view(s[i]),
    decreases s.len(),
{
    if s.len() > 0 {
        lemma_nodes_view_index(s.subrange(0, s.len() - 1));
        assert forall|i: int| 0 <= i < s.len() implies nodes_view(s)[i] == node_view(s[i]) by {
            if i < s.len() - 1 {
                assert(s.subrange(0, s.len() - 1)[i] == s[i]);
            }
        }
    }
}

} // verus!

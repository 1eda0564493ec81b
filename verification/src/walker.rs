//! The annotating walker: a depth-first pre-order traversal that appends
//! one synthesized location attribute to every markup element's opening
//! tag, then recurses into the element's children. Non-markup nodes pass
//! through unchanged, but the walker still recurses into their
//! substructure.

use vstd::prelude::*;
use crate::loctext::format_location;
use crate::loctext::loc_text;
use crate::source::SourceBuffer;
use crate::source::SourceBufferV;
use crate::source::col_of;
use crate::source::line_of;
use crate::tree::Attr;
use crate::tree::AttrV;
use crate::tree::Element;
use crate::tree::ElementV;
use crate::tree::Node;
use crate::tree::NodeV;
use crate::tree::Program;
use crate::tree::Span;
use crate::tree::lemma_nodes_view_index;
use crate::tree::node_view;
use crate::tree::nodes_view;

verus! {

/// Why a transform failed. A failure is fatal for the whole compilation
/// unit: no partial tree is returned.
#[derive(Clone, Copy, PartialEq, Eq, Structural, Debug)]
pub enum TransformError {
    /// The position resolver could not map some element's opening-tag
    /// span.
    ResolutionFault,
}

/// The reserved name of the synthesized attribute, agreed with the
/// downstream consumers of the emitted markup.
pub open spec fn reserved_attr_name() -> Seq<char> {
    "data-reshaper-loc"@
}

/// The reserved attribute name as an owned string.
pub fn reserved_attr_string() -> (s: String)
    ensures
        s@ == reserved_attr_name(),
{
    "data-reshaper-loc".to_owned()
}

/// The attribute synthesized for an opening tag whose span starts at
/// `span.lo` in the buffer `sm`: the reserved name, valued with the
/// location text of that offset.
pub open spec fn loc_attr(sm: SourceBufferV, span: Span) -> AttrV {
    AttrV {
        name: reserved_attr_name(),
        value: Option::Some(
            loc_text(
                sm.origin_path,
                line_of(sm.text, span.lo as int),
                col_of(sm.text, span.lo as int),
            ),
        ),
    }
}

/// Every markup element in the subtree has a well-formed opening-tag span
/// that starts inside the buffer.
pub open spec fn elem_spans_ok(e: ElementV, sm: SourceBufferV) -> bool
    decreases e,
{
    &&& e.span.wf()
    &&& e.span.lo <= sm.text.len()
    &&& nodes_spans_ok(e.children, sm)
}

pub open spec fn node_spans_ok(n: NodeV, sm: SourceBufferV) -> bool
    decreases n,
{
    match n {
        NodeV::Element(e) => elem_spans_ok(e, sm),
        NodeV::Expr(v) => nodes_spans_ok(v, sm),
        NodeV::Fragment(v) => nodes_spans_ok(v, sm),
        NodeV::Text(_) => true,
    }
}

pub open spec fn nodes_spans_ok(s: Seq<NodeV>, sm: SourceBufferV) -> bool
    decreases s,
{
    if s.len() == 0 {
        true
    } else {
        nodes_spans_ok(s.subrange(0, s.len() - 1), sm) && node_spans_ok(s[s.len() - 1], sm)
    }
}

/// The annotated form of an element: its attributes gain the synthesized
/// location attribute at the end, and its children are annotated in turn.
/// Everything else is kept.
pub open spec fn annotate_elem(e: ElementV, sm: SourceBufferV) -> ElementV
    decreases e,
{
    ElementV {
        name: e.name,
        attrs: e.attrs.push(loc_attr(sm, e.span)),
        span: e.span,
        children: annotate_nodes(e.children, sm),
    }
}

/// The annotated form of a node: markup elements are annotated, other
/// nodes keep their kind with their substructure annotated.
pub open spec fn annotate_node(n: NodeV, sm: SourceBufferV) -> NodeV
    decreases n,
{
    match n {
        NodeV::Element(e) => NodeV::Element(annotate_elem(e, sm)),
        NodeV::Expr(v) => NodeV::Expr(annotate_nodes(v, sm)),
        NodeV::Fragment(v) => NodeV::Fragment(annotate_nodes(v, sm)),
        NodeV::Text(s) => NodeV::Text(s),
    }
}

pub open spec fn annotate_nodes(s: Seq<NodeV>, sm: SourceBufferV) -> Seq<NodeV>
    decreases s,
{
    if s.len() == 0 {
        s
    } else {
        annotate_nodes(s.subrange(0, s.len() - 1), sm).push(annotate_node(s[s.len() - 1], sm))
    }
}

/// A node sequence's spans are in range exactly when every node's are.
pub proof fn lemma_nodes_spans_ok_index(s: Seq<NodeV>, sm: SourceBufferV)
    ensures
        nodes_spans_ok(s, sm) <==> (forall|i: int|
            0 <= i < s.len() ==> node_spans_ok(s[i], sm)),
    decreases s.len(),
{
    if s.len() > 0 {
        let pre = s.subrange(0, s.len() - 1);
        lemma_nodes_spans_ok_index(pre, sm);
        assert(forall|i: int| 0 <= i < pre.len() ==> pre[i] == s[i]);
    }
}

/// `annotate_nodes` maps the sequence pointwise: same length, and each
/// node's annotated form stands at its index.
pub proof fn lemma_annotate_nodes_index(s: Seq<NodeV>, sm: SourceBufferV)
    ensures
        annotate_nodes(s, sm).len() == s.len(),
        forall|i: int| 0 <= i < s.len() ==> annotate_nodes(s, sm)[i] == annotate_node(s[i], sm),
    decreases s.len(),
{
    if s.len() > 0 {
        let pre = s.subrange(0, s.len() - 1);
        lemma_annotate_nodes_index(pre, sm);
        assert forall|i: int| 0 <= i < s.len() implies annotate_nodes(s, sm)[i] == annotate_node(
            s[i],
            sm,
        ) by {
            if i < s.len() - 1 {
                assert(pre[i] == s[i]);
            }
        }
    }
}

/// Clones an attribute sequence without touching names, values or order.
fn clone_attrs(attrs: &Vec<Attr>) -> (r: Vec<Attr>)
    ensures
        r@.len() == attrs@.len(),
        forall|i: int| 0 <= i < attrs@.len() ==> r@[i]@ == attrs@[i]@,
{
    let mut out: Vec<Attr> = Vec::new();
    let mut i: usize = 0;
    while i < attrs.len()
        invariant
            i <= attrs@.len(),
            out@.len() == i,
            forall|j: int| 0 <= j < i ==> out@[j]@ == attrs@[j]@,
        decreases attrs@.len() - i,
    {
        let a = &attrs[i];
        let value = match &a.value {
            Option::Some(s) => Option::Some(s.clone()),
            Option::None => Option::None,
        };
        out.push(Attr { name: a.name.clone(), value });
        i = i + 1;
    }
    out
}

/// Annotates one markup element: resolves its opening-tag span, appends
/// the synthesized location attribute after all existing attributes, and
/// recurses into the children.
fn transform_elem(e: &Element, buf: &SourceBuffer) -> (r: Result<Element, TransformError>)
    requires
        buf.wf(),
    ensures
        r is Ok <==> elem_spans_ok(e@, buf@),
        r is Ok ==> r->Ok_0@ == annotate_elem(e@, buf@),
    decreases e,
{
    let pos = match buf.resolve(e.span) {
        Result::Ok(p) => p,
        Result::Err(_) => {
            return Result::Err(TransformError::ResolutionFault);
        },
    };
    let loc = format_location(pos.origin.as_str(), pos.line, pos.col);
    let mut attrs = clone_attrs(&e.attrs);
    attrs.push(Attr { name: reserved_attr_string(), value: Option::Some(loc) });
    let children = match transform_nodes(&e.children, buf) {
        Result::Ok(c) => c,
        Result::Err(err) => {
            return Result::Err(err);
        },
    };
    let out = Element { name: e.name.clone(), attrs, span: e.span, children };
    proof {
        assert(out@.attrs =~= annotate_elem(e@, buf@).attrs);
        assert(out@ == annotate_elem(e@, buf@));
    }
    Result::Ok(out)
}

/// Annotates one node: a markup element is annotated before its children
/// are visited; any other node keeps its kind and content while its
/// substructure is annotated.
fn transform_node(n: &Node, buf: &SourceBuffer) -> (r: Result<Node, TransformError>)
    requires
        buf.wf(),
    ensures
        r is Ok <==> node_spans_ok(n@, buf@),
        r is Ok ==> r->Ok_0@ == annotate_node(n@, buf@),
    decreases n,
{
    match n {
        Node::Element(e) => match transform_elem(e, buf) {
            Result::Ok(e2) => Result::Ok(Node::Element(e2)),
            Result::Err(err) => Result::Err(err),
        },
        Node::Expr(v) => match transform_nodes(v, buf) {
            Result::Ok(v2) => Result::Ok(Node::Expr(v2)),
            Result::Err(err) => Result::Err(err),
        },
        Node::Fragment(v) => match transform_nodes(v, buf) {
            Result::Ok(v2) => Result::Ok(Node::Fragment(v2)),
            Result::Err(err) => Result::Err(err),
        },
        Node::Text(s) => Result::Ok(Node::Text(s.clone())),
    }
}

/// Annotates each node of a sequence, in order.
fn transform_nodes(v: &Vec<Node>, buf: &SourceBuffer) -> (r: Result<Vec<Node>, TransformError>)
    requires
        buf.wf(),
    ensures
        r is Ok <==> nodes_spans_ok(nodes_view(v@), buf@),
        r is Ok ==> nodes_view(r->Ok_0@) == annotate_nodes(nodes_view(v@), buf@),
    decreases v,
{
    let mut out: Vec<Node> = Vec::new();
    let mut i: usize = 0;
    proof {
        assert(v@.subrange(0, 0) =~= Seq::<Node>::empty());
    }
    while i < v.len()
        invariant
            buf.wf(),
            i <= v@.len(),
            nodes_spans_ok(nodes_view(v@.subrange(0, i as int)), buf@),
            nodes_view(out@) == annotate_nodes(nodes_view(v@.subrange(0, i as int)), buf@),
        decreases v@.len() - i,
    {
        match transform_node(&v[i], buf) {
            Result::Ok(c2) => {
                let ghost pre = v@.subrange(0, i as int);
                let ghost old_out = out@;
                out.push(c2);
                proof {
                    let cur = v@.subrange(0, i + 1);
                    assert(cur.subrange(0, cur.len() - 1) =~= pre);
                    assert(cur[cur.len() - 1] == v@[i as int]);
                    let nvpre = nodes_view(pre);
                    let nvi = node_view(v@[i as int]);
                    let nvcur = nodes_view(cur);
                    assert(nvcur == nvpre.push(nvi));
                    assert(nvcur.subrange(0, nvcur.len() - 1) =~= nvpre);
                    assert(nvcur[nvcur.len() - 1] == nvi);
                    assert(nodes_spans_ok(nvcur, buf@));
                    assert(out@.subrange(0, out@.len() - 1) =~= old_out);
                    assert(nodes_view(out@) == nodes_view(old_out).push(c2@));
                    assert(annotate_nodes(nvcur, buf@) == annotate_nodes(nvpre, buf@).push(
                        annotate_node(nvi, buf@),
                    ));
                }
            },
            Result::Err(_) => {
                proof {
                    lemma_nodes_view_index(v@);
                    lemma_nodes_spans_ok_index(nodes_view(v@), buf@);
                    assert(nodes_view(v@)[i as int] == node_view(v@[i as int]));
                    assert(!node_spans_ok(nodes_view(v@)[i as int], buf@));
                }
                return Result::Err(TransformError::ResolutionFault);
            },
        }
        i = i + 1;
    }
    proof {
        assert(v@.subrange(0, v@.len() as int) =~= v@);
    }
    Result::Ok(out)
}

/// Transforms one compilation unit's tree: every markup element, at any
/// depth, gains exactly one synthesized location attribute at the end of
/// its opening tag's attribute sequence; nothing else changes. Fails as a
/// whole, returning no tree, exactly when some element's opening-tag span
/// is malformed or out of the buffer's range.
pub fn transform(program: &Program, buf: &SourceBuffer) -> (r: Result<Program, TransformError>)
    requires
        buf.wf(),
    ensures
        r is Ok <==> nodes_spans_ok(program@, buf@),
        r is Ok ==> r->Ok_0@ == annotate_nodes(program@, buf@),
        r is Err ==> r == Result::<Program, TransformError>::Err(TransformError::ResolutionFault),
{
    match transform_nodes(&program.body, buf) {
        Result::Ok(body) => Result::Ok(Program { body }),
        Result::Err(err) => Result::Err(err),
    }
}

} // verus!

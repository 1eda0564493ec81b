//! The library's stated laws, proved against the walker's model: the
//! transform covers every markup element exactly once, only ever appends
//! to attribute sequences, writes the correct location text, degrades to
//! an empty origin segment for synthetic input, annotates nested elements
//! independently, and is deliberately not idempotent.

use vstd::prelude::*;
use crate::loctext::dec_digits;
use crate::source::SourceBufferV;
use crate::source::col_of;
use crate::source::line_of;
use crate::tree::AttrV;
use crate::tree::ElementV;
use crate::tree::NodeV;
use crate::walker::annotate_elem;
use crate::walker::annotate_node;
use crate::walker::annotate_nodes;
use crate::walker::lemma_annotate_nodes_index;
use crate::walker::node_spans_ok;
use crate::walker::nodes_spans_ok;
use crate::walker::loc_attr;
use crate::walker::reserved_attr_name;

verus! {

/// How many markup-element nodes a subtree holds.
pub open spec fn elem_count(n: NodeV) -> nat
    decreases n,
{
    match n {
        NodeV::Element(e) => 1 + nodes_elem_count(e.children),
        NodeV::Expr(v) => nodes_elem_count(v),
        NodeV::Fragment(v) => nodes_elem_count(v),
        NodeV::Text(_) => 0,
    }
}

/// How many markup-element nodes a node sequence holds.
pub open spec fn nodes_elem_count(s: Seq<NodeV>) -> nat
    decreases s,
{
    if s.len() == 0 {
        0
    } else {
        nodes_elem_count(s.subrange(0, s.len() - 1)) + elem_count(s[s.len() - 1])
    }
}

/// Coverage: annotating a node preserves its number of markup-element
/// nodes — none is deleted, duplicated, or added.
pub proof fn lemma_annotate_preserves_elem_count(n: NodeV, sm: SourceBufferV)
    ensures
        elem_count(annotate_node(n, sm)) == elem_count(n),
    decreases n,
{
    match n {
        NodeV::Element(e) => {
            lemma_annotate_nodes_preserve_elem_count(e.children, sm);
        },
        NodeV::Expr(v) => {
            lemma_annotate_nodes_preserve_elem_count(v, sm);
        },
        NodeV::Fragment(v) => {
            lemma_annotate_nodes_preserve_elem_count(v, sm);
        },
        NodeV::Text(_) => {},
    }
}

/// Coverage at the sequence (and so the whole-program) level: the
/// transform preserves the number of markup-element nodes.
pub proof fn lemma_annotate_nodes_preserve_elem_count(s: Seq<NodeV>, sm: SourceBufferV)
    ensures
        nodes_elem_count(annotate_nodes(s, sm)) == nodes_elem_count(s),
    decreases s,
{
    if s.len() > 0 {
        let pre = s.subrange(0, s.len() - 1);
        lemma_annotate_nodes_preserve_elem_count(pre, sm);
        lemma_annotate_preserves_elem_count(s[s.len() - 1], sm);
        let ann = annotate_nodes(s, sm);
        assert(ann.subrange(0, ann.len() - 1) =~= annotate_nodes(pre, sm));
    }
}

/// What it means for `out` to be the annotation of `orig`: the same node
/// shape and content throughout, except that every markup element's
/// attribute sequence keeps all pre-existing attributes, unchanged and in
/// order, and gains exactly the synthesized location attribute as its new
/// last entry; children correspond pointwise, each annotated in its own
/// right.
pub open spec fn is_annotation_of(out: NodeV, orig: NodeV, sm: SourceBufferV) -> bool
    decreases orig,
{
    match (orig, out) {
        (NodeV::Element(e1), NodeV::Element(e2)) => {
            &&& e2.name == e1.name
            &&& e2.span == e1.span
            &&& e2.attrs.len() == e1.attrs.len() + 1
            &&& (forall|i: int| 0 <= i < e1.attrs.len() ==> e2.attrs[i] == e1.attrs[i])
            &&& e2.attrs.last() == loc_attr(sm, e1.span)
            &&& e2.children.len() == e1.children.len()
            &&& (forall|i: int|
                0 <= i < e1.children.len() ==> is_annotation_of(
                    e2.children[i],
                    e1.children[i],
                    sm,
                ))
        },
        (NodeV::Expr(a), NodeV::Expr(b)) => b.len() == a.len() && (forall|i: int|
            0 <= i < a.len() ==> is_annotation_of(b[i], a[i], sm)),
        (NodeV::Fragment(a), NodeV::Fragment(b)) => b.len() == a.len() && (forall|i: int|
            0 <= i < a.len() ==> is_annotation_of(b[i], a[i], sm)),
        (NodeV::Text(a), NodeV::Text(b)) => b == a,
        _ => false,
    }
}

/// Append-only and nested annotation: the annotated form of every node
/// relates to the original by `is_annotation_of` — existing attributes
/// are never removed or reordered, the synthesized attribute is always
/// last, and every nested element is annotated independently.
pub proof fn lemma_annotate_node_is_annotation(n: NodeV, sm: SourceBufferV)
    ensures
        is_annotation_of(annotate_node(n, sm), n, sm),
    decreases n,
{
    match n {
        NodeV::Element(e) => {
            lemma_annotate_nodes_index(e.children, sm);
            let out = annotate_elem(e, sm);
            assert forall|i: int| 0 <= i < e.children.len() implies is_annotation_of(
                out.children[i],
                e.children[i],
                sm,
            ) by {
                lemma_annotate_node_is_annotation(e.children[i], sm);
            }
        },
        NodeV::Expr(v) => {
            lemma_annotate_nodes_index(v, sm);
            assert forall|i: int| 0 <= i < v.len() implies is_annotation_of(
                annotate_nodes(v, sm)[i],
                v[i],
                sm,
            ) by {
                lemma_annotate_node_is_annotation(v[i], sm);
            }
        },
        NodeV::Fragment(v) => {
            lemma_annotate_nodes_index(v, sm);
            assert forall|i: int| 0 <= i < v.len() implies is_annotation_of(
                annotate_nodes(v, sm)[i],
                v[i],
                sm,
            ) by {
                lemma_annotate_node_is_annotation(v[i], sm);
            }
        },
        NodeV::Text(_) => {},
    }
}

/// The same law at the sequence (and so the whole-program) level: the
/// transform's output relates to its input pointwise by
/// `is_annotation_of`.
pub proof fn lemma_annotate_nodes_are_annotations(s: Seq<NodeV>, sm: SourceBufferV)
    ensures
        annotate_nodes(s, sm).len() == s.len(),
        forall|i: int|
            0 <= i < s.len() ==> is_annotation_of(annotate_nodes(s, sm)[i], s[i], sm),
{
    lemma_annotate_nodes_index(s, sm);
    assert forall|i: int| 0 <= i < s.len() implies is_annotation_of(
        annotate_nodes(s, sm)[i],
        s[i],
        sm,
    ) by {
        lemma_annotate_node_is_annotation(s[i], sm);
    }
}

/// Location correctness: for an element whose opening tag starts at line
/// `l` and column `c` of a buffer with origin path `sm.origin_path`, the
/// synthesized attribute is the reserved name valued exactly
/// `origin:l:c`.
pub proof fn lemma_location_correctness(e: ElementV, sm: SourceBufferV, l: nat, c: nat)
    requires
        line_of(sm.text, e.span.lo as int) == l,
        col_of(sm.text, e.span.lo as int) == c,
    ensures
        annotate_elem(e, sm).attrs.last() == (AttrV {
            name: reserved_attr_name(),
            value: Option::Some(
                sm.origin_path + seq![':'] + dec_digits(l) + seq![':'] + dec_digits(c),
            ),
        }),
{
}

/// Unknown-origin degradation: for a buffer with no concrete origin the
/// synthesized value starts with `:` (an empty origin segment) followed
/// by the line, a colon, and the column.
pub proof fn lemma_unknown_origin_degradation(e: ElementV, sm: SourceBufferV)
    requires
        sm.origin_path.len() == 0,
    ensures
        annotate_elem(e, sm).attrs.last().value == Option::Some(
            seq![':'] + dec_digits(line_of(sm.text, e.span.lo as int)) + seq![':'] + dec_digits(
                col_of(sm.text, e.span.lo as int),
            ),
        ),
        annotate_elem(e, sm).attrs.last().value->Some_0[0] == ':',
{
    let l = line_of(sm.text, e.span.lo as int);
    let c = col_of(sm.text, e.span.lo as int);
    assert((sm.origin_path + seq![':'] + dec_digits(l) + seq![':'] + dec_digits(c)) =~= (seq![':']
        + dec_digits(l) + seq![':'] + dec_digits(c)));
}

/// Annotation leaves every opening-tag span untouched, so an annotated
/// tree still resolves: a second run cannot fail where the first
/// succeeded.
pub proof fn lemma_annotate_preserves_spans_ok(n: NodeV, sm: SourceBufferV)
    ensures
        node_spans_ok(annotate_node(n, sm), sm) == node_spans_ok(n, sm),
    decreases n,
{
    match n {
        NodeV::Element(e) => {
            lemma_annotate_nodes_preserve_spans_ok(e.children, sm);
        },
        NodeV::Expr(v) => {
            lemma_annotate_nodes_preserve_spans_ok(v, sm);
        },
        NodeV::Fragment(v) => {
            lemma_annotate_nodes_preserve_spans_ok(v, sm);
        },
        NodeV::Text(_) => {},
    }
}

/// The same at the sequence (and so the whole-program) level.
pub proof fn lemma_annotate_nodes_preserve_spans_ok(s: Seq<NodeV>, sm: SourceBufferV)
    ensures
        nodes_spans_ok(annotate_nodes(s, sm), sm) == nodes_spans_ok(s, sm),
    decreases s,
{
    if s.len() > 0 {
        let pre = s.subrange(0, s.len() - 1);
        lemma_annotate_nodes_preserve_spans_ok(pre, sm);
        lemma_annotate_preserves_spans_ok(s[s.len() - 1], sm);
        let ann = annotate_nodes(s, sm);
        assert(ann.subrange(0, ann.len() - 1) =~= annotate_nodes(pre, sm));
    }
}

/// Non-idempotence, documented: annotating an already annotated element
/// appends a second attribute with the same reserved name and the same
/// value, after all earlier attributes; nothing is deduplicated.
pub proof fn lemma_double_annotation_accumulates(e: ElementV, sm: SourceBufferV)
    ensures
        ({
            let twice = annotate_elem(annotate_elem(e, sm), sm);
            &&& twice.attrs.len() == e.attrs.len() + 2
            &&& (forall|i: int| 0 <= i < e.attrs.len() ==> twice.attrs[i] == e.attrs[i])
            &&& twice.attrs[e.attrs.len() as int].name == reserved_attr_name()
            &&& twice.attrs[e.attrs.len() as int + 1].name == reserved_attr_name()
            &&& twice.attrs[e.attrs.len() as int + 1] == twice.attrs[e.attrs.len() as int]
        }),
{
}

} // verus!

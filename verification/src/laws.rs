//! Proved laws of the assembly: the invariants the assembled edge set keeps
//! for every node sequence, and the tie-break rules of the visual encoding.

use vstd::prelude::*;

use crate::graph::{
    candidate, classify_all, scan_row, scan_rows, scan_step, spec_edge_arrow, spec_edge_style,
    spec_edges,
};
use crate::item::{bears, classify_decl, rel, DeclView, NodeView};
use crate::relation::{Arrow, LineStyle, Relation};
use crate::segment::{has_pair, same_pair, SegView};

verus! {

/// No segment of `es` connects a name to itself.
pub open spec fn no_self_edge(es: Seq<SegView>) -> bool {
    forall|t: int| 0 <= t < es.len() ==> (#[trigger] es[t]).left.name != es[t].right.name
}

/// No two segments of `es` connect the same unordered pair of names.
pub open spec fn no_duplicate_pair(es: Seq<SegView>) -> bool {
    forall|t1: int, t2: int|
        0 <= t1 < t2 < es.len() ==> !same_pair(
            #[trigger] es[t2],
            (#[trigger] es[t1]).left.name,
            es[t1].right.name,
        )
}

/// Every segment of `es` is a candidate pair of `items`: two distinctly
/// named nodes of the sequence, the left one bearing a relation toward the
/// right one.
pub open spec fn from_candidates(items: Seq<NodeView>, es: Seq<SegView>) -> bool {
    forall|t: int|
        0 <= t < es.len() ==> exists|a: int, b: int|
            0 <= a < items.len() && 0 <= b < items.len() && #[trigger] candidate(items, a, b)
                && (#[trigger] es[t]) == SegView { left: items[a], right: items[b] }
}

proof fn lemma_step_keeps(items: Seq<NodeView>, i: int, j: int, acc: Seq<SegView>)
    requires
        0 <= i < items.len(),
        0 <= j < items.len(),
        no_self_edge(acc),
        no_duplicate_pair(acc),
        from_candidates(items, acc),
    ensures
        no_self_edge(scan_step(items, i, j, acc)),
        no_duplicate_pair(scan_step(items, i, j, acc)),
        from_candidates(items, scan_step(items, i, j, acc)),
{
    let next = scan_step(items, i, j, acc);
    if candidate(items, i, j) && !has_pair(acc, items[i].name, items[j].name) {
        let fresh = SegView { left: items[i], right: items[j] };
        assert(next == acc.push(fresh));
        assert forall|t1: int, t2: int| 0 <= t1 < t2 < next.len() implies !same_pair(
            #[trigger] next[t2],
            (#[trigger] next[t1]).left.name,
            next[t1].right.name,
        ) by {
            if t2 == acc.len() {
                assert(!same_pair(acc[t1], items[i].name, items[j].name));
            }
        }
        assert forall|t: int| 0 <= t < next.len() implies exists|a: int, b: int|
            0 <= a < items.len() && 0 <= b < items.len() && #[trigger] candidate(items, a, b)
                && (#[trigger] next[t]) == SegView { left: items[a], right: items[b] } by {
            if t == acc.len() {
                assert(candidate(items, i, j) && next[t] == (SegView {
                    left: items[i],
                    right: items[j],
                }));
            } else {
                assert(next[t] == acc[t]);
            }
        }
    }
}

proof fn lemma_row_keeps(items: Seq<NodeView>, i: int, j: int, acc: Seq<SegView>)
    requires
        0 <= i < items.len(),
        0 <= j <= items.len(),
        no_self_edge(acc),
        no_duplicate_pair(acc),
        from_candidates(items, acc),
    ensures
        no_self_edge(scan_row(items, i, j, acc)),
        no_duplicate_pair(scan_row(items, i, j, acc)),
        from_candidates(items, scan_row(items, i, j, acc)),
    decreases j,
{
    if j > 0 {
        lemma_row_keeps(items, i, j - 1, acc);
        lemma_step_keeps(items, i, j - 1, scan_row(items, i, j - 1, acc));
    }
}

proof fn lemma_rows_keeps(items: Seq<NodeView>, i: int)
    requires
        0 <= i <= items.len(),
    ensures
        no_self_edge(scan_rows(items, i)),
        no_duplicate_pair(scan_rows(items, i)),
        from_candidates(items, scan_rows(items, i)),
    decreases i,
{
    if i > 0 {
        lemma_rows_keeps(items, i - 1);
        lemma_row_keeps(items, i - 1, items.len() as int, scan_rows(items, i - 1));
    }
}

/// No self-edges: for every node sequence, the assembled edge set never
/// holds a segment whose two ends carry the same identity.
pub proof fn lemma_no_self_edges(items: Seq<NodeView>)
    ensures
        forall|t: int|
            0 <= t < spec_edges(items).len() ==> (#[trigger] spec_edges(items)[t]).left.name
                != spec_edges(items)[t].right.name,
{
    lemma_rows_keeps(items, items.len() as int);
}

/// At most one edge per pair: for every node sequence, no two segments of
/// the assembled edge set connect the same unordered pair of identities.
pub proof fn lemma_one_edge_per_pair(items: Seq<NodeView>)
    ensures
        forall|t1: int, t2: int|
            0 <= t1 < t2 < spec_edges(items).len() ==> !same_pair(
                #[trigger] spec_edges(items)[t2],
                (#[trigger] spec_edges(items)[t1]).left.name,
                spec_edges(items)[t1].right.name,
            ),
{
    lemma_rows_keeps(items, items.len() as int);
}

/// Every assembled edge joins two nodes of the sequence whose identities
/// differ, the left end bearing a relation toward the right end.
pub proof fn lemma_edges_from_candidates(items: Seq<NodeView>)
    ensures
        from_candidates(items, spec_edges(items)),
{
    lemma_rows_keeps(items, items.len() as int);
}

proof fn lemma_step_prefix(items: Seq<NodeView>, i: int, j: int, acc: Seq<SegView>)
    ensures
        acc.len() <= scan_step(items, i, j, acc).len(),
        forall|k: int| 0 <= k < acc.len() ==> scan_step(items, i, j, acc)[k] == acc[k],
{
}

proof fn lemma_row_prefix(items: Seq<NodeView>, i: int, j: int, acc: Seq<SegView>)
    ensures
        acc.len() <= scan_row(items, i, j, acc).len(),
        forall|k: int| 0 <= k < acc.len() ==> scan_row(items, i, j, acc)[k] == acc[k],
    decreases j,
{
    if j > 0 {
        lemma_row_prefix(items, i, j - 1, acc);
        lemma_step_prefix(items, i, j - 1, scan_row(items, i, j - 1, acc));
    }
}

proof fn lemma_has_pair_monotone(es: Seq<SegView>, more: Seq<SegView>, a: Seq<char>, b: Seq<char>)
    requires
        has_pair(es, a, b),
        es.len() <= more.len(),
        forall|k: int| 0 <= k < es.len() ==> more[k] == es[k],
    ensures
        has_pair(more, a, b),
{
    let t = choose|t: int| 0 <= t < es.len() && same_pair(es[t], a, b);
    assert(same_pair(more[t], a, b));
}

proof fn lemma_row_connects(items: Seq<NodeView>, i: int, j: int, acc: Seq<SegView>, b: int)
    requires
        0 <= i < items.len(),
        0 <= b < j <= items.len(),
        candidate(items, i, b),
    ensures
        has_pair(scan_row(items, i, j, acc), items[i].name, items[b].name),
    decreases j,
{
    let prev = scan_row(items, i, j - 1, acc);
    if b == j - 1 {
        if has_pair(prev, items[i].name, items[b].name) {
            lemma_step_prefix(items, i, j - 1, prev);
            lemma_has_pair_monotone(
                prev,
                scan_step(items, i, j - 1, prev),
                items[i].name,
                items[b].name,
            );
        } else {
            let next = prev.push(SegView { left: items[i], right: items[b] });
            assert(scan_step(items, i, j - 1, prev) == next);
            assert(same_pair(next[prev.len() as int], items[i].name, items[b].name));
        }
    } else {
        lemma_row_connects(items, i, j - 1, acc, b);
        lemma_step_prefix(items, i, j - 1, prev);
        lemma_has_pair_monotone(
            prev,
            scan_step(items, i, j - 1, prev),
            items[i].name,
            items[b].name,
        );
    }
}

proof fn lemma_rows_connects(items: Seq<NodeView>, i: int, a: int, b: int)
    requires
        0 <= a < i <= items.len(),
        0 <= b < items.len(),
        candidate(items, a, b),
    ensures
        has_pair(scan_rows(items, i), items[a].name, items[b].name),
    decreases i,
{
    if a == i - 1 {
        lemma_row_connects(items, i - 1, items.len() as int, scan_rows(items, i - 1), b);
    } else {
        lemma_rows_connects(items, i - 1, a, b);
        lemma_row_prefix(items, i - 1, items.len() as int, scan_rows(items, i - 1));
        lemma_has_pair_monotone(
            scan_rows(items, i - 1),
            scan_rows(items, i),
            items[a].name,
            items[b].name,
        );
    }
}

/// Completeness of the assembly: every pair of distinctly named nodes of
/// which one bears a relation toward the other is connected by some edge of
/// the assembled set (exactly one, by the deduplication law).
pub proof fn lemma_related_pair_connected(items: Seq<NodeView>, a: int, b: int)
    requires
        0 <= a < items.len(),
        0 <= b < items.len(),
        items[a].name != items[b].name,
        bears(items[a], items[b]),
    ensures
        has_pair(spec_edges(items), items[a].name, items[b].name),
{
    lemma_rows_connects(items, items.len() as int, a, b);
}

/// Determinism: assembling the same node sequence twice yields the same edge
/// sequence, with the same arrowhead and line-style encoding on every edge.
pub proof fn lemma_assembly_deterministic(a: Seq<NodeView>, b: Seq<NodeView>)
    requires
        a == b,
    ensures
        spec_edges(a) == spec_edges(b),
        forall|t: int|
            0 <= t < spec_edges(a).len() ==> spec_edge_arrow(
                (#[trigger] spec_edges(a)[t]).left,
                spec_edges(a)[t].right,
            ) == spec_edge_arrow(spec_edges(b)[t].left, spec_edges(b)[t].right)
                && spec_edge_style(spec_edges(a)[t].left, spec_edges(a)[t].right)
                == spec_edge_style(spec_edges(b)[t].left, spec_edges(b)[t].right),
{
}

/// Symmetric-association tie-break: where both directions infer an
/// association, the edge carries no arrowhead and a solid line.
pub proof fn lemma_symmetric_association(l: NodeView, r: NodeView)
    requires
        rel(l, r) == Option::<Relation>::Some(Relation::Association),
        rel(r, l) == Option::<Relation>::Some(Relation::Association),
    ensures
        spec_edge_arrow(l, r) == Arrow::NoHead,
        spec_edge_style(l, r) == LineStyle::Solid,
{
}

/// Asymmetric tie-break: where the left node realizes the right one's
/// contract and the right node bears no relation back, the edge carries the
/// hollow triangular arrowhead and a dashed line.
pub proof fn lemma_asymmetric_tie_break(l: NodeView, r: NodeView)
    requires
        rel(l, r) == Option::<Relation>::Some(Relation::Realization),
        rel(r, l) is None,
    ensures
        spec_edge_arrow(l, r) == Arrow::Hollow,
        spec_edge_style(l, r) == LineStyle::Dashed,
{
}

/// Isolated node inclusion: a node whose identity is its own (no other node
/// shares it) and which bears no relation to or from any node has zero
/// incident edges. It still stands in the node list, which the assembly
/// never shrinks.
pub proof fn lemma_isolated_node(items: Seq<NodeView>, i: int)
    requires
        0 <= i < items.len(),
        forall|j: int| 0 <= j < items.len() && j != i ==> (#[trigger] items[j]).name != items[i].name,
        forall|j: int|
            0 <= j < items.len() ==> rel(items[i], #[trigger] items[j]) is None && rel(
                items[j],
                items[i],
            ) is None,
    ensures
        forall|t: int|
            0 <= t < spec_edges(items).len() ==> (#[trigger] spec_edges(items)[t]).left.name
                != items[i].name && spec_edges(items)[t].right.name != items[i].name,
{
    lemma_edges_from_candidates(items);
    let es = spec_edges(items);
    assert forall|t: int| 0 <= t < es.len() implies (#[trigger] es[t]).left.name != items[i].name
        && es[t].right.name != items[i].name by {
        let (a, b): (int, int) = choose|a: int, b: int|
            0 <= a < items.len() && 0 <= b < items.len() && #[trigger] candidate(items, a, b)
                && es[t] == SegView { left: items[a], right: items[b] };
        if es[t].left.name == items[i].name {
            assert(items[a].name == items[i].name);
            assert(a == i);
            assert(bears(items[i], items[b]));
        }
        if es[t].right.name == items[i].name {
            assert(items[b].name == items[i].name);
            assert(b == i);
            assert(bears(items[a], items[i]));
        }
    }
}

/// Dangling-name rejection: a declaration that yields no node (one the
/// classifier cannot name, or a non-diagrammable kind) leaves the node list
/// exactly as if it were absent — and with it the edge set, which is a
/// function of the node list alone.
pub proof fn lemma_dangling_name_rejected(ds: Seq<DeclView>, i: int)
    requires
        0 <= i < ds.len(),
        classify_decl(ds[i]) is None,
    ensures
        classify_all(ds) == classify_all(ds.remove(i)),
        spec_edges(classify_all(ds)) == spec_edges(classify_all(ds.remove(i))),
    decreases ds.len(),
{
    if i == ds.len() - 1 {
        assert(ds.remove(i) =~= ds.drop_last());
    } else {
        lemma_dangling_name_rejected(ds.drop_last(), i);
        assert(ds.remove(i).drop_last() =~= ds.drop_last().remove(i));
        assert(ds.remove(i).last() == ds.last());
    }
}

/// Every classified node carries a non-empty identity: the classifier drops
/// a declaration whose name is missing or empty.
pub proof fn lemma_nodes_named(ds: Seq<DeclView>)
    ensures
        forall|k: int|
            0 <= k < classify_all(ds).len() ==> (#[trigger] classify_all(ds)[k]).name.len() > 0,
    decreases ds.len(),
{
    if ds.len() > 0 {
        lemma_nodes_named(ds.drop_last());
    }
}

} // verus!

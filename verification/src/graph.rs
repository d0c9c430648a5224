//! The assembled diagram: the ordered node list, the deduplicated edge list,
//! and the labelled-graph protocol a renderer walks (identities, shapes,
//! labels, colors, arrowheads, line styles).

use vstd::prelude::*;
use vstd::string::StringExecFns;

use crate::item::{bears, classify, classify_decl, rel, Declaration, DeclView, ItemState, NodeView};
use crate::relation::{arrow_of, arrow_of_relation, dashed_of, Arrow, LineStyle, Relation};
use crate::segment::{has_pair, same_pair, SegView, Segment};

verus! {

/// A piece of label text: either a plain string or rich (markup) text.
#[derive(Debug)]
pub enum LabelText {
    Label(String),
    Html(String),
}

/// The views of a sequence of nodes.
pub open spec fn nodes_view(s: Seq<ItemState>) -> Seq<NodeView> {
    s.map_values(|it: ItemState| it@)
}

/// The views of a sequence of segments.
pub open spec fn segs_view(s: Seq<Segment>) -> Seq<SegView> {
    s.map_values(|g: Segment| g@)
}

/// The views of a sequence of declarations.
pub open spec fn decls_view(s: Seq<Declaration>) -> Seq<DeclView> {
    s.map_values(|d: Declaration| d@)
}

/// The nodes an ordered declaration sequence classifies to: zero or one node
/// per declaration, in declaration order.
pub open spec fn classify_all(ds: Seq<DeclView>) -> Seq<NodeView>
    decreases ds.len(),
{
    if ds.len() == 0 {
        Seq::empty()
    } else {
        classify_all(ds.drop_last()) + match classify_decl(ds.last()) {
            Option::Some(n) => seq![n],
            Option::None => Seq::empty(),
        }
    }
}

/// Whether the scan over `items` emits a candidate edge for the ordered pair
/// of positions `(i, j)`: the identities differ and the node at `i` bears a
/// relation toward the node at `j`. A pair related only the other way round
/// is emitted, in the other orientation, when the scan reaches the bearing
/// node's own row; a pair related in neither direction yields no edge.
pub open spec fn candidate(items: Seq<NodeView>, i: int, j: int) -> bool {
    items[i].name != items[j].name && bears(items[i], items[j])
}

/// One step of the pairwise scan: the candidate edge for positions `(i, j)`
/// is appended unless an edge between the same unordered pair of identities
/// was already kept; the first-encountered orientation stays canonical.
pub open spec fn scan_step(items: Seq<NodeView>, i: int, j: int, acc: Seq<SegView>) -> Seq<
    SegView,
> {
    if candidate(items, i, j) && !has_pair(acc, items[i].name, items[j].name) {
        acc.push(SegView { left: items[i], right: items[j] })
    } else {
        acc
    }
}

/// The scan of row `i` over the first `j` partner positions, starting from
/// the edges already kept.
pub open spec fn scan_row(items: Seq<NodeView>, i: int, j: int, acc: Seq<SegView>) -> Seq<SegView>
    decreases j,
{
    if j <= 0 {
        acc
    } else {
        scan_step(items, i, j - 1, scan_row(items, i, j - 1, acc))
    }
}

/// The edges kept after scanning the first `i` rows in full.
pub open spec fn scan_rows(items: Seq<NodeView>, i: int) -> Seq<SegView>
    decreases i,
{
    if i <= 0 {
        Seq::empty()
    } else {
        scan_row(items, i - 1, items.len() as int, scan_rows(items, i - 1))
    }
}

/// The deduplicated edge sequence assembled from an ordered node sequence:
/// every unordered pair of related, distinctly named nodes contributes
/// exactly one segment, oriented as first encountered.
pub open spec fn spec_edges(items: Seq<NodeView>) -> Seq<SegView> {
    scan_rows(items, items.len() as int)
}

/// The graph-description identity of a node: its name under a fixed prefix.
pub open spec fn spec_node_id(n: NodeView) -> Seq<char> {
    "nd"@ + n.name
}

/// The label compartments after the node's name: each stored field's type
/// name behind a separator.
pub open spec fn fields_label(fs: Seq<Seq<char>>) -> Seq<char>
    decreases fs.len(),
{
    if fs.len() == 0 {
        Seq::empty()
    } else {
        fields_label(fs.drop_last()) + "|"@ + fs.last()
    }
}

/// The rich label of a node: its name followed by its field compartments.
pub open spec fn spec_label(n: NodeView) -> Seq<char> {
    n.name + fields_label(n.fields)
}

/// The arrowhead of the edge between two related nodes: none when both
/// directions infer an association (the symmetric tie-break), otherwise the
/// encoding of the left node's outgoing relation (the left perspective wins).
pub open spec fn spec_edge_arrow(l: NodeView, r: NodeView) -> Arrow {
    if rel(l, r) == Option::<Relation>::Some(Relation::Association) && rel(r, l)
        == Option::<Relation>::Some(Relation::Association) {
        Arrow::NoHead
    } else {
        arrow_of(rel(l, r))
    }
}

/// The line style of the edge between two related nodes: dashed when either
/// direction infers a realization or a dependency, solid otherwise.
pub open spec fn spec_edge_style(l: NodeView, r: NodeView) -> LineStyle {
    if dashed_of(rel(l, r)) || dashed_of(rel(r, l)) {
        LineStyle::Dashed
    } else {
        LineStyle::Solid
    }
}

/// Whether `es` already holds a segment between the two given identities.
fn holds_pair(es: &Vec<Segment>, a: &String, b: &String) -> (r: bool)
    ensures
        r == has_pair(segs_view(es@), a@, b@),
{
    let mut t: usize = 0;
    while t < es.len()
        invariant
            0 <= t <= es@.len(),
            forall|k: int| 0 <= k < t ==> !same_pair(segs_view(es@)[k], a@, b@),
        decreases es@.len() - t,
    {
        let s = &es[t];
        if (s.left.name.eq(a) && s.right.name.eq(b)) || (s.left.name.eq(b) && s.right.name.eq(
            a,
        )) {
            assert(same_pair(segs_view(es@)[t as int], a@, b@));
            return true;
        }
        assert(segs_view(es@)[t as int] == es@[t as int]@);
        t = t + 1;
    }
    false
}

/// The diagram of one run: the ordered, materialized node list derived from
/// a declaration sequence, walked by a renderer through the methods below.
#[derive(Debug)]
pub struct ListItem {
    items: Vec<ItemState>,
    at: usize,
}

impl View for ListItem {
    type V = Seq<NodeView>;

    closed spec fn view(&self) -> Seq<NodeView> {
        nodes_view(self.items@)
    }
}

impl ListItem {
    /// How many nodes [`ListItem::next`] has already yielded.
    pub closed spec fn cursor(&self) -> int {
        self.at as int
    }

    /// Classifies an ordered declaration sequence into the diagram's node
    /// list: declarations that yield no node (non-diagrammable kinds, or an
    /// unresolvable name) are dropped, the rest keep their order.
    pub fn from(decls: &Vec<Declaration>) -> (r: ListItem)
        ensures
            r@ == classify_all(decls_view(decls@)),
            r.cursor() == 0,
    {
        let mut items: Vec<ItemState> = Vec::new();
        let mut i: usize = 0;
        while i < decls.len()
            invariant
                0 <= i <= decls@.len(),
                nodes_view(items@) == classify_all(decls_view(decls@.take(i as int))),
            decreases decls@.len() - i,
        {
            let ghost pre = decls_view(decls@.take(i as int));
            let ghost cur = decls_view(decls@.take(i as int + 1));
            proof {
                assert(cur.drop_last() =~= pre);
                assert(cur.last() == decls@[i as int]@);
            }
            match classify(&decls[i]) {
                Option::Some(node) => {
                    items.push(node);
                    proof {
                        assert(nodes_view(items@) =~= classify_all(cur));
                    }
                },
                Option::None => {
                    proof {
                        assert(nodes_view(items@) =~= classify_all(cur));
                    }
                },
            }
            i = i + 1;
        }
        proof {
            assert(decls@.take(decls@.len() as int) =~= decls@);
        }
        ListItem { items, at: 0 }
    }

    /// Yields the classified nodes one at a time, in order; the node list
    /// itself is unchanged.
    pub fn next(&mut self) -> (r: Option<ItemState>)
        ensures
            final(self)@ == old(self)@,
            old(self).cursor() < old(self)@.len() ==> r is Some && r.unwrap()@ == old(self)@[old(
                self,
            ).cursor()] && final(self).cursor() == old(self).cursor() + 1,
            old(self).cursor() >= old(self)@.len() ==> r is None && final(self).cursor() == old(
                self,
            ).cursor(),
    {
        if self.at < self.items.len() {
            let node = self.items[self.at].clone();
            self.at = self.at + 1;
            Option::Some(node)
        } else {
            Option::None
        }
    }

    /// A constant identifier for the whole diagram.
    pub fn graph_id(&self) -> (r: String)
        ensures
            r@ == "ml"@,
    {
        "ml".to_owned()
    }

    /// The graph-description identity of a node: unique as long as node
    /// names are, since it is the name under a fixed prefix.
    pub fn node_id(&self, state: &ItemState) -> (r: String)
        ensures
            r@ == spec_node_id(state@),
    {
        let mut s = "nd".to_owned();
        s.append(state.as_name().as_str());
        s
    }

    /// Nodes use a borderless shape: the rich label itself conveys the
    /// compartment box.
    pub fn node_shape(&self, _node: &ItemState) -> (r: Option<LabelText>)
        ensures
            r matches Option::Some(LabelText::Label(t)) && t@ == "none"@,
    {
        Option::Some(LabelText::Label("none".to_owned()))
    }

    /// The rich label of a node: its name followed by one compartment per
    /// stored field.
    pub fn node_label(&self, state: &ItemState) -> (r: LabelText)
        ensures
            r matches LabelText::Html(t) && t@ == spec_label(state@),
    {
        let mut s = String::new();
        s.append(state.as_name().as_str());
        proof {
            assert(s@ =~= state@.name + fields_label(state@.fields.take(0)));
        }
        let mut i: usize = 0;
        while i < state.fields.len()
            invariant
                0 <= i <= state.fields@.len(),
                state@.fields.len() == state.fields@.len(),
                s@ == state@.name + fields_label(state@.fields.take(i as int)),
            decreases state.fields@.len() - i,
        {
            s.append("|");
            s.append(state.fields[i].as_str());
            proof {
                let pre = state@.fields.take(i as int);
                let cur = state@.fields.take(i as int + 1);
                assert(cur.drop_last() =~= pre);
                assert(cur.last() == state@.fields[i as int]);
                assert(state@.fields[i as int] == state.fields@[i as int]@);
                assert(s@ =~= state@.name + fields_label(cur));
            }
            i = i + 1;
        }
        proof {
            assert(state@.fields.take(state.fields@.len() as int) =~= state@.fields);
        }
        LabelText::Html(s)
    }

    /// All edges share one color.
    pub fn edge_color(&self, _seg: &Segment) -> (r: Option<LabelText>)
        ensures
            r matches Option::Some(LabelText::Label(t)) && t@ == "black"@,
    {
        Option::Some(LabelText::Label("black".to_owned()))
    }

    /// The arrowhead at the target end of an edge, per the tie-breaks: no
    /// arrowhead when both directions infer an association; otherwise the
    /// left node's outgoing relation decides.
    pub fn edge_end_arrow(&self, seg: &Segment) -> (r: Arrow)
        ensures
            r == spec_edge_arrow(seg@.left, seg@.right),
    {
        let lr = seg.left.as_arrow(&seg.right);
        let rl = seg.right.as_arrow(&seg.left);
        match (lr, rl) {
            (Option::Some(Relation::Association), Option::Some(Relation::Association)) => {
                Arrow::NoHead
            },
            (l, _) => arrow_of_relation(&l),
        }
    }

    /// The line style of an edge: dashed when either direction infers a
    /// realization or a dependency, solid otherwise.
    pub fn edge_style(&self, seg: &Segment) -> (r: LineStyle)
        ensures
            r == spec_edge_style(seg@.left, seg@.right),
    {
        if seg.left.is_realization(&seg.right) || seg.left.is_dependency(&seg.right)
            || seg.right.is_realization(&seg.left) || seg.right.is_dependency(&seg.left) {
            LineStyle::Dashed
        } else {
            LineStyle::Solid
        }
    }

    /// The full node list, in declaration order. Isolated nodes are listed
    /// like any other.
    pub fn nodes(&self) -> (r: Vec<ItemState>)
        ensures
            nodes_view(r@) == self@,
    {
        let mut out: Vec<ItemState> = Vec::new();
        let mut i: usize = 0;
        while i < self.items.len()
            invariant
                0 <= i <= self.items@.len(),
                out@.len() == i,
                forall|k: int| 0 <= k < i ==> out@[k]@ == self.items@[k]@,
            decreases self.items@.len() - i,
        {
            out.push(self.items[i].clone());
            i = i + 1;
        }
        proof {
            assert(nodes_view(out@) =~= nodes_view(self.items@));
        }
        out
    }

    /// The deduplicated edge list: every ordered pair of positions is
    /// scanned, a pair of distinctly named nodes becomes an edge oriented
    /// from the first-scanned node that bears a relation toward the other,
    /// and a pair of identities already connected is not connected again.
    pub fn edges(&self) -> (r: Vec<Segment>)
        ensures
            segs_view(r@) == spec_edges(self@),
    {
        let n = self.items.len();
        let mut out: Vec<Segment> = Vec::new();
        proof {
            assert(segs_view(out@) =~= scan_rows(self@, 0));
        }
        let mut i: usize = 0;
        while i < n
            invariant
                0 <= i <= n,
                n == self.items@.len(),
                self@ == nodes_view(self.items@),
                segs_view(out@) == scan_rows(self@, i as int),
            decreases n - i,
        {
            let mut j: usize = 0;
            proof {
                assert(scan_row(self@, i as int, 0, scan_rows(self@, i as int)) == scan_rows(
                    self@,
                    i as int,
                ));
            }
            while j < n
                invariant
                    0 <= j <= n,
                    0 <= i < n,
                    n == self.items@.len(),
                    self@ == nodes_view(self.items@),
                    segs_view(out@) == scan_row(self@, i as int, j as int, scan_rows(self@, i as int)),
                decreases n - j,
            {
                let left = &self.items[i];
                let partner = &self.items[j];
                proof {
                    assert(self@[i as int] == self.items@[i as int]@);
                    assert(self@[j as int] == self.items@[j as int]@);
                }
                if !left.as_name().eq(partner.as_name()) && left.is_relation(partner)
                    && !holds_pair(&out, left.as_name(), partner.as_name()) {
                    out.push(Segment { left: left.clone(), right: partner.clone() });
                    proof {
                        assert(segs_view(out@) =~= scan_step(
                            self@,
                            i as int,
                            j as int,
                            scan_row(self@, i as int, j as int, scan_rows(self@, i as int)),
                        ));
                    }
                } else {
                    proof {
                        assert(segs_view(out@) =~= scan_step(
                            self@,
                            i as int,
                            j as int,
                            scan_row(self@, i as int, j as int, scan_rows(self@, i as int)),
                        ));
                    }
                }
                proof {
                    assert(scan_row(self@, i as int, j as int + 1, scan_rows(self@, i as int))
                        == scan_step(
                        self@,
                        i as int,
                        j as int,
                        scan_row(self@, i as int, j as int, scan_rows(self@, i as int)),
                    ));
                }
                j = j + 1;
            }
            proof {
                assert(scan_rows(self@, i as int + 1) == scan_row(
                    self@,
                    i as int,
                    n as int,
                    scan_rows(self@, i as int),
                ));
            }
            i = i + 1;
        }
        proof {
            assert(self@.len() == self.items@.len());
        }
        out
    }

    /// The node an edge is drawn from.
    pub fn source(&self, seg: &Segment) -> (r: ItemState)
        ensures
            r@ == seg@.left,
    {
        seg.left.clone()
    }

    /// The node an edge points at.
    pub fn target(&self, seg: &Segment) -> (r: ItemState)
        ensures
            r@ == seg@.right,
    {
        seg.right.clone()
    }
}

} // verus!

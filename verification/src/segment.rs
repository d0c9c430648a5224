//! Edges of the diagram: an ordered pair of related nodes, deduplicated by
//! the unordered pair of their identities.

use vstd::prelude::*;

use crate::item::{ItemState, NodeView};

verus! {

/// One rendered edge between two related nodes. The orientation (which node
/// stands left) is the one in which the pair was first discovered; the
/// unordered pair of the two identities is what deduplication goes by.
#[derive(Debug)]
pub struct Segment {
    pub left: ItemState,
    pub right: ItemState,
}

/// The mathematical value of a [`Segment`].
pub struct SegView {
    pub left: NodeView,
    pub right: NodeView,
}

impl View for Segment {
    type V = SegView;

    open spec fn view(&self) -> SegView {
        SegView { left: self.left@, right: self.right@ }
    }
}

impl Clone for Segment {
    /// Cloning a segment keeps its value.
    fn clone(&self) -> (r: Self)
        ensures
            r@ == self@,
    {
        Segment { left: self.left.clone(), right: self.right.clone() }
    }
}

/// Whether a segment connects exactly the two given identities, in either
/// orientation.
pub open spec fn same_pair(s: SegView, a: Seq<char>, b: Seq<char>) -> bool {
    (s.left.name == a && s.right.name == b) || (s.left.name == b && s.right.name == a)
}

/// Whether some segment of `es` connects the two given identities.
pub open spec fn has_pair(es: Seq<SegView>, a: Seq<char>, b: Seq<char>) -> bool {
    exists|t: int| 0 <= t < es.len() && same_pair(es[t], a, b)
}

} // verus!

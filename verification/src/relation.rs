//! The kinds of structural relationship between two diagram nodes, and the
//! visual encoding (arrowhead shape, line style) that each kind carries.

use vstd::prelude::*;

verus! {

/// A directed structural relationship one node bears toward another.
/// `None` (no detectable relationship) is represented as `Option::None`
/// at the points where a relation is looked up.
#[derive(Clone, Copy, PartialEq, Eq, Structural, Debug)]
pub enum Relation {
    /// The node holds the other as persistent state (a stored field).
    Association,
    /// The node uses the other only transiently, without storing it.
    Dependency,
    /// The node implements or extends the contract the other declares.
    Realization,
}

/// The arrowhead drawn at the target end of a rendered edge.
#[derive(Clone, Copy, PartialEq, Eq, Structural, Debug)]
pub enum Arrow {
    /// No arrowhead on either end.
    NoHead,
    /// An open (vee) arrowhead.
    Open,
    /// A hollow triangular arrowhead.
    Hollow,
}

/// The line style of a rendered edge.
#[derive(Clone, Copy, PartialEq, Eq, Structural, Debug)]
pub enum LineStyle {
    Solid,
    Dashed,
}

/// The arrowhead a relation kind is drawn with: an association is drawn as
/// a plain line with no arrowhead, a dependency carries an open arrow, a
/// realization a hollow triangle, and the absence of a relation carries no
/// arrowhead.
pub open spec fn arrow_of(r: Option<Relation>) -> Arrow {
    match r {
        Option::None => Arrow::NoHead,
        Option::Some(Relation::Association) => Arrow::NoHead,
        Option::Some(Relation::Dependency) => Arrow::Open,
        Option::Some(Relation::Realization) => Arrow::Hollow,
    }
}

/// Whether a relation kind is drawn with a dashed line.
pub open spec fn dashed_of(r: Option<Relation>) -> bool {
    r == Option::<Relation>::Some(Relation::Dependency)
        || r == Option::<Relation>::Some(Relation::Realization)
}

/// Executable form of [`arrow_of`].
pub fn arrow_of_relation(r: &Option<Relation>) -> (a: Arrow)
    ensures
        a == arrow_of(*r),
{
    match r {
        Option::None => Arrow::NoHead,
        Option::Some(Relation::Association) => Arrow::NoHead,
        Option::Some(Relation::Dependency) => Arrow::Open,
        Option::Some(Relation::Realization) => Arrow::Hollow,
    }
}

} // verus!

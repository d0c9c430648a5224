//! Diagram nodes: classification of raw declarations into nodes, and the
//! pairwise relation inference between two nodes.

use vstd::prelude::*;

use crate::relation::Relation;

verus! {

/// The structural category of a diagram node.
#[derive(Clone, Copy, PartialEq, Eq, Structural, Debug)]
pub enum NodeKind {
    /// A plain named type (a structure or an enumeration).
    PlainType,
    /// A trait or interface: a declared contract.
    Interface,
    /// An implementation block.
    Implementation,
}

/// The kind tag a raw declaration carries. Only the first four yield a node.
#[derive(Clone, Copy, PartialEq, Eq, Structural, Debug)]
pub enum DeclKind {
    Structure,
    Enumeration,
    Trait,
    Implementation,
    Function,
    Constant,
    Import,
}

/// A raw parsed declaration, as the source front-end hands it over: a name
/// (when one could be resolved), a kind tag, and the structural detail that
/// relation inference reads. The front-end owns this shape; the library only
/// reads it.
#[derive(Debug)]
pub struct Declaration {
    /// The declared name, when the front-end could resolve one.
    pub name: Option<String>,
    pub kind: DeclKind,
    /// Names of the types this declaration stores as fields.
    pub fields: Vec<String>,
    /// Names of the types this declaration references only transiently.
    pub uses: Vec<String>,
    /// Names of the contracts this declaration implements or extends.
    pub realizes: Vec<String>,
}

/// The mathematical value of a [`Declaration`].
pub struct DeclView {
    pub name: Option<Seq<char>>,
    pub kind: DeclKind,
    pub fields: Seq<Seq<char>>,
    pub uses: Seq<Seq<char>>,
    pub realizes: Seq<Seq<char>>,
}

/// A classified diagram node: one per diagrammable declaration. Its identity
/// is the (non-empty) declared name; equality and deduplication downstream
/// go by that identity.
#[derive(Debug)]
pub struct ItemState {
    pub name: String,
    pub kind: NodeKind,
    pub fields: Vec<String>,
    pub uses: Vec<String>,
    pub realizes: Vec<String>,
}

/// The mathematical value of an [`ItemState`].
pub struct NodeView {
    pub name: Seq<char>,
    pub kind: NodeKind,
    pub fields: Seq<Seq<char>>,
    pub uses: Seq<Seq<char>>,
    pub realizes: Seq<Seq<char>>,
}

/// The character sequences of a sequence of names.
pub open spec fn names_view(v: Seq<String>) -> Seq<Seq<char>> {
    v.map_values(|s: String| s@)
}

impl View for Declaration {
    type V = DeclView;

    open spec fn view(&self) -> DeclView {
        DeclView {
            name: match self.name {
                Option::Some(s) => Option::Some(s@),
                Option::None => Option::None,
            },
            kind: self.kind,
            fields: names_view(self.fields@),
            uses: names_view(self.uses@),
            realizes: names_view(self.realizes@),
        }
    }
}

impl View for ItemState {
    type V = NodeView;

    open spec fn view(&self) -> NodeView {
        NodeView {
            name: self.name@,
            kind: self.kind,
            fields: names_view(self.fields@),
            uses: names_view(self.uses@),
            realizes: names_view(self.realizes@),
        }
    }
}

/// The directed relation a node bears toward another, decided from the
/// node's own declaration: a realized contract outweighs a stored field,
/// and a stored field outweighs a transient reference (a dependency exists
/// only where the other type is not stored).
pub open spec fn rel(a: NodeView, b: NodeView) -> Option<Relation> {
    if a.realizes.contains(b.name) {
        Option::Some(Relation::Realization)
    } else if a.fields.contains(b.name) {
        Option::Some(Relation::Association)
    } else if a.uses.contains(b.name) {
        Option::Some(Relation::Dependency)
    } else {
        Option::None
    }
}

/// Whether a node bears some relation toward another: the test each scan row
/// applies; a pair related only the other way round is picked up when the
/// scan reaches the bearing node's own row.
pub open spec fn bears(a: NodeView, b: NodeView) -> bool {
    rel(a, b) is Some
}

/// The node kind a declaration kind yields, if any: structures and
/// enumerations are plain types, traits are interfaces, implementation
/// blocks stand on their own; functions, constants and imports yield none.
pub open spec fn node_kind_of(k: DeclKind) -> Option<NodeKind> {
    match k {
        DeclKind::Structure => Option::Some(NodeKind::PlainType),
        DeclKind::Enumeration => Option::Some(NodeKind::PlainType),
        DeclKind::Trait => Option::Some(NodeKind::Interface),
        DeclKind::Implementation => Option::Some(NodeKind::Implementation),
        DeclKind::Function => Option::None,
        DeclKind::Constant => Option::None,
        DeclKind::Import => Option::None,
    }
}

/// The node a declaration yields: none for non-diagrammable kinds, and none
/// for a declaration whose name could not be resolved (a missing or empty
/// name); such a declaration is dropped rather than aborting the run.
pub open spec fn classify_decl(d: DeclView) -> Option<NodeView> {
    match (node_kind_of(d.kind), d.name) {
        (Option::Some(k), Option::Some(n)) => if n.len() > 0 {
            Option::Some(
                NodeView {
                    name: n,
                    kind: k,
                    fields: d.fields,
                    uses: d.uses,
                    realizes: d.realizes,
                },
            )
        } else {
            Option::None
        },
        _ => Option::None,
    }
}

/// Whether a vector of names holds the given name.
fn contains_name(v: &Vec<String>, n: &String) -> (r: bool)
    ensures
        r == names_view(v@).contains(n@),
{
    let mut i: usize = 0;
    while i < v.len()
        invariant
            0 <= i <= v@.len(),
            forall|k: int| 0 <= k < i ==> names_view(v@)[k] != n@,
        decreases v@.len() - i,
    {
        if v[i].eq(n) {
            assert(names_view(v@)[i as int] == n@);
            return true;
        }
        assert(names_view(v@)[i as int] == v@[i as int]@);
        i = i + 1;
    }
    false
}

/// Clones a vector of names, keeping its value.
fn clone_names(v: &Vec<String>) -> (r: Vec<String>)
    ensures
        names_view(r@) == names_view(v@),
        r@.len() == v@.len(),
{
    let mut out: Vec<String> = Vec::new();
    let mut i: usize = 0;
    while i < v.len()
        invariant
            0 <= i <= v@.len(),
            out@.len() == i,
            forall|k: int| 0 <= k < i ==> out@[k] == v@[k],
        decreases v@.len() - i,
    {
        out.push(v[i].clone());
        i = i + 1;
    }
    proof {
        assert(names_view(out@) =~= names_view(v@));
    }
    out
}

impl Clone for ItemState {
    /// Cloning a node keeps its value.
    fn clone(&self) -> (r: Self)
        ensures
            r@ == self@,
    {
        let r = ItemState {
            name: self.name.clone(),
            kind: self.kind,
            fields: clone_names(&self.fields),
            uses: clone_names(&self.uses),
            realizes: clone_names(&self.realizes),
        };
        r
    }
}

impl Clone for Declaration {
    /// Cloning a declaration keeps its value.
    fn clone(&self) -> (r: Self)
        ensures
            r@ == self@,
    {
        let name = match &self.name {
            Option::Some(n) => Option::Some(n.clone()),
            Option::None => Option::None,
        };
        let r = Declaration {
            name,
            kind: self.kind,
            fields: clone_names(&self.fields),
            uses: clone_names(&self.uses),
            realizes: clone_names(&self.realizes),
        };
        r
    }
}

impl ItemState {
    /// The node's identity: its declared name.
    pub fn as_name(&self) -> (r: &String)
        ensures
            r@ == self@.name,
    {
        &self.name
    }

    /// The relation this node bears toward `other`, from this node's own
    /// declaration alone.
    pub fn as_arrow(&self, other: &ItemState) -> (r: Option<Relation>)
        ensures
            r == rel(self@, other@),
    {
        if contains_name(&self.realizes, &other.name) {
            Option::Some(Relation::Realization)
        } else if contains_name(&self.fields, &other.name) {
            Option::Some(Relation::Association)
        } else if contains_name(&self.uses, &other.name) {
            Option::Some(Relation::Dependency)
        } else {
            Option::None
        }
    }

    /// Whether this node bears some relation toward `other`: the edge for a
    /// pair related only in one direction is drawn from the bearing node.
    pub fn is_relation(&self, other: &ItemState) -> (r: bool)
        ensures
            r == bears(self@, other@),
    {
        self.as_arrow(other).is_some()
    }

    /// Whether this node realizes `other`'s contract.
    pub fn is_realization(&self, other: &ItemState) -> (r: bool)
        ensures
            r == (rel(self@, other@) == Option::<Relation>::Some(Relation::Realization)),
    {
        match self.as_arrow(other) {
            Option::Some(Relation::Realization) => true,
            _ => false,
        }
    }

    /// Whether this node depends transiently on `other`.
    pub fn is_dependency(&self, other: &ItemState) -> (r: bool)
        ensures
            r == (rel(self@, other@) == Option::<Relation>::Some(Relation::Dependency)),
    {
        match self.as_arrow(other) {
            Option::Some(Relation::Dependency) => true,
            _ => false,
        }
    }
}

/// Classifies one raw declaration: zero nodes for a non-diagrammable kind or
/// an unresolvable name, exactly one node otherwise.
pub fn classify(d: &Declaration) -> (r: Option<ItemState>)
    ensures
        r is Some <==> classify_decl(d@) is Some,
        r is Some ==> r.unwrap()@ == classify_decl(d@).unwrap(),
{
    let kind = match d.kind {
        DeclKind::Structure => Option::Some(NodeKind::PlainType),
        DeclKind::Enumeration => Option::Some(NodeKind::PlainType),
        DeclKind::Trait => Option::Some(NodeKind::Interface),
        DeclKind::Implementation => Option::Some(NodeKind::Implementation),
        DeclKind::Function => Option::None,
        DeclKind::Constant => Option::None,
        DeclKind::Import => Option::None,
    };
    match (kind, &d.name) {
        (Option::Some(k), Option::Some(n)) => {
            if n.as_str().is_empty() {
                Option::None
            } else {
                Option::Some(
                    ItemState {
                        name: n.clone(),
                        kind: k,
                        fields: clone_names(&d.fields),
                        uses: clone_names(&d.uses),
                        realizes: clone_names(&d.realizes),
                    },
                )
            }
        },
        _ => Option::None,
    }
}

} // verus!

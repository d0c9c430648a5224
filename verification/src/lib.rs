//! A UML-style relationship diagram over a body of source declarations.
//!
//! The library classifies parsed declarations into diagram nodes, infers the
//! structural relationship between every pair of nodes (association,
//! dependency, realization), deduplicates the resulting edges, and answers a
//! generic labelled-graph protocol (node identity, shape and label; edge
//! color, arrowhead and line style) that a diagram renderer consumes.
//! Walking a source tree, parsing files into declarations, and piping the
//! graph description through a rendering process stand outside the library.

use vstd::prelude::*;

pub mod graph;
pub mod item;
pub mod laws;
pub mod relation;
pub mod segment;

use crate::graph::{classify_all, decls_view, ListItem};
use crate::item::{Declaration, DeclView};

verus! {

/// The declaration views of every file, flattened in file order.
pub open spec fn files_view(files: Seq<Vec<Declaration>>) -> Seq<DeclView>
    decreases files.len(),
{
    if files.len() == 0 {
        Seq::empty()
    } else {
        files_view(files.drop_last()) + decls_view(files.last()@)
    }
}

/// The computing part of diagramming one source file: the declarations the
/// front-end parsed out of the file become the diagram's node list. Reading
/// the file, rendering the graph description, and turning it into an image
/// stand outside the library.
pub fn rs2png(decls: &Vec<Declaration>) -> (r: ListItem)
    ensures
        r@ == classify_all(decls_view(decls@)),
        r.cursor() == 0,
{
    ListItem::from(decls)
}

/// The computing part of diagramming a source tree: the per-file declaration
/// lists the front-end parsed are flattened in file order and become one
/// diagram. Walking the tree, rendering the graph description, and turning
/// it into an image stand outside the library.
pub fn src2png(files: &Vec<Vec<Declaration>>) -> (r: ListItem)
    ensures
        r@ == classify_all(files_view(files@)),
        r.cursor() == 0,
{
    let mut flat: Vec<Declaration> = Vec::new();
    let mut i: usize = 0;
    while i < files.len()
        invariant
            0 <= i <= files@.len(),
            decls_view(flat@) == files_view(files@.take(i as int)),
        decreases files@.len() - i,
    {
        let file = &files[i];
        let mut j: usize = 0;
        while j < file.len()
            invariant
                0 <= j <= file@.len(),
                0 <= i < files@.len(),
                file == &files@[i as int],
                decls_view(flat@) == files_view(files@.take(i as int)) + decls_view(
                    file@.take(j as int),
                ),
            decreases file@.len() - j,
        {
            let ghost before = flat@;
            flat.push(file[j].clone());
            proof {
                let pre = decls_view(file@.take(j as int));
                let cur = decls_view(file@.take(j as int + 1));
                assert(cur =~= pre.push(file@[j as int]@));
                assert(decls_view(flat@) =~= decls_view(before).push(file@[j as int]@));
                assert(decls_view(flat@) =~= files_view(files@.take(i as int)) + cur);
            }
            j = j + 1;
        }
        proof {
            let pre = files@.take(i as int);
            let cur = files@.take(i as int + 1);
            assert(cur.drop_last() =~= pre);
            assert(cur.last() == files@[i as int]);
            assert(file@.take(file@.len() as int) =~= file@);
            assert(decls_view(flat@) =~= files_view(cur));
        }
        i = i + 1;
    }
    proof {
        assert(files@.take(files@.len() as int) =~= files@);
    }
    ListItem::from(&flat)
}

} // verus!

use ml::graph::ListItem;
use ml::item::{DeclKind, Declaration, NodeKind};
use ml::relation::{Arrow, LineStyle};

fn names(v: &[&str]) -> Vec<String> {
    v.iter().map(|s| s.to_string()).collect()
}

fn decl(name: Option<&str>, kind: DeclKind, fields: &[&str], uses: &[&str], realizes: &[&str]) -> Declaration {
    Declaration {
        name: name.map(|s| s.to_string()),
        kind,
        fields: names(fields),
        uses: names(uses),
        realizes: names(realizes),
    }
}

fn structure(name: &str, fields: &[&str], uses: &[&str], realizes: &[&str]) -> Declaration {
    decl(Some(name), DeclKind::Structure, fields, uses, realizes)
}

#[test]
fn empty_sequence_yields_empty_graph() {
    let it = ListItem::from(&Vec::new());
    assert_eq!(it.nodes().len(), 0);
    assert_eq!(it.edges().len(), 0);
}

#[test]
fn association_and_realization_scenario() {
    // A stores a field of type B; C implements A's contract; B and C are
    // unrelated.
    let decls = vec![
        structure("A", &["B"], &[], &[]),
        structure("B", &[], &[], &[]),
        structure("C", &[], &[], &["A"]),
    ];
    let it = ListItem::from(&decls);

    let nodes = it.nodes();
    assert_eq!(nodes.len(), 3);
    assert_eq!(nodes[0].name, "A");
    assert_eq!(nodes[1].name, "B");
    assert_eq!(nodes[2].name, "C");

    let edges = it.edges();
    assert_eq!(edges.len(), 2);

    assert_eq!(edges[0].left.name, "A");
    assert_eq!(edges[0].right.name, "B");
    assert_eq!(it.edge_end_arrow(&edges[0]), Arrow::NoHead);
    assert_eq!(it.edge_style(&edges[0]), LineStyle::Solid);

    assert_eq!(edges[1].left.name, "C");
    assert_eq!(edges[1].right.name, "A");
    assert_eq!(it.edge_end_arrow(&edges[1]), Arrow::Hollow);
    assert_eq!(it.edge_style(&edges[1]), LineStyle::Dashed);
}

#[test]
fn mutual_association_gives_one_solid_headless_edge() {
    let decls = vec![
        structure("A", &["B"], &[], &[]),
        structure("B", &["A"], &[], &[]),
    ];
    let it = ListItem::from(&decls);
    let edges = it.edges();
    assert_eq!(edges.len(), 1);
    assert_eq!(edges[0].left.name, "A");
    assert_eq!(edges[0].right.name, "B");
    assert_eq!(it.edge_end_arrow(&edges[0]), Arrow::NoHead);
    assert_eq!(it.edge_style(&edges[0]), LineStyle::Solid);
}

#[test]
fn mutual_association_other_order_still_one_edge() {
    let decls = vec![
        structure("B", &["A"], &[], &[]),
        structure("A", &["B"], &[], &[]),
    ];
    let it = ListItem::from(&decls);
    let edges = it.edges();
    assert_eq!(edges.len(), 1);
    assert_eq!(edges[0].left.name, "B");
    assert_eq!(edges[0].right.name, "A");
    assert_eq!(it.edge_end_arrow(&edges[0]), Arrow::NoHead);
    assert_eq!(it.edge_style(&edges[0]), LineStyle::Solid);
}

#[test]
fn assembly_is_deterministic() {
    let decls = vec![
        structure("A", &["B"], &["C"], &[]),
        structure("B", &[], &[], &["C"]),
        structure("C", &[], &[], &[]),
    ];
    let one = ListItem::from(&decls);
    let two = ListItem::from(&decls);
    let e1 = one.edges();
    let e2 = two.edges();
    assert_eq!(e1.len(), e2.len());
    for (a, b) in e1.iter().zip(e2.iter()) {
        assert_eq!(a.left.name, b.left.name);
        assert_eq!(a.right.name, b.right.name);
        assert_eq!(one.edge_end_arrow(a), two.edge_end_arrow(b));
        assert_eq!(one.edge_style(a), two.edge_style(b));
    }
    let n1 = one.nodes();
    let n2 = two.nodes();
    assert_eq!(n1.len(), n2.len());
    for (a, b) in n1.iter().zip(n2.iter()) {
        assert_eq!(a.name, b.name);
    }
}

#[test]
fn isolated_node_is_listed_with_no_incident_edge() {
    let decls = vec![
        structure("A", &["B"], &[], &[]),
        structure("B", &[], &[], &[]),
        structure("Lone", &[], &[], &[]),
    ];
    let it = ListItem::from(&decls);
    let nodes = it.nodes();
    assert_eq!(nodes.len(), 3);
    assert_eq!(nodes[2].name, "Lone");
    let edges = it.edges();
    assert_eq!(edges.len(), 1);
    for e in edges.iter() {
        assert_ne!(e.left.name, "Lone");
        assert_ne!(e.right.name, "Lone");
    }
}

#[test]
fn unnamed_declaration_is_dropped() {
    let decls = vec![
        decl(None, DeclKind::Structure, &["A"], &[], &[]),
        structure("A", &[], &[], &[]),
    ];
    let it = ListItem::from(&decls);
    let nodes = it.nodes();
    assert_eq!(nodes.len(), 1);
    assert_eq!(nodes[0].name, "A");
    assert_eq!(it.edges().len(), 0);
}

#[test]
fn empty_name_is_dropped() {
    let decls = vec![
        decl(Some(""), DeclKind::Structure, &["A"], &[], &[]),
        structure("A", &[], &[], &[]),
    ];
    let it = ListItem::from(&decls);
    assert_eq!(it.nodes().len(), 1);
    assert_eq!(it.edges().len(), 0);
}

#[test]
fn non_diagrammable_kinds_yield_no_node() {
    let decls = vec![
        decl(Some("f"), DeclKind::Function, &[], &[], &[]),
        decl(Some("K"), DeclKind::Constant, &[], &[], &[]),
        decl(Some("u"), DeclKind::Import, &[], &[], &[]),
        decl(Some("S"), DeclKind::Structure, &[], &[], &[]),
        decl(Some("E"), DeclKind::Enumeration, &[], &[], &[]),
        decl(Some("T"), DeclKind::Trait, &[], &[], &[]),
        decl(Some("I"), DeclKind::Implementation, &[], &[], &[]),
    ];
    let it = ListItem::from(&decls);
    let nodes = it.nodes();
    assert_eq!(nodes.len(), 4);
    assert_eq!(nodes[0].name, "S");
    assert_eq!(nodes[0].kind, NodeKind::PlainType);
    assert_eq!(nodes[1].name, "E");
    assert_eq!(nodes[1].kind, NodeKind::PlainType);
    assert_eq!(nodes[2].name, "T");
    assert_eq!(nodes[2].kind, NodeKind::Interface);
    assert_eq!(nodes[3].name, "I");
    assert_eq!(nodes[3].kind, NodeKind::Implementation);
}

#[test]
fn transient_use_gives_dashed_open_arrow() {
    let decls = vec![
        structure("A", &[], &["B"], &[]),
        structure("B", &[], &[], &[]),
    ];
    let it = ListItem::from(&decls);
    let edges = it.edges();
    assert_eq!(edges.len(), 1);
    assert_eq!(edges[0].left.name, "A");
    assert_eq!(edges[0].right.name, "B");
    assert_eq!(it.edge_end_arrow(&edges[0]), Arrow::Open);
    assert_eq!(it.edge_style(&edges[0]), LineStyle::Dashed);
}

#[test]
fn realization_outweighs_stored_field() {
    let decls = vec![
        structure("A", &["B"], &[], &["B"]),
        structure("B", &[], &[], &[]),
    ];
    let it = ListItem::from(&decls);
    let edges = it.edges();
    assert_eq!(edges.len(), 1);
    assert_eq!(it.edge_end_arrow(&edges[0]), Arrow::Hollow);
    assert_eq!(it.edge_style(&edges[0]), LineStyle::Dashed);
}

#[test]
fn stored_field_outweighs_transient_use() {
    let decls = vec![
        structure("A", &["B"], &["B"], &[]),
        structure("B", &[], &[], &[]),
    ];
    let it = ListItem::from(&decls);
    let edges = it.edges();
    assert_eq!(edges.len(), 1);
    assert_eq!(it.edge_end_arrow(&edges[0]), Arrow::NoHead);
    assert_eq!(it.edge_style(&edges[0]), LineStyle::Solid);
}

#[test]
fn duplicate_identity_contributes_no_second_edge() {
    let decls = vec![
        structure("X", &["Y"], &[], &[]),
        structure("Y", &[], &[], &[]),
        structure("X", &["Y"], &[], &[]),
    ];
    let it = ListItem::from(&decls);
    assert_eq!(it.nodes().len(), 3);
    let edges = it.edges();
    assert_eq!(edges.len(), 1);
    assert_eq!(edges[0].left.name, "X");
    assert_eq!(edges[0].right.name, "Y");
}

#[test]
fn next_yields_nodes_in_order() {
    let decls = vec![
        structure("A", &[], &[], &[]),
        decl(Some("f"), DeclKind::Function, &[], &[], &[]),
        structure("B", &[], &[], &[]),
    ];
    let mut it = ListItem::from(&decls);
    assert_eq!(it.next().unwrap().name, "A");
    assert_eq!(it.next().unwrap().name, "B");
    assert!(it.next().is_none());
}

#[test]
fn source_and_target_are_the_edge_ends() {
    let decls = vec![
        structure("A", &["B"], &[], &[]),
        structure("B", &[], &[], &[]),
    ];
    let it = ListItem::from(&decls);
    let edges = it.edges();
    assert_eq!(it.source(&edges[0]).name, "A");
    assert_eq!(it.target(&edges[0]).name, "B");
}

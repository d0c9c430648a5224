use ml::graph::{LabelText, ListItem};
use ml::item::{DeclKind, Declaration};
use ml::{rs2png, src2png};

fn plain(name: &str, fields: &[&str]) -> Declaration {
    Declaration {
        name: Some(name.to_string()),
        kind: DeclKind::Structure,
        fields: fields.iter().map(|s| s.to_string()).collect(),
        uses: Vec::new(),
        realizes: Vec::new(),
    }
}

#[test]
fn graph_identity_is_constant() {
    let it = ListItem::from(&Vec::new());
    assert_eq!(it.graph_id(), "ml");
}

#[test]
fn node_identity_prefixes_the_name() {
    let decls = vec![plain("Foo", &[])];
    let it = ListItem::from(&decls);
    let nodes = it.nodes();
    assert_eq!(it.node_id(&nodes[0]), "ndFoo");
}

#[test]
fn node_shape_is_borderless() {
    let decls = vec![plain("Foo", &[])];
    let it = ListItem::from(&decls);
    let nodes = it.nodes();
    match it.node_shape(&nodes[0]) {
        Some(LabelText::Label(t)) => assert_eq!(t, "none"),
        _ => panic!("expected a plain shape hint"),
    }
}

#[test]
fn node_label_lists_name_and_field_compartments() {
    let decls = vec![plain("Foo", &["Bar", "Baz"])];
    let it = ListItem::from(&decls);
    let nodes = it.nodes();
    match it.node_label(&nodes[0]) {
        LabelText::Html(t) => assert_eq!(t, "Foo|Bar|Baz"),
        _ => panic!("expected a rich label"),
    }
}

#[test]
fn node_label_of_fieldless_node_is_its_name() {
    let decls = vec![plain("Foo", &[])];
    let it = ListItem::from(&decls);
    let nodes = it.nodes();
    match it.node_label(&nodes[0]) {
        LabelText::Html(t) => assert_eq!(t, "Foo"),
        _ => panic!("expected a rich label"),
    }
}

#[test]
fn edge_color_is_black() {
    let decls = vec![plain("A", &["B"]), plain("B", &[])];
    let it = ListItem::from(&decls);
    let edges = it.edges();
    match it.edge_color(&edges[0]) {
        Some(LabelText::Label(t)) => assert_eq!(t, "black"),
        _ => panic!("expected a color hint"),
    }
}

#[test]
fn one_file_diagram_classifies_its_declarations() {
    let decls = vec![plain("A", &["B"]), plain("B", &[])];
    let it = rs2png(&decls);
    let nodes = it.nodes();
    assert_eq!(nodes.len(), 2);
    assert_eq!(nodes[0].name, "A");
    assert_eq!(nodes[1].name, "B");
    assert_eq!(it.edges().len(), 1);
}

#[test]
fn tree_diagram_flattens_files_in_order() {
    let files = vec![
        vec![plain("A", &["B"])],
        vec![],
        vec![plain("B", &[]), plain("C", &["A"])],
    ];
    let it = src2png(&files);
    let nodes = it.nodes();
    assert_eq!(nodes.len(), 3);
    assert_eq!(nodes[0].name, "A");
    assert_eq!(nodes[1].name, "B");
    assert_eq!(nodes[2].name, "C");
    assert_eq!(it.edges().len(), 2);
}

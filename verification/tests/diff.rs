use org_roamers::diff::{diff, KnownGraph};
use org_roamers::org::NodeFromOrg;

fn node(uuid: &str, parent: Option<&str>, links: &[&str]) -> NodeFromOrg {
    NodeFromOrg {
        uuid: uuid.into(),
        title: format!("\"{}\"", uuid),
        parent: parent.map(|p| p.to_string()),
        links: links.iter().map(|l| (l.to_string(), String::new())).collect(),
        ..Default::default()
    }
}

#[test]
fn new_nodes_and_links_are_found() {
    let known = KnownGraph {
        nodes: vec!["a".into(), "b".into()],
        links: vec![("a".into(), "b".into())],
    };
    let nodes = vec![
        node("a", None, &["b", "zzz"]),
        node("c", Some("a"), &["b", "a"]),
        node("d", Some("missing"), &["c"]),
    ];
    let out = diff(&known, &nodes);
    assert_eq!(out.new_nodes, vec![1, 2]);
    assert_eq!(
        out.new_links,
        vec![
            ("a".to_string(), "c".to_string()),
            ("c".to_string(), "b".to_string()),
            ("c".to_string(), "a".to_string()),
            ("d".to_string(), "c".to_string()),
        ]
    );
    assert!(out.pending_reload);
    assert_eq!(out.updated_nodes.len(), 2);
    assert_eq!(out.updated_nodes[0].id.id(), "c");
    assert_eq!(out.updated_nodes[0].title.title(), "c");
    assert_eq!(out.updated_links[0].from.id(), "a");
    assert_eq!(out.updated_links[0].to.id(), "c");
}

#[test]
fn nothing_new() {
    let known = KnownGraph { nodes: vec!["a".into()], links: vec![] };
    let out = diff(&known, &vec![node("a", None, &[])]);
    assert!(out.new_nodes.is_empty());
    assert!(out.new_links.is_empty());
    assert!(!out.pending_reload);
}

#[test]
fn a_link_is_added_once() {
    let known = KnownGraph { nodes: vec!["a".into(), "b".into()], links: vec![] };
    let out = diff(&known, &vec![node("a", None, &["b", "b"])]);
    assert_eq!(out.new_links, vec![("a".to_string(), "b".to_string())]);
}

use org_roamers::graph::{assemble_graph, node_query, GraphParams, LinkRow, NodeRow};

#[test]
fn test_parse_tags_both_none() {
    let params = GraphParams { tags: None, exclude: None };
    let (incl, excl) = params.parse_tags();
    assert!(incl.is_none());
    assert!(excl.is_none());
}

#[test]
fn test_parse_tags_single_include() {
    let params = GraphParams { tags: Some("rust".to_string()), exclude: None };
    let (incl, excl) = params.parse_tags();
    assert_eq!(incl, Some(vec!["rust".to_string()]));
    assert!(excl.is_none());
}

#[test]
fn test_parse_tags_multiple_include() {
    let params = GraphParams { tags: Some("rust,emacs,org".to_string()), exclude: None };
    let (incl, excl) = params.parse_tags();
    assert_eq!(
        incl,
        Some(vec!["rust".to_string(), "emacs".to_string(), "org".to_string()])
    );
    assert!(excl.is_none());
}

#[test]
fn test_parse_tags_with_whitespace() {
    let params = GraphParams { tags: Some("rust , emacs , org".to_string()), exclude: None };
    let (incl, excl) = params.parse_tags();
    assert_eq!(
        incl,
        Some(vec!["rust".to_string(), "emacs".to_string(), "org".to_string()])
    );
    assert!(excl.is_none());
}

#[test]
fn test_parse_tags_single_exclude() {
    let params = GraphParams { tags: None, exclude: Some("archived".to_string()) };
    let (incl, excl) = params.parse_tags();
    assert!(incl.is_none());
    assert_eq!(excl, Some(vec!["archived".to_string()]));
}

#[test]
fn test_parse_tags_both_include_and_exclude() {
    let params = GraphParams {
        tags: Some("rust,emacs".to_string()),
        exclude: Some("archived,wip".to_string()),
    };
    let (incl, excl) = params.parse_tags();
    assert_eq!(incl, Some(vec!["rust".to_string(), "emacs".to_string()]));
    assert_eq!(excl, Some(vec!["archived".to_string(), "wip".to_string()]));
}

#[test]
fn test_parse_tags_empty_strings() {
    let params = GraphParams { tags: Some("".to_string()), exclude: Some("".to_string()) };
    let (incl, excl) = params.parse_tags();
    assert_eq!(incl, Some(vec!["".to_string()]));
    assert_eq!(excl, Some(vec!["".to_string()]));
}

fn tags(v: &[&str]) -> Option<Vec<String>> {
    Some(v.iter().map(|s| s.to_string()).collect())
}

#[test]
fn query_for_every_node() {
    let all = "SELECT id, title FROM nodes;";
    assert_eq!(node_query(&None, &None), (all.to_string(), vec![]));
    assert_eq!(node_query(&tags(&[]), &None), (all.to_string(), vec![]));
    assert_eq!(node_query(&None, &tags(&[])), (all.to_string(), vec![]));
    assert_eq!(node_query(&tags(&["a"]), &tags(&[])), (all.to_string(), vec![]));
}

#[test]
fn query_with_included_tags() {
    let (q, b) = node_query(&tags(&["a", "b"]), &None);
    assert_eq!(
        q,
        "SELECT DISTINCT n.id, n.title FROM nodes n INNER JOIN tags t ON n.id = t.node_id WHERE t.tag IN (?,?)"
    );
    assert_eq!(b, vec!["a".to_string(), "b".to_string()]);
}

#[test]
fn query_with_excluded_tags() {
    let expected = "SELECT DISTINCT n.id, n.title FROM nodes n WHERE n.id NOT IN (SELECT node_id FROM tags WHERE tag IN (?))";
    assert_eq!(node_query(&None, &tags(&["x"])), (expected.to_string(), vec!["x".to_string()]));
    assert_eq!(node_query(&tags(&[]), &tags(&["x"])), (expected.to_string(), vec!["x".to_string()]));
}

#[test]
fn query_with_both() {
    let (q, b) = node_query(&tags(&["a"]), &tags(&["x", "y"]));
    assert_eq!(
        q,
        "SELECT DISTINCT n.id, n.title FROM nodes n INNER JOIN tags t ON n.id = t.node_id WHERE t.tag IN (?) AND n.id NOT IN (SELECT node_id FROM tags WHERE tag IN (?,?))"
    );
    assert_eq!(b, vec!["a".to_string(), "x".to_string(), "y".to_string()]);
}

fn row(id: &str, title: &str, parent: &str) -> NodeRow {
    NodeRow { id: id.into(), title: title.into(), parent_id: parent.into() }
}

fn link(s: &str, d: &str) -> LinkRow {
    LinkRow { source: s.into(), dest: d.into() }
}

#[test]
fn graph_keeps_links_between_selected_nodes() {
    let rows = vec![row("a", "\"A\"", ""), row("b", "B", "a")];
    let links = vec![link("a", "b"), link("a", "c"), link("c", "b"), link("b", "a")];
    let g = assemble_graph(&rows, &links);
    assert_eq!(g.nodes.len(), 2);
    assert_eq!(g.nodes[0].title.title(), "A");
    assert_eq!(g.nodes[0].num_links, 3);
    assert_eq!(g.nodes[1].num_links, 3);
    assert_eq!(g.nodes[1].parent.id(), "a");
    let pairs: Vec<(String, String)> =
        g.links.iter().map(|l| (l.from.id().to_string(), l.to.id().to_string())).collect();
    assert_eq!(
        pairs,
        vec![
            ("a".to_string(), "b".to_string()),
            ("b".to_string(), "a".to_string()),
            ("a".to_string(), "b".to_string()),
        ]
    );
}

#[test]
fn graph_of_nothing() {
    let g = assemble_graph(&vec![], &vec![link("a", "b")]);
    assert!(g.nodes.is_empty());
    assert!(g.links.is_empty());
}

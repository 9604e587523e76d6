use org_roamers::search::{
    format_search_param, format_tag_param, ForNode, ForTag, FullTextSeach, NodeHit, Search,
    SearchProvider, SearchProviderList, TagHit, DefaultSearch,
};

fn strings(v: &[&str]) -> Vec<String> {
    v.iter().map(|s| s.to_string()).collect()
}

#[test]
fn test_format_search_param() {
    let test = strings(&["Chapter", "noDe", "\"modules\""]);
    assert_eq!(format_search_param(&test), "%chapter%node%\"\"modules\"\"%");
}

#[test]
fn test_format_tag_param() {
    let test = strings(&["studies", "compsci"]);
    assert_eq!(
        format_tag_param(&test),
        "(\"\"\"studies\"\"\", \"\"\"compsci\"\"\")"
    );
}

#[test]
fn test_search_new_tag() {
    let test = "studies :type tag compsci";
    let expected = Search::ForTag(ForTag {
        tag_search: strings(&["studies", "compsci"]),
    });
    assert_eq!(Search::new(test), expected);
}

#[test]
fn test_search_new_node() {
    let test = "notes node #compsci commands";
    let expected = Search::ForNode(ForNode {
        node_search: strings(&["notes", "node", "commands"]),
        tag_filters: strings(&["compsci"]),
    });
    assert_eq!(Search::new(test), expected);
}

#[test]
fn search_kind_is_the_last_given_in_any_case() {
    assert_eq!(
        Search::new("a :TYPE Tag b :type node"),
        Search::ForNode(ForNode { node_search: strings(&["a", "b"]), tag_filters: vec![] })
    );
    assert_eq!(
        Search::new("x :type tag"),
        Search::ForTag(ForTag { tag_search: strings(&["x"]) })
    );
    assert_eq!(
        Search::new("x :type"),
        Search::ForNode(ForNode { node_search: strings(&["x"]), tag_filters: vec![] })
    );
    assert_eq!(
        Search::new("   "),
        Search::ForNode(ForNode { node_search: vec![], tag_filters: vec![] })
    );
}

#[test]
fn empty_search_params() {
    assert_eq!(format_search_param(&vec![]), "%");
    assert_eq!(format_tag_param(&vec![]), "()");
}

#[test]
fn node_results_keep_tagged_nodes_only_with_filters() {
    let hits = vec![
        NodeHit { id: "\"a\"".into(), title: "\"A\"".into(), tags: strings(&["Rust"]) },
        NodeHit { id: "b".into(), title: "B".into(), tags: strings(&["emacs"]) },
    ];
    let with_filter = ForNode { node_search: vec![], tag_filters: strings(&["rust"]) };
    let r = with_filter.results(0, &hits);
    assert_eq!(r.len(), 1);
    assert_eq!(r[0].id.id(), "a");
    assert_eq!(r[0].title.title(), "A");
    assert_eq!(r[0].tags, strings(&["Rust"]));
    assert_eq!(r[0].provider, 0);
    assert!(r[0].preview.is_none());
    let no_filter = ForNode { node_search: vec![], tag_filters: vec![] };
    assert_eq!(no_filter.results(3, &hits).len(), 2);
}

#[test]
fn tag_results_strip_the_display_quotes() {
    let hits = vec![TagHit { id: "x".into(), display: "\"Title\"".into() }];
    let tags = strings(&["t1", "t2"]);
    let r = ForTag { tag_search: vec![] }.results(0, &hits, &tags);
    assert_eq!(r.len(), 1);
    assert_eq!(r[0].title.title(), "Title");
    assert_eq!(r[0].tags, tags);
}

#[test]
fn provider_configuration() {
    let list = SearchProviderList::new();
    assert_eq!(list.config(), vec![(0, "Default search".to_string()), (1, "Full text search".to_string())]);
    assert_eq!(SearchProvider::DefaultSearch(DefaultSearch::new(4)).id(), 4);
    assert_eq!(SearchProvider::FullTextSearch(FullTextSeach::new(1)).name(), "Full text search");
}

#[test]
fn full_text_search_uses_the_fuzzy_score() {
    let fts = FullTextSeach::new(1);
    let entries = vec![
        ("a".to_string(), "the quick brown fox jumps over the lazy dog".to_string()),
        ("b".to_string(), "nothing to see here".to_string()),
    ];
    let hits = fts.matching(&entries, "quick brown fox");
    assert_eq!(hits, vec!["a".to_string()]);
    assert!(fts.matching(&entries, "zzzzzz").is_empty());
}

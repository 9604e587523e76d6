
use org_roamers::org::{NodeEvent, NodeFromOrg, RoamersTraverser};
use org_roamers::orgtree::get_nodes_of_text;

fn nodes_of(org: &str) -> Vec<NodeFromOrg> {
    get_nodes_of_text(org)
}

#[test]
fn test_node_gatherer_1() {
    const ORG: &str = ":PROPERTIES:
:ID:       e655725f-97db-4eec-925a-b80d66ad97e8
:END:
#+title: Hello World
Welcome
* testing
:PROPERTIES:
:ID:       e6557233-97db-4eec-925a-b80d66ad97e8
:END:
some text
";
    let res = nodes_of(ORG);
    assert_eq!(
        res,
        vec![
            NodeFromOrg {
                title: "Hello World".to_string(),
                parent: None,
                uuid: "e655725f-97db-4eec-925a-b80d66ad97e8".to_string(),
                content: ORG.to_string(),
                level: 0,
                ..Default::default()
            },
            NodeFromOrg {
                title: "testing".to_string(),
                parent: Some("e655725f-97db-4eec-925a-b80d66ad97e8".to_string()),
                uuid: "e6557233-97db-4eec-925a-b80d66ad97e8".to_string(),
                content: "some text\n".to_string(),
                level: 1,
                olp: vec![],
                actual_olp: vec!["Hello World".to_string()],
                ..Default::default()
            }
        ]
    );
}

#[test]
fn test_node_gatherer_2() {
    const ORG: &str = "
* Hello World
:PROPERTIES:
:ID:       e655725f-97db-4eec-925a-b80d66ad97e8
:END:
Welcome
** Hello
:PROPERTIES:
:ID:       e655725d-97db-4eec-925a-b80d66ad97e8
:END:
Welcome
* testing
:PROPERTIES:
:ID:       e6557233-97db-4eec-925a-b80d66ad97e8
:END:
some text
";
    let res = nodes_of(ORG);
    assert_eq!(
        res,
        vec![
            NodeFromOrg {
                title: "Hello World".to_string(),
                uuid: "e655725f-97db-4eec-925a-b80d66ad97e8".to_string(),
                parent: None,
                content: "Welcome\n** Hello\n:PROPERTIES:\n:ID:       e655725d-97db-4eec-925a-b80d66ad97e8\n:END:\nWelcome\n".to_string(),
                level: 1,
                ..Default::default()
            },
            NodeFromOrg {
                title: "Hello".to_string(),
                parent: Some("e655725f-97db-4eec-925a-b80d66ad97e8".to_string()),
                uuid: "e655725d-97db-4eec-925a-b80d66ad97e8".to_string(),
                content: "Welcome\n".to_string(),
                olp: vec!["Hello World".to_string()],
                actual_olp: vec!["Hello World".to_string()],
                level: 2,
                ..Default::default()
            },
            NodeFromOrg {
                title: "testing".to_string(),
                parent: None,
                uuid: "e6557233-97db-4eec-925a-b80d66ad97e8".to_string(),
                content: "some text\n".to_string(),
                level: 1,
                ..Default::default()
            },
        ]
    );
}

#[test]
fn test_node_gatherer_deep() {
    const ORG: &str = "
* Hello World
:PROPERTIES:
:ID:       e655725f-97db-4eec-925a-b80d66ad97e8
:END:
Welcome
** Hello
:PROPERTIES:
:ID:       e655725d-97db-4eec-925a-b80d66ad97e8
:END:
Welcome
*** testing
:PROPERTIES:
:ID:       e6557233-97db-4eec-925a-b80d66ad97e8
:END:
some text
";
    let res = nodes_of(ORG);
    assert_eq!(
        res,
        vec![
            NodeFromOrg {
                title: "Hello World".to_string(),
                parent: None,
                uuid: "e655725f-97db-4eec-925a-b80d66ad97e8".to_string(),
                content: "Welcome\n** Hello\n:PROPERTIES:\n:ID:       e655725d-97db-4eec-925a-b80d66ad97e8\n:END:\nWelcome\n*** testing\n:PROPERTIES:\n:ID:       e6557233-97db-4eec-925a-b80d66ad97e8\n:END:\nsome text\n".to_string(),
                level: 1,
                ..Default::default()
            },
            NodeFromOrg {
                title: "Hello".to_string(),
                parent: Some("e655725f-97db-4eec-925a-b80d66ad97e8".to_string()),
                uuid: "e655725d-97db-4eec-925a-b80d66ad97e8".to_string(),
                content: "Welcome\n*** testing\n:PROPERTIES:\n:ID:       e6557233-97db-4eec-925a-b80d66ad97e8\n:END:\nsome text\n".to_string(),
                olp: vec!["Hello World".to_string()],
                actual_olp: vec!["Hello World".to_string()],
                level: 2,
                ..Default::default()
            },
            NodeFromOrg {
                title: "testing".to_string(),
                parent: Some("e655725d-97db-4eec-925a-b80d66ad97e8".to_string()),
                uuid: "e6557233-97db-4eec-925a-b80d66ad97e8".to_string(),
                content: "some text\n".to_string(),
                olp: vec!["Hello World".to_string(), "Hello".to_string()],
                actual_olp: vec!["Hello World".to_string(), "Hello".to_string()],
                level: 3,
                ..Default::default()
            }
        ]
    );
}

#[test]
fn test_node_gatherer_skipped_heading() {
    const ORG: &str = "
* Hello World
:PROPERTIES:
:ID:       e655725f-97db-4eec-925a-b80d66ad97e8
:END:
Welcome
** Hello
test
*** testing
:PROPERTIES:
:ID:       e6557233-97db-4eec-925a-b80d66ad97e8
:END:
some text
";
    let res = nodes_of(ORG);
    assert_eq!(
        res,
        vec![
            NodeFromOrg {
                title: "Hello World".to_string(),
                parent: None,
                uuid: "e655725f-97db-4eec-925a-b80d66ad97e8".to_string(),
                content: "Welcome\n** Hello\ntest\n*** testing\n:PROPERTIES:\n:ID:       e6557233-97db-4eec-925a-b80d66ad97e8\n:END:\nsome text\n".to_string(),
                level: 1,
                ..Default::default()
            },
            NodeFromOrg {
                title: "testing".to_string(),
                parent: Some("e655725f-97db-4eec-925a-b80d66ad97e8".to_string()),
                uuid: "e6557233-97db-4eec-925a-b80d66ad97e8".to_string(),
                content: "some text\n".to_string(),
                olp: vec!["Hello World".to_string(), "Hello".to_string()],
                actual_olp: vec!["Hello World".to_string(), "Hello".to_string()],
                level: 3,
                ..Default::default()
            }
        ]
    );
}

#[test]
fn test_get_tags() {
    const ORG: &str = ":PROPERTIES:
:ID:       e655725f-97db-4eec-925a-b80d66ad97e8
:END:
#+title: Test
#+filetags: :test1:test2:test3:
* other :test1:test2:
:PROPERTIES:
:ID:       e655725f-97db-4eec-925a-b80d66ad97e9
:END:";
    let res = nodes_of(ORG);
    assert_eq!(
        res,
        vec![
            NodeFromOrg {
                uuid: "e655725f-97db-4eec-925a-b80d66ad97e8".to_string(),
                title: "Test".to_string(),
                content: ORG.to_string(),
                level: 0,
                parent: None,
                tags: vec!["test1".to_string(), "test2".to_string(), "test3".to_string()],
                ..Default::default()
            },
            NodeFromOrg {
                uuid: "e655725f-97db-4eec-925a-b80d66ad97e9".to_string(),
                title: "other".to_string(),
                content: String::new(),
                level: 1,
                parent: Some("e655725f-97db-4eec-925a-b80d66ad97e8".to_string()),
                tags: vec!["test1".to_string(), "test2".to_string(), "test3".to_string()],
                olp: vec![],
                actual_olp: vec!["Test".to_string()],
                ..Default::default()
            },
        ]
    );
}

#[test]
fn test_parse_links() {
    const ORG: &str = ":PROPERTIES:
:ID:       e655725f-97db-4eec-925a-b80d66ad97e8
:END:
#+title: Test
* other
:PROPERTIES:
:ID:       e655725f-97db-4eec-925a-b80d66ad97e9
:END:
Linking to [[id:e655725f-97db-4eec-925a-b80d66ad97e8][Test]]";
    let res = nodes_of(ORG);
    assert_eq!(res[0].links, vec![]);
    assert_eq!(
        res[1].links,
        vec![("e655725f-97db-4eec-925a-b80d66ad97e8".to_string(), "Test".to_string())]
    );
}

#[test]
fn test_inherited_linking() {
    const ORG: &str = ":PROPERTIES:
:ID:       e655725f-97db-4eec-925a-b80d66ad97e8
:END:
#+title: Test
* other
Linking to [[id:e655725f-97db-4eec-925a-b80d66ad97e8][Test]]";
    let res = nodes_of(ORG);
    assert_eq!(
        res[0].links,
        vec![("e655725f-97db-4eec-925a-b80d66ad97e8".to_string(), "Test".to_string())]
    );
}

#[test]
fn test_aliases() {
    const ORG: &str = ":PROPERTIES:
:ID:       e655725f-97db-4eec-925a-b80d66ad97e8
:ROAM_ALIASES: test1 test2
:END:
#+title: Test
* other
:PROPERTIES:
:ID:       e655725f-97db-4eec-925a-b80d66ad97e9
:ROAM_ALIASES: test3 test4
:END:";
    let res = nodes_of(ORG);
    assert_eq!(res[0].aliases, vec!["test1".to_string(), "test2".to_string()]);
    assert_eq!(res[1].aliases, vec!["test3".to_string(), "test4".to_string()]);
}

#[test]
fn traverser_stacks_follow_the_headlines() {
    let mut t = RoamersTraverser::new();
    t.event(&NodeEvent::HeadlineEnter {
        id: Some("x".into()),
        aliases: None,
        tags: vec!["b".into(), "a".into(), " ".into()],
        title_raw: "Top".into(),
        level: 1,
        section: None,
        subheadlines: vec![],
    });
    assert_eq!(t.current_olp(), vec!["Top".to_string()]);
    assert_eq!(t.get_tags(), vec!["a".to_string(), "b".to_string()]);
    t.event(&NodeEvent::HeadlineLeave { id: Some("x".into()) });
    assert!(t.current_olp().is_empty());
    assert!(t.get_tags().is_empty());
    let nodes = t.into_nodes();
    assert_eq!(nodes.len(), 1);
    assert_eq!(nodes[0].tags, vec!["a".to_string(), "b".to_string()]);
}

use org_roamers::html::ExportEvent;
use org_roamers::org::NodeEvent;
use org_roamers::orgtree::{export_events_of_tree, node_events, OrgKind, OrgTree, TokenKind};

fn tok(kind: TokenKind, text: &str) -> OrgTree {
    OrgTree::Token { kind, text: text.into() }
}

fn cell(text: &str) -> OrgTree {
    OrgTree::Node {
        kind: OrgKind::TableCell { text: text.into() },
        children: vec![tok(TokenKind::Text, text)],
    }
}

#[test]
fn blank_cells_become_empty_cells() {
    let row = OrgTree::Node {
        kind: OrgKind::TableRow { rule: false },
        children: vec![
            tok(TokenKind::Pipe, "|"),
            tok(TokenKind::Other, "   "),
            tok(TokenKind::Pipe, "|"),
            cell("a"),
            tok(TokenKind::Pipe, "|"),
        ],
    };
    let evs = export_events_of_tree(row);
    assert_eq!(evs.len(), 7);
    assert!(matches!(&evs[0], ExportEvent::TableRowEnter { first_cell: None, rule: false }));
    assert!(matches!(evs[1], ExportEvent::TableCellEnter));
    assert!(matches!(evs[2], ExportEvent::TableCellLeave));
    assert!(matches!(evs[3], ExportEvent::TableCellEnter));
    assert!(matches!(&evs[4], ExportEvent::Text(t) if t == "a"));
    assert!(matches!(evs[5], ExportEvent::TableCellLeave));
    assert!(matches!(evs[6], ExportEvent::TableRowLeave { rule: false }));
}

#[test]
fn the_first_cell_names_a_formatting_row() {
    let row = OrgTree::Node {
        kind: OrgKind::TableRow { rule: false },
        children: vec![tok(TokenKind::Pipe, "|"), cell("/"), tok(TokenKind::Pipe, "|")],
    };
    let evs = export_events_of_tree(row);
    assert!(matches!(&evs[0], ExportEvent::TableRowEnter { first_cell: Some(c), rule: false } if c == "/"));
}

#[test]
fn ignored_nodes_and_leaves_hide_their_subtrees() {
    let link_in_title = OrgTree::Node {
        kind: OrgKind::Link { path: "id:x".into(), image: false, has_description: false, description: vec![] },
        children: vec![],
    };
    let ignored = OrgTree::Node { kind: OrgKind::Ignored, children: vec![link_in_title] };
    let doc = OrgTree::Node {
        kind: OrgKind::Document { title: None, id: None, aliases: None, keywords: vec![], raw: String::new() },
        children: vec![
            ignored,
            OrgTree::Node {
                kind: OrgKind::Link { path: "id:y".into(), image: false, has_description: false, description: vec![] },
                children: vec![tok(TokenKind::Text, "y")],
            },
        ],
    };
    let evs = node_events(doc);
    assert_eq!(evs.len(), 3);
    assert!(matches!(&evs[1], NodeEvent::LinkEnter { path, .. } if path == "id:y"));
    assert!(matches!(evs[2], NodeEvent::DocumentLeave));
}

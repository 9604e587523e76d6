//! The syntax tree of an org text as plain values, and the walks over it
//! that the exporter and the node gatherer read.
//!
//! orgize parses the text; its tree is converted node for node, each node
//! with what orgize's accessors give for its kind. The walks follow orgize's
//! own traversal: a container is entered, its children are walked in order,
//! and it is left; a leaf element is a single event; a text token is a text
//! event; a node of a kind the traversal does not know is passed over with
//! its subtree; block and item contents are walked through without events.
use vstd::prelude::*;

use orgize::rowan::ast::AstNode;
use orgize::rowan::NodeOrToken;
use orgize::SyntaxKind::{
    BABEL_CALL, BLOCK_CONTENT, BOLD, CENTER_BLOCK, CLOCK, CODE, COMMENT, COMMENT_BLOCK, COOKIE, DOCUMENT, DRAWER, DYN_BLOCK, ENTITY, EXAMPLE_BLOCK, EXPORT_BLOCK, FIXED_WIDTH, FN_DEF, FN_REF, HEADLINE, INLINE_CALL, INLINE_SRC, ITALIC, KEYWORD, LATEX_ENVIRONMENT, LATEX_FRAGMENT, LINE_BREAK, LINK, LIST, LIST_ITEM, LIST_ITEM_CONTENT, MACROS, MINUS2, ORG_TABLE, ORG_TABLE_CELL, ORG_TABLE_RULE_ROW, ORG_TABLE_STANDARD_ROW, PARAGRAPH, PIPE, PROPERTY_DRAWER, QUOTE_BLOCK, RADIO_TARGET, RULE, SECTION, SNIPPET, SOURCE_BLOCK, SPECIAL_BLOCK, STRIKE, SUBSCRIPT, SUPERSCRIPT, TARGET, TEXT, TIMESTAMP_ACTIVE, TIMESTAMP_DIARY, TIMESTAMP_INACTIVE, UNDERLINE, VERBATIM, VERSE_BLOCK,
};

use crate::config::HtmlExportSettings;
use crate::html::{
    advice_views, export_events, replay, ExportEvent, ExportView, Markup, TableRow, TimestampPart,
};
use crate::org::{empty_traverser, get_nodes, node_replay, NodeEvent, NodeFromOrg};
use crate::text::{strictly_sorted, views};

verus! {

#[verifier::external_type_specification]
#[verifier::external_body]
pub struct ExGreenNode(orgize::rowan::GreenNode);

#[verifier::external_type_specification]
#[verifier::external_body]
pub struct ExGreenToken(orgize::rowan::GreenToken);

/// What a token of the tree is, as far as the walks care.
#[derive(Clone, Copy, Debug, PartialEq, Eq, Structural)]
pub enum TokenKind {
    /// Text, which the traversal reports.
    Text,
    /// The `|` between table cells.
    Pipe,
    /// The `--` between the ends of a timestamp range.
    Minus2,
    Other,
}

/// A node of the tree, with what orgize's accessors give for its kind.
#[derive(Debug)]
pub enum OrgKind {
    /// The document: its title, `ID` and `ROAM_ALIASES` properties, its
    /// keywords as (key, value), and its text.
    Document {
        title: Option<String>,
        id: Option<String>,
        aliases: Option<String>,
        keywords: Vec<(String, String)>,
        raw: String,
    },
    /// A headline: its level and tags, the elements of its title, its `ID`
    /// (read once on entering and once on leaving) and `ROAM_ALIASES`
    /// properties, its title as written, the text of its section and of each
    /// sub-headline.
    Headline {
        level: usize,
        tags: Vec<String>,
        title: Vec<OrgTree>,
        id: Option<String>,
        leave_id: Option<String>,
        aliases: Option<String>,
        title_raw: String,
        section: Option<String>,
        subheadlines: Vec<String>,
    },
    Section,
    Paragraph,
    Markup(Markup),
    /// `block_type` is the name after `#+begin_`.
    SpecialBlock { block_type: Option<String> },
    SourceBlock { language: Option<String> },
    List { ordered: bool, descriptive: bool },
    /// A list item and the elements of its tag.
    ListItem { tag: Vec<OrgTree> },
    Table { has_header: bool },
    TableRow { rule: bool },
    /// A table cell and its text.
    TableCell { text: String },
    /// A link: its path, whether it shows an image, whether it has a
    /// description, and the text of each element of the description.
    Link { path: String, image: bool, has_description: bool, description: Vec<String> },
    Keyword,
    FnRef { raw: String },
    FnDef { raw: String },
    /// Any other container the traversal enters.
    OtherContainer,
    InlineSrc { language: String, value: String },
    Snippet { backend: String, value: String },
    Rule,
    /// A timestamp and its tokens (`--` as a dash).
    Timestamp { parts: Vec<TimestampPart> },
    LatexFragment { raw: String },
    LatexEnvironment { raw: String },
    Entity { html: String },
    LineBreak,
    /// Any other leaf element.
    OtherLeaf,
    /// Block and list item contents: walked through.
    Transparent,
    /// A kind the traversal does not know: passed over.
    Ignored,
}

/// The syntax tree of an org text.
#[derive(Debug)]
pub enum OrgTree {
    Token { kind: TokenKind, text: String },
    Node { kind: OrgKind, children: Vec<OrgTree> },
}

/// The tree orgize parses an org text into.
pub uninterp spec fn org_tree_of(content: Seq<char>) -> OrgTree;

/// `Org::parse` with orgize's default configuration, the document's syntax
/// node converted node for node (see `convert_node`). Parsing depends on the
/// text alone.
#[verifier::external_body]
fn parse_org(content: &str) -> (r: OrgTree)
    ensures
        r == org_tree_of(content@),
{
    convert_node(&orgize::Org::parse(content).document().syntax().green().into_owned())
}

/// A syntax node converted: its kind (see `node_kind`) and its children in
/// order; a token as its kind and text.
#[verifier::external_body]
fn convert_node(g: &orgize::rowan::GreenNode) -> (r: OrgTree) {
    let n = orgize::SyntaxNode::new_root(g.clone());
    let children = n.children_with_tokens().map(|c| match c {
        NodeOrToken::Node(m) => convert_node(&m.green().into_owned()),
        NodeOrToken::Token(t) => token_tree(&t.green().to_owned()),
    }).collect();
    OrgTree::Node { kind: node_kind(g), children }
}

/// A token converted: its kind and text.
#[verifier::external_body]
fn token_tree(t: &orgize::rowan::GreenToken) -> (r: OrgTree) {
    let k = t.kind();
    let kind = if k == TEXT.into() {
        TokenKind::Text
    } else if k == PIPE.into() {
        TokenKind::Pipe
    } else if k == MINUS2.into() {
        TokenKind::Minus2
    } else {
        TokenKind::Other
    };
    OrgTree::Token { kind, text: t.text().to_string() }
}

/// The kind of a node: one arm per group of the kinds of orgize's traversal.
#[verifier::external_body]
fn node_kind(g: &orgize::rowan::GreenNode) -> (r: OrgKind) {
    match orgize::SyntaxNode::new_root(g.clone()).kind() {
        DOCUMENT => document_kind(g),
        HEADLINE => headline_kind(g),
        LINK => link_kind(g),
        LIST | LIST_ITEM | ORG_TABLE | ORG_TABLE_RULE_ROW | ORG_TABLE_STANDARD_ROW => list_table_kind(g),
        SPECIAL_BLOCK | SOURCE_BLOCK | ORG_TABLE_CELL | FN_REF | FN_DEF | KEYWORD => block_kind(g),
        INLINE_SRC | SNIPPET | LATEX_FRAGMENT | LATEX_ENVIRONMENT | ENTITY => leaf_kind(g),
        TIMESTAMP_ACTIVE | TIMESTAMP_INACTIVE | TIMESTAMP_DIARY => timestamp_kind(g),
        _ => simple_kind(g),
    }
}

/// A property of the document's property drawer (`Document::properties`
/// and `PropertyDrawer::get`).
#[verifier::external_body]
fn document_property(g: &orgize::rowan::GreenNode, key: &str) -> (r: Option<String>) {
    let d = orgize::ast::Document::cast(orgize::SyntaxNode::new_root(g.clone())).unwrap();
    d.properties().and_then(|p| p.get(key)).map(|t| t.to_string())
}

/// `Document::title`, `properties` (`ID`, `ROAM_ALIASES`), `keywords` and
/// `raw`.
#[verifier::external_body]
fn document_kind(g: &orgize::rowan::GreenNode) -> (r: OrgKind) {
    let d = orgize::ast::Document::cast(orgize::SyntaxNode::new_root(g.clone())).unwrap();
    OrgKind::Document {
        title: d.title(),
        id: document_property(g, "ID"),
        aliases: document_property(g, "ROAM_ALIASES"),
        keywords: d.keywords().map(|k| (k.key().to_string(), k.value().to_string())).collect(),
        raw: d.raw(),
    }
}

/// A property of a headline's property drawer (`Headline::properties` and
/// `PropertyDrawer::get`).
#[verifier::external_body]
fn headline_property(g: &orgize::rowan::GreenNode, key: &str) -> (r: Option<String>) {
    let h = orgize::ast::Headline::cast(orgize::SyntaxNode::new_root(g.clone())).unwrap();
    h.properties().and_then(|p| p.get(key)).map(|t| t.to_string())
}

/// `Headline::title`, converted.
#[verifier::external_body]
fn headline_title(g: &orgize::rowan::GreenNode) -> (r: Vec<OrgTree>) {
    let h = orgize::ast::Headline::cast(orgize::SyntaxNode::new_root(g.clone())).unwrap();
    h.title().map(|c| match c {
        NodeOrToken::Node(m) => convert_node(&m.green().into_owned()),
        NodeOrToken::Token(t) => token_tree(&t.green().to_owned()),
    }).collect()
}

/// `Headline::level`, `tags`, `title` (converted), `properties` (`ID`,
/// `ROAM_ALIASES`), `title_raw`, `section` and `headlines` (as text).
#[verifier::external_body]
fn headline_kind(g: &orgize::rowan::GreenNode) -> (r: OrgKind) {
    let h = orgize::ast::Headline::cast(orgize::SyntaxNode::new_root(g.clone())).unwrap();
    OrgKind::Headline {
        level: h.level(),
        tags: h.tags().map(|t| t.to_string()).collect(),
        title: headline_title(g),
        id: headline_property(g, "ID"),
        leave_id: headline_property(g, "ID"),
        aliases: headline_property(g, "ROAM_ALIASES"),
        title_raw: h.title_raw(),
        section: h.section().map(|s| s.raw()),
        subheadlines: h.headlines().map(|s| s.raw()).collect(),
    }
}

/// `Link::path`, `is_image`, `has_description` and `description` (as text).
#[verifier::external_body]
fn link_kind(g: &orgize::rowan::GreenNode) -> (r: OrgKind) {
    let l = orgize::ast::Link::cast(orgize::SyntaxNode::new_root(g.clone())).unwrap();
    OrgKind::Link {
        path: l.path().to_string(),
        image: l.is_image(),
        has_description: l.has_description(),
        description: l.description().map(|s| match s {
            NodeOrToken::Node(n) => n.text().to_string(),
            NodeOrToken::Token(t) => t.text().to_string(),
        }).collect(),
    }
}

/// `List::is_ordered` and `is_descriptive`, `ListItem::tag` (converted).
#[verifier::external_body]
fn list_table_kind(g: &orgize::rowan::GreenNode) -> (r: OrgKind) {
    let n = orgize::SyntaxNode::new_root(g.clone());
    match n.kind() {
        LIST => { let l = orgize::ast::List::cast(n).unwrap(); OrgKind::List { ordered: l.is_ordered(), descriptive: l.is_descriptive() } },
        LIST_ITEM => OrgKind::ListItem { tag: orgize::ast::ListItem::cast(n).unwrap().tag().map(|c| match c {
            NodeOrToken::Node(m) => convert_node(&m.green().into_owned()),
            NodeOrToken::Token(t) => token_tree(&t.green().to_owned()),
        }).collect() },
        _ => table_kind(g),
    }
}

/// `OrgTable::has_header`, `OrgTableRow::is_rule`.
#[verifier::external_body]
fn table_kind(g: &orgize::rowan::GreenNode) -> (r: OrgKind) {
    let n = orgize::SyntaxNode::new_root(g.clone());
    match n.kind() {
        ORG_TABLE => OrgKind::Table { has_header: orgize::ast::OrgTable::cast(n).unwrap().has_header() },
        _ => OrgKind::TableRow { rule: orgize::ast::OrgTableRow::cast(n).unwrap().is_rule() },
    }
}

/// The name after `#+begin_` of a special block, `SourceBlock::language`,
/// a cell's text, `FnRef::raw`, `FnDef::raw`; a keyword.
#[verifier::external_body]
fn block_kind(g: &orgize::rowan::GreenNode) -> (r: OrgKind) {
    let n = orgize::SyntaxNode::new_root(g.clone());
    match n.kind() {
        SPECIAL_BLOCK => OrgKind::SpecialBlock { block_type: n.first_child().and_then(|c| c.children_with_tokens().nth(1)).map(|t| t.to_string()) },
        SOURCE_BLOCK => OrgKind::SourceBlock { language: orgize::ast::SourceBlock::cast(n).unwrap().language().map(|l| l.to_string()) },
        ORG_TABLE_CELL => OrgKind::TableCell { text: n.text().to_string() },
        FN_REF => OrgKind::FnRef { raw: orgize::ast::FnRef::cast(n).unwrap().raw() },
        FN_DEF => OrgKind::FnDef { raw: orgize::ast::FnDef::cast(n).unwrap().raw() },
        _ => OrgKind::Keyword,
    }
}

/// `InlineSrc::language` and `value`, `Snippet::backend` and `value`.
#[verifier::external_body]
fn leaf_kind(g: &orgize::rowan::GreenNode) -> (r: OrgKind) {
    let n = orgize::SyntaxNode::new_root(g.clone());
    match n.kind() {
        INLINE_SRC => { let s = orgize::ast::InlineSrc::cast(n).unwrap(); OrgKind::InlineSrc { language: s.language().to_string(), value: s.value().to_string() } },
        SNIPPET => { let s = orgize::ast::Snippet::cast(n).unwrap(); OrgKind::Snippet { backend: s.backend().to_string(), value: s.value().to_string() } },
        _ => latex_entity_kind(g),
    }
}

/// `LatexFragment::raw`, `LatexEnvironment::raw`, `Entity::html`.
#[verifier::external_body]
fn latex_entity_kind(g: &orgize::rowan::GreenNode) -> (r: OrgKind) {
    let n = orgize::SyntaxNode::new_root(g.clone());
    match n.kind() {
        LATEX_FRAGMENT => OrgKind::LatexFragment { raw: orgize::ast::LatexFragment::cast(n).unwrap().raw() },
        LATEX_ENVIRONMENT => OrgKind::LatexEnvironment { raw: orgize::ast::LatexEnvironment::cast(n).unwrap().raw() },
        _ => OrgKind::Entity { html: orgize::ast::Entity::cast(n).unwrap().html().to_string() },
    }
}

/// A timestamp's tokens: `--` as a dash, any other token as its text.
#[verifier::external_body]
fn timestamp_kind(g: &orgize::rowan::GreenNode) -> (r: OrgKind) {
    let n = orgize::SyntaxNode::new_root(g.clone());
    OrgKind::Timestamp {
        parts: n.children_with_tokens().filter_map(|e| match e {
            NodeOrToken::Token(t) if t.kind() == MINUS2 => Some(TimestampPart::Dash),
            NodeOrToken::Token(t) => Some(TimestampPart::Token(t.text().to_string())),
            NodeOrToken::Node(_) => None,
        }).collect(),
    }
}

/// The other kinds of orgize's traversal, and those it passes over.
#[verifier::external_body]
fn simple_kind(g: &orgize::rowan::GreenNode) -> (r: OrgKind) {
    match orgize::SyntaxNode::new_root(g.clone()).kind() {
        SECTION => OrgKind::Section,
        PARAGRAPH => OrgKind::Paragraph,
        BOLD | ITALIC | STRIKE | UNDERLINE | VERBATIM | CODE | SUBSCRIPT | SUPERSCRIPT => OrgKind::Markup(inline_markup(g)),
        QUOTE_BLOCK | VERSE_BLOCK | EXAMPLE_BLOCK | FIXED_WIDTH | CENTER_BLOCK | COMMENT_BLOCK | COMMENT => OrgKind::Markup(block_markup(g)),
        EXPORT_BLOCK | BABEL_CALL | RADIO_TARGET | DRAWER | DYN_BLOCK | TARGET | PROPERTY_DRAWER => OrgKind::OtherContainer,
        INLINE_CALL | CLOCK | COOKIE | MACROS => OrgKind::OtherLeaf,
        RULE => OrgKind::Rule,
        LINE_BREAK => OrgKind::LineBreak,
        BLOCK_CONTENT | LIST_ITEM_CONTENT => OrgKind::Transparent,
        _ => OrgKind::Ignored,
    }
}

/// The markup of an inline container.
#[verifier::external_body]
fn inline_markup(g: &orgize::rowan::GreenNode) -> (r: Markup) {
    match orgize::SyntaxNode::new_root(g.clone()).kind() {
        BOLD => Markup::Bold,
        ITALIC => Markup::Italic,
        STRIKE => Markup::Strike,
        UNDERLINE => Markup::Underline,
        VERBATIM => Markup::Verbatim,
        CODE => Markup::Code,
        SUBSCRIPT => Markup::Subscript,
        _ => Markup::Superscript,
    }
}

/// The markup of a block container.
#[verifier::external_body]
fn block_markup(g: &orgize::rowan::GreenNode) -> (r: Markup) {
    match orgize::SyntaxNode::new_root(g.clone()).kind() {
        QUOTE_BLOCK => Markup::QuoteBlock,
        VERSE_BLOCK => Markup::VerseBlock,
        EXAMPLE_BLOCK => Markup::ExampleBlock,
        FIXED_WIDTH => Markup::FixedWidth,
        CENTER_BLOCK => Markup::CenterBlock,
        COMMENT_BLOCK => Markup::CommentBlock,
        _ => Markup::Comment,
    }
}


/// The exporter's event for entering a container.
pub open spec fn enter_ev(k: OrgKind) -> ExportEvent {
    match k {
        OrgKind::Document { title, .. } => ExportEvent::DocumentEnter { title },
        OrgKind::Section => ExportEvent::SectionEnter,
        OrgKind::Paragraph => ExportEvent::ParagraphEnter,
        OrgKind::Markup(m) => ExportEvent::MarkupEnter(m),
        OrgKind::SpecialBlock { block_type } => ExportEvent::SpecialBlockEnter { block_type },
        OrgKind::SourceBlock { language } => ExportEvent::SourceBlockEnter { language },
        OrgKind::List { ordered, descriptive } => ExportEvent::ListEnter { ordered, descriptive },
        OrgKind::Table { has_header } => ExportEvent::TableEnter { has_header },
        OrgKind::TableCell { .. } => ExportEvent::TableCellEnter,
        OrgKind::Link { path, image, has_description, .. } => ExportEvent::LinkEnter {
            path,
            image,
            has_description,
        },
        OrgKind::Keyword => ExportEvent::KeywordEnter,
        OrgKind::FnRef { raw } => ExportEvent::FnRefEnter { raw },
        OrgKind::FnDef { raw } => ExportEvent::FnDefEnter { raw },
        _ => ExportEvent::OtherEnter,
    }
}

/// The exporter's event for leaving a container.
pub open spec fn leave_ev(k: OrgKind) -> ExportEvent {
    match k {
        OrgKind::Document { .. } => ExportEvent::DocumentLeave,
        OrgKind::Section => ExportEvent::SectionLeave,
        OrgKind::Paragraph => ExportEvent::ParagraphLeave,
        OrgKind::Markup(m) => ExportEvent::MarkupLeave(m),
        OrgKind::SpecialBlock { .. } => ExportEvent::SpecialBlockLeave,
        OrgKind::SourceBlock { .. } => ExportEvent::SourceBlockLeave,
        OrgKind::List { ordered, .. } => ExportEvent::ListLeave { ordered },
        OrgKind::Table { .. } => ExportEvent::TableLeave,
        OrgKind::TableCell { .. } => ExportEvent::TableCellLeave,
        OrgKind::Link { .. } => ExportEvent::LinkLeave,
        OrgKind::Keyword => ExportEvent::KeywordLeave,
        OrgKind::FnRef { .. } => ExportEvent::FnRefLeave,
        OrgKind::FnDef { .. } => ExportEvent::FnDefLeave,
        _ => ExportEvent::OtherLeave,
    }
}

/// The exporter's event for a leaf element, if the kind is one.
pub open spec fn leaf_ev(k: OrgKind) -> Option<ExportEvent> {
    match k {
        OrgKind::InlineSrc { language, value } => Some(ExportEvent::InlineSrc { language, value }),
        OrgKind::Snippet { backend, value } => Some(ExportEvent::Snippet { backend, value }),
        OrgKind::Rule => Some(ExportEvent::Rule),
        OrgKind::Timestamp { parts } => Some(ExportEvent::Timestamp { parts }),
        OrgKind::LatexFragment { raw } => Some(ExportEvent::LatexFragment(raw)),
        OrgKind::LatexEnvironment { raw } => Some(ExportEvent::LatexEnvironment(raw)),
        OrgKind::Entity { html } => Some(ExportEvent::Entity { html }),
        OrgKind::LineBreak => Some(ExportEvent::LineBreak),
        OrgKind::OtherLeaf => Some(ExportEvent::Other),
        _ => None,
    }
}

/// The text of a standard table row's first cell: the first cell met, or
/// none when the row starts with a blank cell (two `|` with no cell between
/// them) or has no cell. `seen` tells that a `|` was met, `since` that a
/// cell was met after the last `|`.
pub open spec fn first_cell(cs: Seq<OrgTree>, seen: bool, since: bool) -> Option<String>
    decreases cs.len(),
{
    if cs.len() == 0 {
        None
    } else {
        match cs[0] {
            OrgTree::Token { kind: TokenKind::Pipe, .. } => if seen && !since {
                None
            } else {
                first_cell(cs.drop_first(), true, false)
            },
            OrgTree::Node { kind: OrgKind::TableCell { text }, .. } => Some(text),
            _ => first_cell(cs.drop_first(), seen, since),
        }
    }
}

/// The exporter's events for the cells of a standard table row: each cell
/// walked, and a blank cell (two `|` with no cell between them) as an empty
/// cell.
pub open spec fn row_ex(cs: Seq<OrgTree>, seen: bool, since: bool) -> Seq<ExportEvent>
    decreases cs,
{
    if cs.len() == 0 {
        Seq::empty()
    } else {
        match cs[0] {
            OrgTree::Token { kind: TokenKind::Pipe, .. } => (if seen && !since {
                seq![ExportEvent::TableCellEnter, ExportEvent::TableCellLeave]
            } else {
                Seq::empty()
            }) + row_ex(cs.drop_first(), true, false),
            OrgTree::Node { kind: OrgKind::TableCell { .. }, .. } => ex_el(cs[0]) + row_ex(
                cs.drop_first(),
                seen,
                true,
            ),
            _ => row_ex(cs.drop_first(), seen, since),
        }
    }
}

/// The exporter's events for a tree (see the module's doc): a headline
/// brings its title's events, a list item its tag's, and a standard table
/// row its cells with the blank ones.
pub open spec fn ex_el(t: OrgTree) -> Seq<ExportEvent>
    decreases t,
{
    match t {
        OrgTree::Token { kind, text } => if kind == TokenKind::Text {
            seq![ExportEvent::Text(text)]
        } else {
            Seq::empty()
        },
        OrgTree::Node { kind, children } => match kind {
            OrgKind::Transparent => ex_seq(children@),
            OrgKind::Ignored => Seq::empty(),
            OrgKind::Headline { level, tags, title, .. } => seq![
                ExportEvent::HeadlineEnter { level, tags },
                ExportEvent::TitleEnter,
            ] + ex_seq(title@) + seq![ExportEvent::TitleLeave { level }] + ex_seq(children@)
                + seq![ExportEvent::HeadlineLeave],
            OrgKind::ListItem { tag } => seq![ExportEvent::ListItemEnter, ExportEvent::ItemTagEnter]
                + ex_seq(tag@) + seq![ExportEvent::ItemTagLeave] + ex_seq(children@) + seq![
                ExportEvent::ListItemLeave,
            ],
            OrgKind::TableRow { rule } => if rule {
                seq![ExportEvent::TableRowEnter { first_cell: None, rule: true }] + ex_seq(
                    children@,
                ) + seq![ExportEvent::TableRowLeave { rule: true }]
            } else {
                seq![
                    ExportEvent::TableRowEnter {
                        first_cell: first_cell(children@, false, false),
                        rule: false,
                    },
                ] + row_ex(children@, false, false) + seq![
                    ExportEvent::TableRowLeave { rule: false },
                ]
            },
            _ => match leaf_ev(kind) {
                Some(e) => seq![e],
                None => seq![enter_ev(kind)] + ex_seq(children@) + seq![leave_ev(kind)],
            },
        },
    }
}

/// The exporter's events for trees in order.
pub open spec fn ex_seq(cs: Seq<OrgTree>) -> Seq<ExportEvent>
    decreases cs,
{
    if cs.len() == 0 {
        Seq::empty()
    } else {
        ex_seq(cs.drop_last()) + ex_el(cs.last())
    }
}

/// The gatherer's events for a tree: a document and a headline are entered
/// and left, a link is entered; leaf elements are passed over.
pub open spec fn nd_el(t: OrgTree) -> Seq<NodeEvent>
    decreases t,
{
    match t {
        OrgTree::Token { .. } => Seq::empty(),
        OrgTree::Node { kind, children } => match kind {
            OrgKind::Ignored => Seq::empty(),
            OrgKind::Document { title, id, aliases, keywords, raw } => seq![
                NodeEvent::DocumentEnter { id, title, keywords, raw, aliases },
            ] + nd_seq(children@) + seq![NodeEvent::DocumentLeave],
            OrgKind::Headline {
                level,
                tags,
                id,
                leave_id,
                aliases,
                title_raw,
                section,
                subheadlines,
                ..
            } => seq![
                NodeEvent::HeadlineEnter { id, aliases, tags, title_raw, level, section, subheadlines },
            ] + nd_seq(children@) + seq![NodeEvent::HeadlineLeave { id: leave_id }],
            OrgKind::Link { path, description, .. } => seq![
                NodeEvent::LinkEnter { path, description },
            ] + nd_seq(children@),
            _ => if leaf_ev(kind) is Some {
                Seq::empty()
            } else {
                nd_seq(children@)
            },
        },
    }
}

/// The gatherer's events for trees in order.
pub open spec fn nd_seq(cs: Seq<OrgTree>) -> Seq<NodeEvent>
    decreases cs,
{
    if cs.len() == 0 {
        Seq::empty()
    } else {
        nd_seq(cs.drop_last()) + nd_el(cs.last())
    }
}


/// The exporter's event for a leaf element, or the kind given back.
fn leaf_exec(k: OrgKind) -> (r: Result<ExportEvent, OrgKind>)
    ensures
        match r {
            Ok(e) => leaf_ev(k) == Some(e),
            Err(k2) => k2 == k && leaf_ev(k) is None,
        },
{
    match k {
        OrgKind::InlineSrc { language, value } => Ok(ExportEvent::InlineSrc { language, value }),
        OrgKind::Snippet { backend, value } => Ok(ExportEvent::Snippet { backend, value }),
        OrgKind::Rule => Ok(ExportEvent::Rule),
        OrgKind::Timestamp { parts } => Ok(ExportEvent::Timestamp { parts }),
        OrgKind::LatexFragment { raw } => Ok(ExportEvent::LatexFragment(raw)),
        OrgKind::LatexEnvironment { raw } => Ok(ExportEvent::LatexEnvironment(raw)),
        OrgKind::Entity { html } => Ok(ExportEvent::Entity { html }),
        OrgKind::LineBreak => Ok(ExportEvent::LineBreak),
        OrgKind::OtherLeaf => Ok(ExportEvent::Other),
        other => Err(other),
    }
}

/// The exporter's events for entering and leaving a container.
fn container_events(k: OrgKind) -> (r: (ExportEvent, ExportEvent))
    ensures
        r.0 == enter_ev(k),
        r.1 == leave_ev(k),
{
    match k {
        OrgKind::Document { title, .. } => (ExportEvent::DocumentEnter { title }, ExportEvent::DocumentLeave),
        OrgKind::Section => (ExportEvent::SectionEnter, ExportEvent::SectionLeave),
        OrgKind::Paragraph => (ExportEvent::ParagraphEnter, ExportEvent::ParagraphLeave),
        OrgKind::Markup(m) => (ExportEvent::MarkupEnter(m), ExportEvent::MarkupLeave(m)),
        OrgKind::SpecialBlock { block_type } => (
            ExportEvent::SpecialBlockEnter { block_type },
            ExportEvent::SpecialBlockLeave,
        ),
        OrgKind::SourceBlock { language } => (
            ExportEvent::SourceBlockEnter { language },
            ExportEvent::SourceBlockLeave,
        ),
        OrgKind::List { ordered, descriptive } => (
            ExportEvent::ListEnter { ordered, descriptive },
            ExportEvent::ListLeave { ordered },
        ),
        OrgKind::Table { has_header } => (ExportEvent::TableEnter { has_header }, ExportEvent::TableLeave),
        OrgKind::TableCell { .. } => (ExportEvent::TableCellEnter, ExportEvent::TableCellLeave),
        OrgKind::Link { path, image, has_description, .. } => (
            ExportEvent::LinkEnter { path, image, has_description },
            ExportEvent::LinkLeave,
        ),
        OrgKind::Keyword => (ExportEvent::KeywordEnter, ExportEvent::KeywordLeave),
        OrgKind::FnRef { raw } => (ExportEvent::FnRefEnter { raw }, ExportEvent::FnRefLeave),
        OrgKind::FnDef { raw } => (ExportEvent::FnDefEnter { raw }, ExportEvent::FnDefLeave),
        _ => (ExportEvent::OtherEnter, ExportEvent::OtherLeave),
    }
}

/// Computes `first_cell` of a row's children.
fn first_cell_exec(cs: &Vec<OrgTree>) -> (r: Option<String>)
    ensures
        r == first_cell(cs@, false, false),
{
    let mut seen = false;
    let mut since = false;
    let mut i: usize = 0;
    assert(cs@.skip(0) =~= cs@);
    while i < cs.len()
        invariant
            0 <= i <= cs@.len(),
            first_cell(cs@, false, false) == first_cell(cs@.skip(i as int), seen, since),
        decreases cs@.len() - i,
    {
        assert(cs@.skip(i as int).drop_first() =~= cs@.skip(i + 1));
        assert(cs@.skip(i as int)[0] == cs@[i as int]);
        match &cs[i] {
            OrgTree::Token { kind: TokenKind::Pipe, .. } => {
                if seen && !since {
                    return None;
                }
                seen = true;
                since = false;
            },
            OrgTree::Node { kind: OrgKind::TableCell { text }, .. } => {
                return Some(text.clone());
            },
            _ => {},
        }
        i = i + 1;
    }
    None
}

/// Appends the exporter's events for a tree.
fn ex_tree(t: OrgTree, out: &mut Vec<ExportEvent>)
    ensures
        final(out)@ == old(out)@ + ex_el(t),
    decreases t,
{
    let ghost t0 = t;
    let ghost start = out@;
    match t {
        OrgTree::Token { kind, text } => {
            if kind == TokenKind::Text {
                out.push(ExportEvent::Text(text));
            }
        },
        OrgTree::Node { kind, children } => match kind {
            OrgKind::Transparent => {
                ex_children(children, out);
            },
            OrgKind::Ignored => {},
            OrgKind::Headline { level, tags, title, .. } => {
                out.push(ExportEvent::HeadlineEnter { level, tags });
                out.push(ExportEvent::TitleEnter);
                ex_children(title, out);
                out.push(ExportEvent::TitleLeave { level });
                ex_children(children, out);
                out.push(ExportEvent::HeadlineLeave);
            },
            OrgKind::ListItem { tag } => {
                out.push(ExportEvent::ListItemEnter);
                out.push(ExportEvent::ItemTagEnter);
                ex_children(tag, out);
                out.push(ExportEvent::ItemTagLeave);
                ex_children(children, out);
                out.push(ExportEvent::ListItemLeave);
            },
            OrgKind::TableRow { rule } => {
                if rule {
                    out.push(ExportEvent::TableRowEnter { first_cell: None, rule: true });
                    ex_children(children, out);
                    out.push(ExportEvent::TableRowLeave { rule: true });
                } else {
                    let fc = first_cell_exec(&children);
                    out.push(ExportEvent::TableRowEnter { first_cell: fc, rule: false });
                    ex_row(children, out);
                    out.push(ExportEvent::TableRowLeave { rule: false });
                }
            },
            other => match leaf_exec(other) {
                Ok(e) => {
                    out.push(e);
                },
                Err(k) => {
                    let (en, le) = container_events(k);
                    out.push(en);
                    ex_children(children, out);
                    out.push(le);
                },
            },
        },
    }
    assert(out@ =~= start + ex_el(t0));
}

/// Appends the exporter's events for trees in order.
#[verifier::loop_isolation(false)]
fn ex_children(cs: Vec<OrgTree>, out: &mut Vec<ExportEvent>)
    ensures
        final(out)@ == old(out)@ + ex_seq(cs@),
    decreases cs,
{
    let ghost orig = cs@;
    let ghost cs0 = cs;
    let ghost start = out@;
    let mut rest = cs;
    let ghost mut k: int = 0;
    while rest.len() > 0
        invariant
            0 <= k <= orig.len(),
            rest@ == orig.skip(k),
            cs0@ == orig,
            out@ == start + ex_seq(orig.take(k)),
        decreases rest@.len(),
    {
        let c = rest.remove(0);
        proof {
            assert(c == orig[k]);
            assert(decreases_to!(cs0 => cs0[k]));
            assert(decreases_to!(cs0 => c));
            assert(orig.take(k + 1).drop_last() =~= orig.take(k));
            assert(orig.take(k + 1).last() == orig[k]);
        }
        ex_tree(c, out);
        proof {
            assert(out@ =~= start + ex_seq(orig.take(k + 1)));
            k = k + 1;
            assert(rest@ =~= orig.skip(k));
        }
    }
    assert(orig.take(k) =~= orig);
}

/// Appends the exporter's events for the cells of a standard table row.
#[verifier::loop_isolation(false)]
fn ex_row(cs: Vec<OrgTree>, out: &mut Vec<ExportEvent>)
    ensures
        final(out)@ == old(out)@ + row_ex(cs@, false, false),
    decreases cs,
{
    let ghost orig = cs@;
    let ghost cs0 = cs;
    let ghost start = out@;
    let mut rest = cs;
    let ghost mut k: int = 0;
    let mut seen = false;
    let mut since = false;
    assert(orig.skip(0) =~= orig);
    while rest.len() > 0
        invariant
            0 <= k <= orig.len(),
            rest@ == orig.skip(k),
            cs0@ == orig,
            start + row_ex(orig, false, false) == out@ + row_ex(orig.skip(k), seen, since),
        decreases rest@.len(),
    {
        let ghost before = out@;
        let ghost s0 = seen;
        let ghost t0 = since;
        let c = rest.remove(0);
        proof {
            assert(c == orig[k]);
            assert(decreases_to!(cs0 => cs0[k]));
            assert(decreases_to!(cs0 => c));
            assert(orig.skip(k).drop_first() =~= orig.skip(k + 1));
            assert(orig.skip(k)[0] == orig[k]);
        }
        let is_pipe = matches!(c, OrgTree::Token { kind: TokenKind::Pipe, .. });
        let is_cell = matches!(c, OrgTree::Node { kind: OrgKind::TableCell { .. }, .. });
        if is_pipe {
            if seen && !since {
                out.push(ExportEvent::TableCellEnter);
                out.push(ExportEvent::TableCellLeave);
            }
            seen = true;
            since = false;
        } else if is_cell {
            ex_tree(c, out);
            since = true;
        }
        proof {
            assert(before + row_ex(orig.skip(k), s0, t0) =~= out@ + row_ex(orig.skip(k + 1), seen, since));
            k = k + 1;
            assert(rest@ =~= orig.skip(k));
        }
    }
    assert(row_ex(orig.skip(k), seen, since) =~= Seq::<ExportEvent>::empty());
}

/// The exporter's events for a tree (see `ex_el`).
pub fn export_events_of_tree(t: OrgTree) -> (r: Vec<ExportEvent>)
    ensures
        r@ == ex_el(t),
{
    let mut out: Vec<ExportEvent> = Vec::new();
    ex_tree(t, &mut out);
    assert(out@ =~= ex_el(t));
    out
}


/// Whether the kind is a leaf element.
fn is_leaf(k: &OrgKind) -> (r: bool)
    ensures
        r == leaf_ev(*k) is Some,
{
    match k {
        OrgKind::InlineSrc { .. } | OrgKind::Snippet { .. } | OrgKind::Rule
        | OrgKind::Timestamp { .. } | OrgKind::LatexFragment { .. }
        | OrgKind::LatexEnvironment { .. } | OrgKind::Entity { .. } | OrgKind::LineBreak
        | OrgKind::OtherLeaf => true,
        _ => false,
    }
}

/// Appends the gatherer's events for a tree.
fn nd_tree(t: OrgTree, out: &mut Vec<NodeEvent>)
    ensures
        final(out)@ == old(out)@ + nd_el(t),
    decreases t,
{
    let ghost t0 = t;
    let ghost start = out@;
    match t {
        OrgTree::Token { .. } => {},
        OrgTree::Node { kind, children } => match kind {
            OrgKind::Ignored => {},
            OrgKind::Document { title, id, aliases, keywords, raw } => {
                out.push(NodeEvent::DocumentEnter { id, title, keywords, raw, aliases });
                nd_children(children, out);
                out.push(NodeEvent::DocumentLeave);
            },
            OrgKind::Headline {
                level,
                tags,
                id,
                leave_id,
                aliases,
                title_raw,
                section,
                subheadlines,
                ..
            } => {
                out.push(
                    NodeEvent::HeadlineEnter { id, aliases, tags, title_raw, level, section, subheadlines },
                );
                nd_children(children, out);
                out.push(NodeEvent::HeadlineLeave { id: leave_id });
            },
            OrgKind::Link { path, description, .. } => {
                out.push(NodeEvent::LinkEnter { path, description });
                nd_children(children, out);
            },
            other => {
                if !is_leaf(&other) {
                    nd_children(children, out);
                }
            },
        },
    }
    assert(out@ =~= start + nd_el(t0));
}

/// Appends the gatherer's events for trees in order.
#[verifier::loop_isolation(false)]
fn nd_children(cs: Vec<OrgTree>, out: &mut Vec<NodeEvent>)
    ensures
        final(out)@ == old(out)@ + nd_seq(cs@),
    decreases cs,
{
    let ghost orig = cs@;
    let ghost cs0 = cs;
    let ghost start = out@;
    let mut rest = cs;
    let ghost mut k: int = 0;
    while rest.len() > 0
        invariant
            0 <= k <= orig.len(),
            rest@ == orig.skip(k),
            cs0@ == orig,
            out@ == start + nd_seq(orig.take(k)),
        decreases rest@.len(),
    {
        let c = rest.remove(0);
        proof {
            assert(c == orig[k]);
            assert(decreases_to!(cs0 => cs0[k]));
            assert(decreases_to!(cs0 => c));
            assert(orig.take(k + 1).drop_last() =~= orig.take(k));
            assert(orig.take(k + 1).last() == orig[k]);
        }
        nd_tree(c, out);
        proof {
            assert(out@ =~= start + nd_seq(orig.take(k + 1)));
            k = k + 1;
            assert(rest@ =~= orig.skip(k));
        }
    }
    assert(orig.take(k) =~= orig);
}

/// The gatherer's events for a tree (see `nd_el`).
pub fn node_events(t: OrgTree) -> (r: Vec<NodeEvent>)
    ensures
        r@ == nd_el(t),
{
    let mut out: Vec<NodeEvent> = Vec::new();
    nd_tree(t, &mut out);
    assert(out@ =~= nd_el(t));
    out
}

/// The nodes of an org text: orgize parses it, and the gatherer walks the
/// tree's events.
pub fn get_nodes_of_text(content: &str) -> (r: Vec<NodeFromOrg>)
    ensures
        r@.map_values(|n: NodeFromOrg| n@) == node_replay(
            empty_traverser(),
            nd_el(org_tree_of(content@)),
            0,
        ).nodes,
        forall|k: int| 0 <= k < r@.len() ==> (#[trigger] r@[k]).is_plain(),
{
    let evs = node_events(parse_org(content));
    get_nodes(evs.as_slice())
}

/// The html of an org text, its outgoing links and its LaTeX blocks:
/// orgize parses it, and the exporter walks the tree's events (see
/// `export_events`).
pub fn export_text(settings: &HtmlExportSettings, file: String, content: &str) -> (r: (
    String,
    Vec<String>,
    Vec<String>,
))
    ensures
        ({
            let fin = replay(
                ExportView {
                    respect_noexport: settings.respect_noexport,
                    advices: advice_views(settings),
                    output: Seq::empty(),
                    table_row: TableRow::HeaderRule,
                    lists: Seq::empty(),
                    in_special_block: false,
                    outgoing: Seq::empty(),
                    file: file@,
                    latex_blocks: Seq::empty(),
                    has_formating: false,
                    next_is_first: false,
                    footnote_open: false,
                },
                ex_el(org_tree_of(content@)),
                0,
            );
            &&& r.0@ == fin.output
            &&& strictly_sorted(views(r.1@))
            &&& views(r.1@).to_set() == fin.outgoing.to_set()
            &&& views(r.2@) == fin.latex_blocks
        }),
{
    let evs = export_events_of_tree(parse_org(content));
    export_events(settings, file, evs.as_slice())
}

} // verus!

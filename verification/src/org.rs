//! Gathering of the org-roam nodes of an org document.
//!
//! A node is the document itself or a headline that has an `ID` property.
//! The document arrives as the events of a pre-order walk of its syntax tree
//! (see `NodeEvent`); the gatherer keeps the stacks that give each node its
//! parent, its inherited tags and its outline path, and attaches every
//! `id:` link to the node it appears in.
use vstd::prelude::*;

use crate::text::{
    first_occurrence, lemma_sort_dedup_is_sorted_set, lowercase, occurs_at, sort_dedup,
    sorted_set, split_chars, split_spec, string_of, string_range, to_chars, to_lowercase,
    trim_chars, trim_spec, views, chars_eq, find, strictly_sorted,
};
use crate::types::{RoamID, RoamNode, RoamTitle};

verus! {

/// Creation and modification times of a node.
#[derive(Clone, Debug, PartialEq, Eq, Default)]
pub struct Timestamps {
    ctime: String,
    mtime: Vec<String>,
}

impl Timestamps {
    pub fn new(ctime: String, mtime: Vec<String>) -> (r: Timestamps)
        ensures
            r.ctime() == ctime@,
            r.mtime() == views(mtime@),
    {
        Timestamps { ctime, mtime }
    }

    pub closed spec fn ctime(&self) -> Seq<char> {
        self.ctime@
    }

    pub closed spec fn mtime(&self) -> Seq<Seq<char>> {
        views(self.mtime@)
    }
}

/// A node found in an org document.
#[derive(Clone, Debug, PartialEq, Default)]
pub struct NodeFromOrg {
    pub uuid: String,
    pub title: String,
    pub content: String,
    pub level: u64,
    pub parent: Option<String>,
    pub olp: Vec<String>,
    pub actual_olp: Vec<String>,
    pub tags: Vec<String>,
    pub aliases: Vec<String>,
    pub timestamps: Option<Timestamps>,
    pub links: Vec<(String, String)>,
    pub refs: Vec<String>,
    pub cites: Vec<String>,
}

/// A node as plain text.
#[verifier::ext_equal]
pub struct NodeView {
    pub uuid: Seq<char>,
    pub title: Seq<char>,
    pub content: Seq<char>,
    pub level: u64,
    pub parent: Option<Seq<char>>,
    pub olp: Seq<Seq<char>>,
    pub actual_olp: Seq<Seq<char>>,
    pub tags: Seq<Seq<char>>,
    pub aliases: Seq<Seq<char>>,
    pub links: Seq<(Seq<char>, Seq<char>)>,
}

/// The view of an optional string.
pub open spec fn opt_view(o: Option<String>) -> Option<Seq<char>> {
    match o {
        Some(s) => Some(s@),
        None => None,
    }
}

/// The views of a sequence of string pairs.
pub open spec fn pair_views(v: Seq<(String, String)>) -> Seq<(Seq<char>, Seq<char>)> {
    v.map_values(|p: (String, String)| (p.0@, p.1@))
}

impl View for NodeFromOrg {
    type V = NodeView;

    open spec fn view(&self) -> NodeView {
        NodeView {
            uuid: self.uuid@,
            title: self.title@,
            content: self.content@,
            level: self.level,
            parent: opt_view(self.parent),
            olp: views(self.olp@),
            actual_olp: views(self.actual_olp@),
            tags: views(self.tags@),
            aliases: views(self.aliases@),
            links: pair_views(self.links@),
        }
    }
}

impl NodeFromOrg {
    /// A node as the gatherer makes it: without timestamps, refs or cites.
    pub open spec fn is_plain(&self) -> bool {
        &&& self.timestamps is None
        &&& self.refs@.len() == 0
        &&& self.cites@.len() == 0
    }
}

/// One event of the walk, with what the gatherer reads of the element.
pub enum NodeEvent {
    /// The document starts. `id` is its `ID` property, `title` its title,
    /// `keywords` its keywords as (key, value), `raw` its whole text and
    /// `aliases` its `ROAM_ALIASES` property.
    DocumentEnter {
        id: Option<String>,
        title: Option<String>,
        keywords: Vec<(String, String)>,
        raw: String,
        aliases: Option<String>,
    },
    DocumentLeave,
    /// A headline starts. `tags` are its tags, `title_raw` its title as
    /// written, `section` the text of its section and `subheadlines` the text
    /// of each of its sub-headlines.
    HeadlineEnter {
        id: Option<String>,
        aliases: Option<String>,
        tags: Vec<String>,
        title_raw: String,
        level: usize,
        section: Option<String>,
        subheadlines: Vec<String>,
    },
    HeadlineLeave { id: Option<String> },
    /// A link starts. `description` holds the text of each element of its
    /// description.
    LinkEnter { path: String, description: Vec<String> },
}

/// The state of the gatherer.
#[verifier::ext_equal]
pub struct TraverserView {
    pub nodes: Seq<NodeView>,
    pub id_stack: Seq<(Seq<char>, Seq<char>)>,
    pub tags_stack: Seq<Seq<Seq<char>>>,
    pub olp: Seq<Seq<char>>,
    pub actual_olp: Seq<Seq<char>>,
}

/// The pieces that are not blank.
pub open spec fn nonblank(parts: Seq<Seq<char>>) -> Seq<Seq<char>>
    decreases parts.len(),
{
    if parts.len() == 0 {
        Seq::empty()
    } else if trim_spec(parts.last()).len() > 0 {
        nonblank(parts.drop_last()).push(parts.last())
    } else {
        nonblank(parts.drop_last())
    }
}

/// The tags of `#+filetags:` keywords: each value split at `:`, blank pieces
/// dropped, in order.
pub open spec fn filetags(keywords: Seq<(Seq<char>, Seq<char>)>) -> Seq<Seq<char>>
    decreases keywords.len(),
{
    if keywords.len() == 0 {
        Seq::empty()
    } else {
        let (k, v) = keywords.last();
        filetags(keywords.drop_last()) + if lowercase(k) == "filetags"@ {
            nonblank(split_spec(v, ':'))
        } else {
            Seq::empty()
        }
    }
}

/// The aliases of a `ROAM_ALIASES` value: its space-separated pieces, trimmed.
pub open spec fn aliases_of(raw: Seq<char>) -> Seq<Seq<char>> {
    split_spec(raw, ' ').map_values(|p: Seq<char>| trim_spec(p))
}

/// The concatenation of text pieces.
pub open spec fn concat(parts: Seq<Seq<char>>) -> Seq<char>
    decreases parts.len(),
{
    if parts.len() == 0 {
        Seq::empty()
    } else {
        concat(parts.drop_last()) + parts.last()
    }
}

/// An `id:` link: the id after the first `:` and the description's text,
/// when the part before the first `:` reads `id` in any case.
pub open spec fn parse_link_spec(path: Seq<char>, description: Seq<Seq<char>>) -> Option<
    (Seq<char>, Seq<char>),
> {
    match first_occurrence(path, ":"@) {
        Some(i) => if lowercase(path.take(i)) == "id"@ {
            Some((path.skip(i + 1), concat(description)))
        } else {
            None
        },
        None => None,
    }
}

/// All tags on a stack, in order.
pub open spec fn flatten(stack: Seq<Seq<Seq<char>>>) -> Seq<Seq<char>>
    decreases stack.len(),
{
    if stack.len() == 0 {
        Seq::empty()
    } else {
        flatten(stack.drop_last()) + stack.last()
    }
}

/// The tags a node inherits: every tag on the stack, sorted, each once.
pub open spec fn inherited_tags(stack: Seq<Seq<Seq<char>>>) -> Seq<Seq<char>> {
    sorted_set(flatten(stack).to_set())
}

/// `s` without its last element, or `s` when it is empty.
pub open spec fn pop_last<A>(s: Seq<A>) -> Seq<A> {
    if s.len() > 0 {
        s.drop_last()
    } else {
        s
    }
}

/// The last node with the given title.
pub open spec fn last_titled(nodes: Seq<NodeView>, title: Seq<char>) -> Option<int> {
    if exists|k: int| 0 <= k < nodes.len() && nodes[k].title == title {
        Some(
            choose|k: int|
                0 <= k < nodes.len() && nodes[k].title == title && forall|j: int|
                    k < j < nodes.len() ==> #[trigger] nodes[j].title != title,
        )
    } else {
        None
    }
}

/// The document starts.
pub open spec fn document_enter(
    st: TraverserView,
    id: Option<String>,
    title: Option<String>,
    keywords: Seq<(String, String)>,
    raw: Seq<char>,
    aliases: Option<String>,
) -> TraverserView {
    let with_node = match id {
        Some(i) => {
            let t = match title {
                Some(t) => t@,
                None => Seq::empty(),
            };
            let tags = filetags(pair_views(keywords));
            let node = NodeView {
                uuid: i@,
                title: t,
                content: raw,
                level: 0,
                parent: None,
                olp: Seq::empty(),
                actual_olp: Seq::empty(),
                tags,
                aliases: match aliases {
                    Some(a) => aliases_of(a@),
                    None => Seq::empty(),
                },
                links: Seq::empty(),
            };
            TraverserView {
                nodes: st.nodes.push(node),
                tags_stack: st.tags_stack.push(tags),
                id_stack: st.id_stack.push((t, i@)),
                ..st
            }
        },
        None => st,
    };
    match title {
        Some(t) => TraverserView { actual_olp: with_node.actual_olp.push(t@), ..with_node },
        None => with_node,
    }
}

/// A headline starts.
pub open spec fn headline_enter(
    st: TraverserView,
    id: Option<String>,
    aliases: Option<String>,
    tags: Seq<String>,
    title_raw: Seq<char>,
    level: usize,
    section: Option<String>,
    subheadlines: Seq<String>,
) -> TraverserView {
    let with_node = match id {
        Some(i) => {
            let t = trim_spec(title_raw);
            let own = nonblank(views(tags));
            let tags_stack = st.tags_stack.push(own);
            let node = NodeView {
                uuid: i@,
                title: t,
                content: match section {
                    Some(s) => s@,
                    None => Seq::empty(),
                } + concat(views(subheadlines)),
                level: level as u64,
                parent: if st.id_stack.len() > 0 {
                    Some(st.id_stack.last().1)
                } else {
                    None
                },
                olp: st.olp,
                actual_olp: st.actual_olp,
                tags: inherited_tags(tags_stack),
                aliases: match aliases {
                    Some(a) => aliases_of(a@),
                    None => Seq::empty(),
                },
                links: Seq::empty(),
            };
            TraverserView {
                nodes: st.nodes.push(node),
                tags_stack,
                id_stack: st.id_stack.push((t, i@)),
                ..st
            }
        },
        None => st,
    };
    TraverserView {
        olp: with_node.olp.push(title_raw),
        actual_olp: with_node.actual_olp.push(title_raw),
        ..with_node
    }
}

/// A headline ends.
pub open spec fn headline_leave(st: TraverserView, id: Option<String>) -> TraverserView {
    let popped = TraverserView { olp: pop_last(st.olp), actual_olp: pop_last(st.actual_olp), ..st };
    match id {
        Some(i) => if popped.id_stack.len() > 0 && popped.id_stack.last().1 == i@ {
            TraverserView {
                id_stack: popped.id_stack.drop_last(),
                tags_stack: pop_last(popped.tags_stack),
                ..popped
            }
        } else {
            popped
        },
        None => popped,
    }
}

/// A link starts: an `id:` link is added to the last node whose title is
/// that of the innermost node around the link.
pub open spec fn link_enter(st: TraverserView, path: Seq<char>, description: Seq<String>) -> TraverserView {
    match parse_link_spec(path, views(description)) {
        Some(link) => if st.id_stack.len() == 0 {
            st
        } else {
            match last_titled(st.nodes, trim_spec(st.id_stack.last().0)) {
                Some(k) => TraverserView {
                    nodes: st.nodes.update(
                        k,
                        NodeView { links: st.nodes[k].links.push(link), ..st.nodes[k] },
                    ),
                    ..st
                },
                None => st,
            }
        },
        None => st,
    }
}

/// What one event does to the gatherer.
pub open spec fn node_step(st: TraverserView, ev: NodeEvent) -> TraverserView {
    match ev {
        NodeEvent::DocumentEnter { id, title, keywords, raw, aliases } => document_enter(
            st,
            id,
            title,
            keywords@,
            raw@,
            aliases,
        ),
        NodeEvent::DocumentLeave => TraverserView {
            id_stack: pop_last(st.id_stack),
            tags_stack: pop_last(st.tags_stack),
            olp: pop_last(st.olp),
            ..st
        },
        NodeEvent::HeadlineEnter { id, aliases, tags, title_raw, level, section, subheadlines } =>
            headline_enter(st, id, aliases, tags@, title_raw@, level, section, subheadlines@),
        NodeEvent::HeadlineLeave { id } => headline_leave(st, id),
        NodeEvent::LinkEnter { path, description } => link_enter(st, path@, description@),
    }
}

/// The state after all events from index `i` on.
pub open spec fn node_replay(st: TraverserView, evs: Seq<NodeEvent>, i: int) -> TraverserView
    decreases evs.len() - i,
{
    if i < 0 || i >= evs.len() {
        st
    } else {
        node_replay(node_step(st, evs[i]), evs, i + 1)
    }
}

/// The gatherer's state before any event.
pub open spec fn empty_traverser() -> TraverserView {
    TraverserView {
        nodes: Seq::empty(),
        id_stack: Seq::empty(),
        tags_stack: Seq::empty(),
        olp: Seq::empty(),
        actual_olp: Seq::empty(),
    }
}

/// A copy of a vector of strings.
pub fn copy_strings(v: &Vec<String>) -> (r: Vec<String>)
    ensures
        views(r@) == views(v@),
{
    let mut r: Vec<String> = Vec::new();
    let mut i: usize = 0;
    while i < v.len()
        invariant
            0 <= i <= v@.len(),
            views(r@) == views(v@).take(i as int),
        decreases v@.len() - i,
    {
        let s = v[i].clone();
        let ghost before = r@;
        r.push(s);
        assert(views(r@) =~= views(before).push(s@));
        assert(views(v@).take(i + 1) =~= views(v@).take(i as int).push(v@[i as int]@));
        i = i + 1;
    }
    assert(views(v@).take(v@.len() as int) =~= views(v@));
    r
}

/// The pieces of `parts` that are not blank.
fn nonblank_exec(parts: &Vec<String>) -> (r: Vec<String>)
    ensures
        views(r@) == nonblank(views(parts@)),
{
    let mut r: Vec<String> = Vec::new();
    let mut i: usize = 0;
    while i < parts.len()
        invariant
            0 <= i <= parts@.len(),
            views(r@) == nonblank(views(parts@).take(i as int)),
        decreases parts@.len() - i,
    {
        let ghost pv = views(parts@).take(i + 1);
        assert(pv.drop_last() =~= views(parts@).take(i as int));
        assert(pv.last() == parts@[i as int]@);
        let c = to_chars(parts[i].as_str());
        let tr = trim_chars(c.as_slice());
        if tr.len() > 0 {
            let s = parts[i].clone();
            let ghost before = r@;
            r.push(s);
            assert(views(r@) =~= views(before).push(s@));
        }
        i = i + 1;
    }
    assert(views(parts@).take(parts@.len() as int) =~= views(parts@));
    r
}

/// The tags of the `filetags` keywords among `keywords` (see `filetags`).
pub fn get_tags_from_keywords(keywords: &Vec<(String, String)>) -> (r: Vec<String>)
    ensures
        views(r@) == filetags(pair_views(keywords@)),
{
    let mut r: Vec<String> = Vec::new();
    let mut i: usize = 0;
    while i < keywords.len()
        invariant
            0 <= i <= keywords@.len(),
            views(r@) == filetags(pair_views(keywords@).take(i as int)),
        decreases keywords@.len() - i,
    {
        let ghost kv = pair_views(keywords@).take(i + 1);
        assert(kv.drop_last() =~= pair_views(keywords@).take(i as int));
        let (k, v) = &keywords[i];
        let lk = to_lowercase(k.as_str());
        let lkc = to_chars(lk.as_str());
        let ft = to_chars("filetags");
        if chars_eq(lkc.as_slice(), ft.as_slice()) {
            let vc = to_chars(v.as_str());
            let pieces = split_chars(vc.as_slice(), ':');
            let kept = nonblank_exec(&pieces);
            let mut j: usize = 0;
            let ghost base = views(r@);
            while j < kept.len()
                invariant
                    0 <= j <= kept@.len(),
                    views(r@) == base + views(kept@).take(j as int),
                decreases kept@.len() - j,
            {
                let s = kept[j].clone();
                let ghost before = r@;
                r.push(s);
                assert(views(r@) =~= views(before).push(s@));
                assert(views(kept@).take(j + 1) =~= views(kept@).take(j as int).push(
                    kept@[j as int]@,
                ));
                j = j + 1;
            }
            assert(views(kept@).take(kept@.len() as int) =~= views(kept@));
        } else {
            assert(views(r@) =~= views(r@) + Seq::<Seq<char>>::empty());
        }
        i = i + 1;
    }
    assert(pair_views(keywords@).take(keywords@.len() as int) =~= pair_views(keywords@));
    r
}

/// The aliases of a `ROAM_ALIASES` value (see `aliases_of`).
pub fn parse_aliases(aliases: &str) -> (r: Vec<String>)
    ensures
        views(r@) == aliases_of(aliases@),
{
    let c = to_chars(aliases);
    let pieces = split_chars(c.as_slice(), ' ');
    let mut r: Vec<String> = Vec::new();
    let mut i: usize = 0;
    while i < pieces.len()
        invariant
            0 <= i <= pieces@.len(),
            views(pieces@) == split_spec(aliases@, ' '),
            c@ == aliases@,
            views(r@) == views(pieces@).take(i as int).map_values(|p: Seq<char>| trim_spec(p)),
        decreases pieces@.len() - i,
    {
        let pc = to_chars(pieces[i].as_str());
        let tr = trim_chars(pc.as_slice());
        let s = string_of(tr.as_slice());
        let ghost before = r@;
        r.push(s);
        assert(views(r@) =~= views(before).push(s@));
        assert(views(pieces@).take(i + 1).map_values(|p: Seq<char>| trim_spec(p)) =~= views(
            pieces@,
        ).take(i as int).map_values(|p: Seq<char>| trim_spec(p)).push(trim_spec(pieces@[i as int]@)));
        i = i + 1;
    }
    assert(views(pieces@).take(pieces@.len() as int) =~= views(pieces@));
    r
}

/// The concatenation of `parts`.
pub fn concat_strings(parts: &Vec<String>) -> (r: String)
    ensures
        r@ == concat(views(parts@)),
{
    let mut r = String::new();
    let mut i: usize = 0;
    while i < parts.len()
        invariant
            0 <= i <= parts@.len(),
            r@ == concat(views(parts@).take(i as int)),
        decreases parts@.len() - i,
    {
        assert(views(parts@).take(i + 1).drop_last() =~= views(parts@).take(i as int));
        r.append(parts[i].as_str());
        i = i + 1;
    }
    assert(views(parts@).take(parts@.len() as int) =~= views(parts@));
    r
}

/// The target id and description of an `id:` link (see `parse_link_spec`).
pub fn parse_link(path: &str, description: &Vec<String>) -> (r: Option<(String, String)>)
    ensures
        match r {
            Some((id, d)) => parse_link_spec(path@, views(description@)) == Some((id@, d@)),
            None => parse_link_spec(path@, views(description@)) is None,
        },
{
    let pc = to_chars(path);
    let colon = to_chars(":");
    match find(pc.as_slice(), colon.as_slice()) {
        Some(i) => {
            proof {
                reveal_strlit(":");
                assert(occurs_at(pc@, ":"@, i as int));
            }
            assert(i + 1 <= pc.len());
            let head = string_range(pc.as_slice(), 0, i);
            assert(pc@.subrange(0, i as int) == pc@.take(i as int));
            let lower = to_lowercase(head.as_str());
            let lc = to_chars(lower.as_str());
            let idc = to_chars("id");
            if chars_eq(lc.as_slice(), idc.as_slice()) {
                let id = string_range(pc.as_slice(), i + 1, pc.len());
                assert(pc@.subrange(i + 1, pc@.len() as int) == pc@.skip(i + 1));
                let d = concat_strings(description);
                Some((id, d))
            } else {
                None
            }
        },
        None => None,
    }
}

/// The values of the `latex_header` keywords among a document's keywords,
/// trimmed.
pub fn get_latex_header_from_document(keywords: &Vec<(String, String)>) -> (r: Vec<String>)
    ensures
        views(r@) == latex_headers(pair_views(keywords@)),
{
    let mut r: Vec<String> = Vec::new();
    let mut i: usize = 0;
    while i < keywords.len()
        invariant
            0 <= i <= keywords@.len(),
            views(r@) == latex_headers(pair_views(keywords@).take(i as int)),
        decreases keywords@.len() - i,
    {
        let ghost kv = pair_views(keywords@).take(i + 1);
        assert(kv.drop_last() =~= pair_views(keywords@).take(i as int));
        let (k, v) = &keywords[i];
        let lk = to_lowercase(k.as_str());
        let lkc = to_chars(lk.as_str());
        let lh = to_chars("latex_header");
        if chars_eq(lkc.as_slice(), lh.as_slice()) {
            let vc = to_chars(v.as_str());
            let tr = trim_chars(vc.as_slice());
            let s = string_of(tr.as_slice());
            let ghost before = r@;
            r.push(s);
            assert(views(r@) =~= views(before).push(s@));
        }
        i = i + 1;
    }
    assert(pair_views(keywords@).take(keywords@.len() as int) =~= pair_views(keywords@));
    r
}

/// The `(key, value)` pairs of the keywords in the zeroth section of an org
/// text (before the first headline), as orgize parses it.
pub uninterp spec fn document_keywords_of(text: Seq<char>) -> Seq<(Seq<char>, Seq<char>)>;

/// Parses `text` with orgize (`Org::parse`) and lists the key and raw value
/// of each keyword that `Org::keywords` yields (those of the zeroth section).
/// The result is named `document_keywords_of` of the text; nothing more is
/// claimed of it.
#[verifier::external_body]
fn document_keywords(text: &str) -> (r: Vec<(String, String)>)
    ensures
        pair_views(r@) == document_keywords_of(text@),
{
    orgize::Org::parse(text)
        .keywords()
        .map(|k| (k.key().to_string(), k.value().to_string()))
        .collect()
}

/// The trimmed values of the `latex_header` keywords of an org text's zeroth
/// section.
pub fn get_latex_header(content: &str) -> (r: Vec<String>)
    ensures
        views(r@) == latex_headers(document_keywords_of(content@)),
{
    let kws = document_keywords(content);
    get_latex_header_from_document(&kws)
}

/// The trimmed values of the keywords whose key is `latex_header` in any case.
pub open spec fn latex_headers(keywords: Seq<(Seq<char>, Seq<char>)>) -> Seq<Seq<char>>
    decreases keywords.len(),
{
    if keywords.len() == 0 {
        Seq::empty()
    } else {
        let (k, v) = keywords.last();
        if lowercase(k) == "latex_header"@ {
            latex_headers(keywords.drop_last()).push(trim_spec(v))
        } else {
            latex_headers(keywords.drop_last())
        }
    }
}

/// The tag stack's views.
pub open spec fn stack_views(stack: Seq<Vec<String>>) -> Seq<Seq<Seq<char>>> {
    stack.map_values(|v: Vec<String>| views(v@))
}

/// The gatherer.
pub struct RoamersTraverser {
    nodes: Vec<NodeFromOrg>,
    id_stack: Vec<(String, String)>,
    tags_stack: Vec<Vec<String>>,
    olp: Vec<String>,
    actual_olp: Vec<String>,
}

impl View for RoamersTraverser {
    type V = TraverserView;

    closed spec fn view(&self) -> TraverserView {
        TraverserView {
            nodes: self.nodes@.map_values(|n: NodeFromOrg| n@),
            id_stack: pair_views(self.id_stack@),
            tags_stack: stack_views(self.tags_stack@),
            olp: views(self.olp@),
            actual_olp: views(self.actual_olp@),
        }
    }
}

impl RoamersTraverser {
    /// Every node made so far is plain (see `NodeFromOrg::is_plain`).
    pub closed spec fn wf(&self) -> bool {
        forall|k: int| 0 <= k < self.nodes@.len() ==> (#[trigger] self.nodes@[k]).is_plain()
    }

    pub fn new() -> (r: RoamersTraverser)
        ensures
            r.wf(),
            r@ == empty_traverser(),
    {
        let r = RoamersTraverser {
            nodes: Vec::new(),
            id_stack: Vec::new(),
            tags_stack: Vec::new(),
            olp: Vec::new(),
            actual_olp: Vec::new(),
        };
        assert(r@ =~= empty_traverser());
        r
    }

    /// The outline path of the innermost headline (without the document).
    pub fn current_olp(&self) -> (r: Vec<String>)
        ensures
            views(r@) == self@.olp,
    {
        copy_strings(&self.olp)
    }

    /// The outline path including the document's title.
    pub fn current_actual_olp(&self) -> (r: Vec<String>)
        ensures
            views(r@) == self@.actual_olp,
    {
        copy_strings(&self.actual_olp)
    }

    /// Every tag on the stack, sorted, each once.
    pub fn get_tags(&self) -> (r: Vec<String>)
        ensures
            strictly_sorted(views(r@)),
            views(r@).to_set() == flatten(self@.tags_stack).to_set(),
            views(r@) == inherited_tags(self@.tags_stack),
    {
        let mut flat: Vec<String> = Vec::new();
        let mut i: usize = 0;
        while i < self.tags_stack.len()
            invariant
                0 <= i <= self.tags_stack@.len(),
                views(flat@) == flatten(stack_views(self.tags_stack@).take(i as int)),
            decreases self.tags_stack@.len() - i,
        {
            let ghost sv = stack_views(self.tags_stack@).take(i + 1);
            assert(sv.drop_last() =~= stack_views(self.tags_stack@).take(i as int));
            let level = &self.tags_stack[i];
            let mut j: usize = 0;
            let ghost base = views(flat@);
            while j < level.len()
                invariant
                    0 <= j <= level@.len(),
                    views(flat@) == base + views(level@).take(j as int),
                decreases level@.len() - j,
            {
                let s = level[j].clone();
                let ghost before = flat@;
                flat.push(s);
                assert(views(flat@) =~= views(before).push(s@));
                assert(views(level@).take(j + 1) =~= views(level@).take(j as int).push(
                    level@[j as int]@,
                ));
                j = j + 1;
            }
            assert(views(level@).take(level@.len() as int) =~= views(level@));
            i = i + 1;
        }
        assert(stack_views(self.tags_stack@).take(self.tags_stack@.len() as int) =~= stack_views(
            self.tags_stack@,
        ));
        let ghost all = views(flat@);
        let r = sort_dedup(flat);
        proof {
            lemma_sort_dedup_is_sorted_set(views(r@), all.to_set());
        }
        r
    }

    fn push_node(&mut self, node: NodeFromOrg)
        requires
            old(self).wf(),
            node.is_plain(),
        ensures
            final(self).wf(),
            final(self)@ == (TraverserView { nodes: old(self)@.nodes.push(node@), ..old(self)@ }),
    {
        let ghost before = self.nodes@;
        self.nodes.push(node);
        assert(self.nodes@.map_values(|n: NodeFromOrg| n@) =~= before.map_values(
            |n: NodeFromOrg| n@,
        ).push(node@));
        assert(self@ =~= TraverserView { nodes: old(self)@.nodes.push(node@), ..old(self)@ });
    }

    fn document_enter_ev(
        &mut self,
        id: &Option<String>,
        title: &Option<String>,
        keywords: &Vec<(String, String)>,
        raw: &String,
        aliases: &Option<String>,
    )
        requires
            old(self).wf(),
        ensures
            final(self).wf(),
            final(self)@ == document_enter(old(self)@, *id, *title, keywords@, raw@, *aliases),
    {
        match id {
            Some(i) => {
                let t = match title {
                    Some(t) => t.clone(),
                    None => String::new(),
                };
                let tags = get_tags_from_keywords(keywords);
                let al = match aliases {
                    Some(a) => parse_aliases(a.as_str()),
                    None => Vec::new(),
                };
                proof {
                    if aliases is None {
                        assert(views(al@) =~= Seq::<Seq<char>>::empty());
                    }
                }
                let node = NodeFromOrg {
                    uuid: i.clone(),
                    title: t.clone(),
                    content: raw.clone(),
                    level: 0,
                    parent: None,
                    olp: Vec::new(),
                    actual_olp: Vec::new(),
                    tags: copy_strings(&tags),
                    aliases: al,
                    timestamps: None,
                    links: Vec::new(),
                    refs: Vec::new(),
                    cites: Vec::new(),
                };
                assert(views(node.olp@) =~= Seq::<Seq<char>>::empty());
                assert(views(node.actual_olp@) =~= Seq::<Seq<char>>::empty());
                assert(pair_views(node.links@) =~= Seq::<(Seq<char>, Seq<char>)>::empty());
                self.push_node(node);
                let ghost ts = self.tags_stack@;
                self.tags_stack.push(tags);
                assert(stack_views(self.tags_stack@) =~= stack_views(ts).push(views(tags@)));
                let ghost ids = self.id_stack@;
                self.id_stack.push((t, i.clone()));
                assert(pair_views(self.id_stack@) =~= pair_views(ids).push((t@, i@)));
            },
            None => {},
        }
        match title {
            Some(t) => {
                let ghost a = self.actual_olp@;
                self.actual_olp.push(t.clone());
                assert(views(self.actual_olp@) =~= views(a).push(t@));
            },
            None => {},
        }
    }

    fn document_leave_ev(&mut self)
        requires
            old(self).wf(),
        ensures
            final(self).wf(),
            final(self)@ == node_step(old(self)@, NodeEvent::DocumentLeave),
    {
        let ghost ids = self.id_stack@;
        let ghost ts = self.tags_stack@;
        let ghost o = self.olp@;
        let _ = self.id_stack.pop();
        let _ = self.tags_stack.pop();
        let _ = self.olp.pop();
        assert(pair_views(self.id_stack@) =~= pop_last(pair_views(ids)));
        assert(stack_views(self.tags_stack@) =~= pop_last(stack_views(ts)));
        assert(views(self.olp@) =~= pop_last(views(o)));
    }

    #[verifier::rlimit(30)]
    fn headline_enter_ev(
        &mut self,
        id: &Option<String>,
        aliases: &Option<String>,
        tags: &Vec<String>,
        title_raw: &String,
        level: usize,
        section: &Option<String>,
        subheadlines: &Vec<String>,
    )
        requires
            old(self).wf(),
        ensures
            final(self).wf(),
            final(self)@ == headline_enter(
                old(self)@,
                *id,
                *aliases,
                tags@,
                title_raw@,
                level,
                *section,
                subheadlines@,
            ),
    {
        match id {
            Some(i) => {
                let parent = if self.id_stack.len() > 0 {
                    Some(self.id_stack[self.id_stack.len() - 1].1.clone())
                } else {
                    None
                };
                let al = match aliases {
                    Some(a) => parse_aliases(a.as_str()),
                    None => Vec::new(),
                };
                proof {
                    if aliases is None {
                        assert(views(al@) =~= Seq::<Seq<char>>::empty());
                    }
                }
                let own = nonblank_exec(tags);
                let tc = to_chars(title_raw.as_str());
                let tt = trim_chars(tc.as_slice());
                let title = string_of(tt.as_slice());
                let olp = copy_strings(&self.olp);
                let actual_olp = copy_strings(&self.actual_olp);
                let ghost ids = self.id_stack@;
                self.id_stack.push((title.clone(), i.clone()));
                assert(pair_views(self.id_stack@) =~= pair_views(ids).push((title@, i@)));
                let mut content = match section {
                    Some(s) => s.clone(),
                    None => String::new(),
                };
                let subs = concat_strings(subheadlines);
                content.append(subs.as_str());
                let ghost ts = self.tags_stack@;
                self.tags_stack.push(own);
                assert(stack_views(self.tags_stack@) =~= stack_views(ts).push(views(own@)));
                let inherited = self.get_tags();
                let node = NodeFromOrg {
                    uuid: i.clone(),
                    title,
                    content,
                    level: level as u64,
                    parent,
                    olp,
                    actual_olp,
                    tags: inherited,
                    aliases: al,
                    timestamps: None,
                    links: Vec::new(),
                    refs: Vec::new(),
                    cites: Vec::new(),
                };
                assert(pair_views(node.links@) =~= Seq::<(Seq<char>, Seq<char>)>::empty());
                self.push_node(node);
            },
            None => {},
        }
        let ghost o = self.olp@;
        let ghost a = self.actual_olp@;
        self.olp.push(title_raw.clone());
        self.actual_olp.push(title_raw.clone());
        assert(views(self.olp@) =~= views(o).push(title_raw@));
        assert(views(self.actual_olp@) =~= views(a).push(title_raw@));
    }

    fn headline_leave_ev(&mut self, id: &Option<String>)
        requires
            old(self).wf(),
        ensures
            final(self).wf(),
            final(self)@ == headline_leave(old(self)@, *id),
    {
        let ghost o = self.olp@;
        let ghost a = self.actual_olp@;
        let _ = self.olp.pop();
        let _ = self.actual_olp.pop();
        assert(views(self.olp@) =~= pop_last(views(o)));
        assert(views(self.actual_olp@) =~= pop_last(views(a)));
        match id {
            Some(i) => {
                let n = self.id_stack.len();
                if n > 0 && crate::text::str_eq(self.id_stack[n - 1].1.as_str(), i.as_str()) {
                    let ghost ids = self.id_stack@;
                    let ghost ts = self.tags_stack@;
                    let _ = self.id_stack.pop();
                    let _ = self.tags_stack.pop();
                    assert(pair_views(self.id_stack@) =~= pair_views(ids).drop_last());
                    assert(stack_views(self.tags_stack@) =~= pop_last(stack_views(ts)));
                }
            },
            None => {},
        }
    }

    fn find_last_titled(&self, title: &[char]) -> (r: Option<usize>)
        ensures
            match r {
                Some(k) => k < self@.nodes.len() && last_titled(self@.nodes, title@) == Some(
                    k as int,
                ),
                None => last_titled(self@.nodes, title@) is None,
            },
    {
        let ghost nodes = self@.nodes;
        let mut k = self.nodes.len();
        while k > 0
            invariant
                0 <= k <= nodes.len(),
                nodes == self@.nodes,
                forall|j: int| k <= j < nodes.len() ==> #[trigger] nodes[j].title != title@,
            decreases k,
        {
            let tc = to_chars(self.nodes[k - 1].title.as_str());
            if chars_eq(tc.as_slice(), title) {
                proof {
                    assert(nodes[k - 1].title == title@);
                    let w = choose|w: int|
                        0 <= w < nodes.len() && nodes[w].title == title@ && forall|j: int|
                            w < j < nodes.len() ==> #[trigger] nodes[j].title != title@;
                    if w < k - 1 {
                        assert(nodes[k - 1].title != title@);
                    }
                    if w > k - 1 {
                        assert(nodes[w].title != title@);
                    }
                }
                return Some(k - 1);
            }
            k = k - 1;
        }
        None
    }

    fn link_enter_ev(&mut self, path: &String, description: &Vec<String>)
        requires
            old(self).wf(),
        ensures
            final(self).wf(),
            final(self)@ == link_enter(old(self)@, path@, description@),
    {
        match parse_link(path.as_str(), description) {
            Some((lid, d)) => {
                let n = self.id_stack.len();
                if n == 0 {
                    return ;
                }
                let pc = to_chars(self.id_stack[n - 1].0.as_str());
                let pt = trim_chars(pc.as_slice());
                match self.find_last_titled(pt.as_slice()) {
                    Some(k) => {
                        let ghost before = self.nodes@;
                        let mut node = self.nodes.remove(k);
                        let ghost links0 = node.links@;
                        node.links.push((lid, d));
                        assert(pair_views(node.links@) =~= pair_views(links0).push((lid@, d@)));
                        self.nodes.insert(k, node);
                        assert(self.nodes@ =~= before.update(k as int, node));
                        assert(self.nodes@.map_values(|n: NodeFromOrg| n@) =~= before.map_values(
                            |n: NodeFromOrg| n@,
                        ).update(k as int, node@));
                        assert(self@ =~= link_enter(old(self)@, path@, description@));
                    },
                    None => {},
                }
            },
            None => {},
        }
    }

    /// Handles one event.
    pub fn event(&mut self, ev: &NodeEvent)
        requires
            old(self).wf(),
        ensures
            final(self).wf(),
            final(self)@ == node_step(old(self)@, *ev),
    {
        match ev {
            NodeEvent::DocumentEnter { id, title, keywords, raw, aliases } => {
                self.document_enter_ev(id, title, keywords, raw, aliases)
            },
            NodeEvent::DocumentLeave => self.document_leave_ev(),
            NodeEvent::HeadlineEnter {
                id,
                aliases,
                tags,
                title_raw,
                level,
                section,
                subheadlines,
            } => self.headline_enter_ev(id, aliases, tags, title_raw, *level, section, subheadlines),
            NodeEvent::HeadlineLeave { id } => self.headline_leave_ev(id),
            NodeEvent::LinkEnter { path, description } => self.link_enter_ev(path, description),
        }
    }

    /// The nodes gathered, in the order they were found.
    pub fn into_nodes(self) -> (r: Vec<NodeFromOrg>)
        requires
            self.wf(),
        ensures
            r@.map_values(|n: NodeFromOrg| n@) == self@.nodes,
            forall|k: int| 0 <= k < r@.len() ==> (#[trigger] r@[k]).is_plain(),
    {
        self.nodes
    }
}

/// The nodes of a document, from the events of a walk over it.
pub fn get_nodes(evs: &[NodeEvent]) -> (r: Vec<NodeFromOrg>)
    ensures
        r@.map_values(|n: NodeFromOrg| n@) == node_replay(empty_traverser(), evs@, 0).nodes,
        forall|k: int| 0 <= k < r@.len() ==> (#[trigger] r@[k]).is_plain(),
{
    let mut traverser = RoamersTraverser::new();
    let mut i: usize = 0;
    while i < evs.len()
        invariant
            0 <= i <= evs@.len(),
            traverser.wf(),
            node_replay(empty_traverser(), evs@, 0) == node_replay(traverser@, evs@, i as int),
        decreases evs@.len() - i,
    {
        traverser.event(&evs[i]);
        i = i + 1;
    }
    traverser.into_nodes()
}

impl RoamNode {
    /// The graph node of a gathered node: its title and id parsed as raw
    /// values, its parent (empty when it has none) and its number of links.
    pub fn from_node(n: &NodeFromOrg) -> (r: RoamNode)
        ensures
            r.title@ == crate::types::title_of(n.title@),
            r.id@ == crate::types::id_of(n.uuid@),
            r.parent@ == match n.parent {
                Some(p) => crate::types::id_of(p@),
                None => Seq::<char>::empty(),
            },
            r.num_links == n.links@.len(),
    {
        RoamNode {
            title: RoamTitle::from_text(n.title.as_str()),
            id: RoamID::from_text(n.uuid.as_str()),
            parent: match &n.parent {
                Some(p) => RoamID::from_text(p.as_str()),
                None => {
                    proof {
                        reveal_strlit("");
                    }
                    RoamID::from_text("")
                },
            },
            num_links: n.links.len(),
        }
    }
}

impl From<NodeFromOrg> for RoamNode {
    fn from(value: NodeFromOrg) -> (r: RoamNode)
        ensures
            r.title@ == crate::types::title_of(value.title@),
            r.id@ == crate::types::id_of(value.uuid@),
            r.parent@ == match value.parent {
                Some(p) => crate::types::id_of(p@),
                None => Seq::<char>::empty(),
            },
            r.num_links == value.links@.len(),
    {
        RoamNode::from_node(&value)
    }
}

impl vstd::std_specs::convert::FromSpecImpl<NodeFromOrg> for RoamNode {
    open spec fn obeys_from_spec() -> bool {
        false
    }

    open spec fn from_spec(v: NodeFromOrg) -> RoamNode {
        choose|r: RoamNode|
            r.title@ == crate::types::title_of(v.title@) && r.id@ == crate::types::id_of(v.uuid@)
                && r.parent@ == match v.parent {
                Some(p) => crate::types::id_of(p@),
                None => Seq::<char>::empty(),
            } && r.num_links == v.links@.len()
    }
}

/// Leaving a headline undoes what entering it did to the walk's stacks:
/// the outline paths, the id stack and the tag stack are as before, and the
/// headline left one node behind when it has an id, none otherwise.
pub proof fn lemma_headline_enter_leave(
    st: TraverserView,
    id: Option<String>,
    aliases: Option<String>,
    tags: Seq<String>,
    title_raw: Seq<char>,
    level: usize,
    section: Option<String>,
    subheadlines: Seq<String>,
)
    ensures
        ({
            let after = headline_leave(
                headline_enter(st, id, aliases, tags, title_raw, level, section, subheadlines),
                id,
            );
            &&& after.olp == st.olp
            &&& after.actual_olp == st.actual_olp
            &&& after.id_stack == st.id_stack
            &&& after.tags_stack == st.tags_stack
            &&& after.nodes.len() == st.nodes.len() + if id is Some {
                1int
            } else {
                0int
            }
        }),
{
    let entered = headline_enter(st, id, aliases, tags, title_raw, level, section, subheadlines);
    assert(entered.olp.drop_last() =~= st.olp);
    assert(entered.actual_olp.drop_last() =~= st.actual_olp);
    if id is Some {
        assert(entered.id_stack.drop_last() =~= st.id_stack);
        assert(entered.tags_stack.drop_last() =~= st.tags_stack);
    }
}

/// Where some node has a title, a last one has it.
proof fn lemma_last_titled_exists(nodes: Seq<NodeView>, title: Seq<char>, j: int)
    requires
        0 <= j < nodes.len(),
        nodes[j].title == title,
    ensures
        exists|k: int|
            0 <= k < nodes.len() && nodes[k].title == title && forall|i: int|
                k < i < nodes.len() ==> #[trigger] nodes[i].title != title,
    decreases nodes.len() - j,
{
    if exists|i: int| j < i < nodes.len() && #[trigger] nodes[i].title == title {
        let i = choose|i: int| j < i < nodes.len() && #[trigger] nodes[i].title == title;
        lemma_last_titled_exists(nodes, title, i);
    } else {
        assert(forall|i: int| j < i < nodes.len() ==> #[trigger] nodes[i].title != title);
    }
}

/// Every id link met inside a node is added to that node's links, after
/// the links it already has, however many: the node whose title is the
/// innermost open id gains exactly the parsed (target, description), and
/// no other node changes.
pub proof fn lemma_id_link_appended(
    st: TraverserView,
    path: String,
    description: Vec<String>,
    link: (Seq<char>, Seq<char>),
    j: int,
)
    requires
        parse_link_spec(path@, views(description@)) == Some(link),
        st.id_stack.len() > 0,
        0 <= j < st.nodes.len(),
        st.nodes[j].title == trim_spec(st.id_stack.last().0),
    ensures
        ({
            let n = node_step(st, NodeEvent::LinkEnter { path, description });
            let k = last_titled(st.nodes, trim_spec(st.id_stack.last().0))->0;
            &&& 0 <= k < st.nodes.len()
            &&& n.nodes.len() == st.nodes.len()
            &&& n.nodes[k].links == st.nodes[k].links.push(link)
            &&& n.nodes[k].links.len() == st.nodes[k].links.len() + 1
            &&& n.nodes[k].links.last() == link
            &&& n.nodes[k].uuid == st.nodes[k].uuid
            &&& forall|i: int| 0 <= i < st.nodes.len() && i != k ==> n.nodes[i] == st.nodes[i]
        }),
{
    lemma_last_titled_exists(st.nodes, trim_spec(st.id_stack.last().0), j);
}

} // verus!

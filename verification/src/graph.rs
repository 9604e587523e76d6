//! The graph of the notes: which nodes a request selects (by the tags it
//! includes and excludes), and how the graph is put together from the
//! selected nodes and the `id` links between them.
//!
//! The database is not reached from here: `node_query` gives the SQL text
//! and its bindings, and `assemble_graph` builds the answer from the rows
//! that the queries returned.
use vstd::prelude::*;

use crate::text::{
    push_str, split_chars, split_spec, str_eq, to_chars, trim_spec, trim_str, views,
};
use crate::types::{id_of, title_of, GraphData, RoamID, RoamLink, RoamNode, RoamTitle};

verus! {

/// The query string of a graph request: tags to include and tags to
/// exclude, each a comma separated list.
#[derive(Clone, Debug, PartialEq)]
pub struct GraphParams {
    pub tags: Option<String>,
    pub exclude: Option<String>,
}

/// The tags of a comma separated list: every piece, trimmed.
pub open spec fn tag_list(s: Seq<char>) -> Seq<Seq<char>> {
    split_spec(s, ',').map_values(|t: Seq<char>| trim_spec(t))
}

/// The tags of an optional list.
pub open spec fn opt_tag_list(s: Option<String>) -> Option<Seq<Seq<char>>> {
    match s {
        Some(t) => Some(tag_list(t@)),
        None => None,
    }
}

/// The views of an optional list of strings.
pub open spec fn opt_views(v: Option<Vec<String>>) -> Option<Seq<Seq<char>>> {
    match v {
        Some(l) => Some(views(l@)),
        None => None,
    }
}

/// Splits a comma separated list and trims every piece.
pub fn tags_of(s: &str) -> (r: Vec<String>)
    ensures
        views(r@) == tag_list(s@),
{
    let c = to_chars(s);
    let pieces = split_chars(c.as_slice(), ',');
    let mut r: Vec<String> = Vec::new();
    let mut i: usize = 0;
    while i < pieces.len()
        invariant
            0 <= i <= pieces@.len(),
            views(pieces@) == split_spec(s@, ','),
            views(r@) == tag_list(s@).take(i as int),
        decreases pieces@.len() - i,
    {
        let t = trim_str(pieces[i].as_str());
        assert(views(pieces@)[i as int] == pieces@[i as int]@);
        assert(tag_list(s@)[i as int] == trim_spec(pieces@[i as int]@));
        let ghost before = r@;
        r.push(t);
        assert(views(r@) =~= views(before).push(t@));
        assert(tag_list(s@).take(i + 1) =~= tag_list(s@).take(i as int).push(t@));
        i = i + 1;
        assert(views(r@) =~= tag_list(s@).take(i as int));
    }
    assert(tag_list(s@).take(i as int) =~= tag_list(s@));
    r
}

impl GraphParams {
    /// The tags to include and the tags to exclude; each is absent when its
    /// list was not given.
    pub fn parse_tags(&self) -> (r: (Option<Vec<String>>, Option<Vec<String>>))
        ensures
            opt_views(r.0) == opt_tag_list(self.tags),
            opt_views(r.1) == opt_tag_list(self.exclude),
    {
        let filter_tags = match &self.tags {
            Some(s) => Some(tags_of(s.as_str())),
            None => None,
        };
        let exclude_tags = match &self.exclude {
            Some(s) => Some(tags_of(s.as_str())),
            None => None,
        };
        (filter_tags, exclude_tags)
    }
}

/// `n` placeholders `?` separated by commas.
pub open spec fn placeholders(n: nat) -> Seq<char>
    decreases n,
{
    if n == 0 {
        Seq::empty()
    } else if n == 1 {
        seq!['?']
    } else {
        placeholders((n - 1) as nat) + seq![',', '?']
    }
}

/// Every node.
pub open spec fn all_nodes_sql() -> Seq<char> {
    "SELECT id, title FROM nodes;"@
}

/// The nodes that carry none of `n` tags.
pub open spec fn excluding_sql(n: nat) -> Seq<char> {
    "SELECT DISTINCT n.id, n.title FROM nodes n"@ + " WHERE n.id NOT IN (SELECT node_id FROM tags WHERE tag IN ("@
        + placeholders(n) + "))"@
}

/// The nodes that carry one of `n` tags.
pub open spec fn including_sql(n: nat) -> Seq<char> {
    "SELECT DISTINCT n.id, n.title FROM nodes n"@ + " INNER JOIN tags t ON n.id = t.node_id WHERE t.tag IN ("@
        + placeholders(n) + ")"@
}

/// The nodes that carry one of `i` tags and none of `e` tags.
pub open spec fn both_sql(i: nat, e: nat) -> Seq<char> {
    including_sql(i) + " AND n.id NOT IN (SELECT node_id FROM tags WHERE tag IN ("@ + placeholders(e)
        + "))"@
}

/// The query that selects the nodes of a graph request, and its bindings.
/// An empty or absent include list includes every node; an exclude list
/// counts only when it is not empty, and an include list given together
/// with an empty exclude list is not used.
pub open spec fn node_query_spec(
    incl: Option<Seq<Seq<char>>>,
    excl: Option<Seq<Seq<char>>>,
) -> (Seq<char>, Seq<Seq<char>>) {
    match (incl, excl) {
        (None, None) => (all_nodes_sql(), Seq::empty()),
        (Some(i), None) => if i.len() == 0 {
            (all_nodes_sql(), Seq::empty())
        } else {
            (including_sql(i.len()), i)
        },
        (None, Some(e)) => if e.len() == 0 {
            (all_nodes_sql(), Seq::empty())
        } else {
            (excluding_sql(e.len()), e)
        },
        (Some(i), Some(e)) => if e.len() == 0 {
            (all_nodes_sql(), Seq::empty())
        } else if i.len() == 0 {
            (excluding_sql(e.len()), e)
        } else {
            (both_sql(i.len(), e.len()), i + e)
        },
    }
}

/// Appends `n` placeholders.
fn push_placeholders(s: &mut String, n: usize)
    ensures
        final(s)@ == old(s)@ + placeholders(n as nat),
{
    proof {
        reveal_strlit("?");
        reveal_strlit(",?");
    }
    let ghost start = s@;
    let mut i: usize = 0;
    while i < n
        invariant
            0 <= i <= n,
            s@ == start + placeholders(i as nat),
        decreases n - i,
    {
        if i == 0 {
            push_str(s, "?");
            proof {
                reveal_strlit("?");
            }
            assert(placeholders(1) == seq!['?']);
            assert("?"@ =~= seq!['?']);
        } else {
            push_str(s, ",?");
            proof {
                reveal_strlit(",?");
            }
            assert(placeholders((i + 1) as nat) == placeholders(i as nat) + seq![',', '?']);
            assert(",?"@ =~= seq![',', '?']);
        }
        i = i + 1;
        assert(s@ =~= start + placeholders(i as nat));
    }
}

/// Appends a copy of every string of `v` to `r`.
fn extend_copies(r: &mut Vec<String>, v: &Vec<String>)
    ensures
        views(final(r)@) == views(old(r)@) + views(v@),
{
    let ghost start = views(r@);
    let mut i: usize = 0;
    while i < v.len()
        invariant
            0 <= i <= v@.len(),
            views(r@) == start + views(v@).take(i as int),
        decreases v@.len() - i,
    {
        let c = v[i].clone();
        let ghost before = r@;
        r.push(c);
        assert(views(r@) =~= views(before).push(c@));
        assert(views(v@).take(i + 1) =~= views(v@).take(i as int).push(v@[i as int]@));
        i = i + 1;
        assert(views(r@) =~= start + views(v@).take(i as int));
    }
    assert(views(v@).take(i as int) =~= views(v@));
}

/// The SQL text that selects the nodes of a graph request, and the tags to
/// bind to its placeholders, in order (see `node_query_spec`).
pub fn node_query(
    filter_tags: &Option<Vec<String>>,
    exclude_tags: &Option<Vec<String>>,
) -> (r: (String, Vec<String>))
    ensures
        (r.0@, views(r.1@)) == node_query_spec(opt_views(*filter_tags), opt_views(*exclude_tags)),
{
    let excl_count: usize = match exclude_tags {
        Some(e) => e.len(),
        None => 0,
    };
    let incl_count: usize = match filter_tags {
        Some(i) => i.len(),
        None => 0,
    };
    let mut q = String::new();
    let mut b: Vec<String> = Vec::new();
    if excl_count == 0 || (exclude_tags.is_none()) {
        if incl_count == 0 || exclude_tags.is_some() {
            push_str(&mut q, "SELECT id, title FROM nodes;");
            assert(views(b@) =~= Seq::<Seq<char>>::empty());
        } else {
            push_str(&mut q, "SELECT DISTINCT n.id, n.title FROM nodes n");
            push_str(&mut q, " INNER JOIN tags t ON n.id = t.node_id WHERE t.tag IN (");
            push_placeholders(&mut q, incl_count);
            push_str(&mut q, ")");
            if let Some(i) = filter_tags {
                b = crate::org::copy_strings(i);
            }
        }
    } else {
        push_str(&mut q, "SELECT DISTINCT n.id, n.title FROM nodes n");
        if incl_count == 0 {
            push_str(&mut q, " WHERE n.id NOT IN (SELECT node_id FROM tags WHERE tag IN (");
            push_placeholders(&mut q, excl_count);
            push_str(&mut q, "))");
            if let Some(e) = exclude_tags {
                b = crate::org::copy_strings(e);
            }
        } else {
            push_str(&mut q, " INNER JOIN tags t ON n.id = t.node_id WHERE t.tag IN (");
            push_placeholders(&mut q, incl_count);
            push_str(&mut q, ")");
            push_str(&mut q, " AND n.id NOT IN (SELECT node_id FROM tags WHERE tag IN (");
            push_placeholders(&mut q, excl_count);
            push_str(&mut q, "))");
            if let Some(i) = filter_tags {
                b = crate::org::copy_strings(i);
            }
            if let Some(e) = exclude_tags {
                extend_copies(&mut b, e);
            }
        }
    }
    (q, b)
}

/// A selected node as the database gives it: its id, its title and the id
/// of its parent (empty when it has none).
#[derive(Clone, Debug, PartialEq)]
pub struct NodeRow {
    pub id: String,
    pub title: String,
    pub parent_id: String,
}

/// An `id` link as the database gives it.
#[derive(Clone, Debug, PartialEq)]
pub struct LinkRow {
    pub source: String,
    pub dest: String,
}

/// The views of the link rows.
pub open spec fn link_views(links: Seq<LinkRow>) -> Seq<(Seq<char>, Seq<char>)> {
    links.map_values(|l: LinkRow| (l.source@, l.dest@))
}

/// The number of links that leave or reach `id`.
pub open spec fn count_touching(links: Seq<(Seq<char>, Seq<char>)>, id: Seq<char>) -> nat
    decreases links.len(),
{
    if links.len() == 0 {
        0
    } else {
        count_touching(links.drop_last(), id) + if links.last().0 == id || links.last().1 == id {
            1nat
        } else {
            0nat
        }
    }
}

/// The ids of the selected nodes.
pub open spec fn row_ids(rows: Seq<NodeRow>) -> Seq<Seq<char>> {
    rows.map_values(|r: NodeRow| id_of(r.id@))
}

/// The links whose two ends are selected nodes, ends parsed as ids.
pub open spec fn kept_links(
    links: Seq<(Seq<char>, Seq<char>)>,
    ids: Seq<Seq<char>>,
) -> Seq<(Seq<char>, Seq<char>)>
    decreases links.len(),
{
    if links.len() == 0 {
        Seq::empty()
    } else {
        let (s, d) = links.last();
        kept_links(links.drop_last(), ids) + if ids.contains(s) && ids.contains(d) {
            seq![(id_of(s), id_of(d))]
        } else {
            Seq::empty()
        }
    }
}

/// A link from each node that has a parent to the node, parent first.
pub open spec fn parent_links(rows: Seq<NodeRow>) -> Seq<(Seq<char>, Seq<char>)>
    decreases rows.len(),
{
    if rows.len() == 0 {
        Seq::empty()
    } else {
        let r = rows.last();
        parent_links(rows.drop_last()) + if id_of(r.parent_id@).len() > 0 {
            seq![(id_of(r.parent_id@), id_of(r.id@))]
        } else {
            Seq::empty()
        }
    }
}

/// The views of the graph's links.
pub open spec fn roam_link_views(links: Seq<RoamLink>) -> Seq<(Seq<char>, Seq<char>)> {
    links.map_values(|l: RoamLink| (l.from@, l.to@))
}

/// Counts the links that leave or reach `id`.
fn count_links(links: &Vec<LinkRow>, id: &str) -> (r: usize)
    ensures
        r == count_touching(link_views(links@), id@),
{
    let mut n: usize = 0;
    let mut i: usize = 0;
    while i < links.len()
        invariant
            0 <= i <= links@.len(),
            n == count_touching(link_views(links@).take(i as int), id@),
            n <= i,
        decreases links@.len() - i,
    {
        let ghost t = link_views(links@).take(i + 1);
        assert(t.drop_last() =~= link_views(links@).take(i as int));
        if str_eq(links[i].source.as_str(), id) || str_eq(links[i].dest.as_str(), id) {
            n = n + 1;
        }
        i = i + 1;
    }
    assert(link_views(links@).take(i as int) =~= link_views(links@));
    n
}

/// Whether `s` is one of `ids`.
fn contains_str(ids: &Vec<String>, s: &str) -> (r: bool)
    ensures
        r == views(ids@).contains(s@),
{
    let mut i: usize = 0;
    while i < ids.len()
        invariant
            0 <= i <= ids@.len(),
            forall|j: int| 0 <= j < i ==> views(ids@)[j] != s@,
        decreases ids@.len() - i,
    {
        if str_eq(ids[i].as_str(), s) {
            assert(views(ids@)[i as int] == s@);
            return true;
        }
        i = i + 1;
    }
    false
}

/// The graph of the selected nodes: each node with its title, id, parent and
/// the number of `id` links that touch it; the links between selected nodes,
/// in the order of `links`, then a link from each parent to its child.
pub fn assemble_graph(rows: &Vec<NodeRow>, links: &Vec<LinkRow>) -> (r: GraphData)
    ensures
        r.nodes@.len() == rows@.len(),
        forall|i: int|
            #![trigger r.nodes@[i]]
            0 <= i < rows@.len() ==> {
                &&& r.nodes@[i].title@ == title_of(rows@[i].title@)
                &&& r.nodes@[i].id@ == id_of(rows@[i].id@)
                &&& r.nodes@[i].parent@ == id_of(rows@[i].parent_id@)
                &&& r.nodes@[i].num_links == count_touching(
                    link_views(links@),
                    id_of(rows@[i].id@),
                )
            },
        roam_link_views(r.links@) == kept_links(link_views(links@), row_ids(rows@)) + parent_links(
            rows@,
        ),
{
    let mut nodes: Vec<RoamNode> = Vec::new();
    let mut ids: Vec<String> = Vec::new();
    let mut i: usize = 0;
    while i < rows.len()
        invariant
            0 <= i <= rows@.len(),
            nodes@.len() == i,
            views(ids@) == row_ids(rows@).take(i as int),
            forall|j: int|
                #![trigger nodes@[j]]
                0 <= j < i ==> {
                    &&& nodes@[j].title@ == title_of(rows@[j].title@)
                    &&& nodes@[j].id@ == id_of(rows@[j].id@)
                    &&& nodes@[j].parent@ == id_of(rows@[j].parent_id@)
                    &&& nodes@[j].num_links == count_touching(
                        link_views(links@),
                        id_of(rows@[j].id@),
                    )
                },
        decreases rows@.len() - i,
    {
        let row = &rows[i];
        let id = RoamID::from_text(row.id.as_str());
        let num = count_links(links, id.id());
        let node = RoamNode {
            title: RoamTitle::from_text(row.title.as_str()),
            id: id.copy(),
            parent: RoamID::from_text(row.parent_id.as_str()),
            num_links: num,
        };
        let idc = crate::text::string_of(to_chars(id.id()).as_slice());
        assert(row_ids(rows@)[i as int] == id_of(rows@[i as int].id@));
        let ghost before = ids@;
        ids.push(idc);
        assert(views(ids@) =~= views(before).push(idc@));
        assert(row_ids(rows@).take(i + 1) =~= row_ids(rows@).take(i as int).push(idc@));
        nodes.push(node);
        i = i + 1;
        assert(views(ids@) =~= row_ids(rows@).take(i as int));
    }
    assert(row_ids(rows@).take(i as int) =~= row_ids(rows@));
    let mut out: Vec<RoamLink> = Vec::new();
    let mut k: usize = 0;
    while k < links.len()
        invariant
            0 <= k <= links@.len(),
            views(ids@) == row_ids(rows@),
            roam_link_views(out@) == kept_links(link_views(links@).take(k as int), row_ids(rows@)),
        decreases links@.len() - k,
    {
        let ghost t = link_views(links@).take(k + 1);
        assert(t.drop_last() =~= link_views(links@).take(k as int));
        let l = &links[k];
        if contains_str(&ids, l.source.as_str()) && contains_str(&ids, l.dest.as_str()) {
            let link = RoamLink {
                from: RoamID::from_text(l.source.as_str()),
                to: RoamID::from_text(l.dest.as_str()),
            };
            let ghost before = out@;
            out.push(link);
            assert(roam_link_views(out@) =~= roam_link_views(before).push(
                (id_of(l.source@), id_of(l.dest@)),
            ));
        }
        k = k + 1;
        assert(roam_link_views(out@) =~= kept_links(t, row_ids(rows@)));
    }
    assert(link_views(links@).take(k as int) =~= link_views(links@));
    let ghost kept = roam_link_views(out@);
    let mut j: usize = 0;
    while j < nodes.len()
        invariant
            0 <= j <= nodes@.len(),
            nodes@.len() == rows@.len(),
            forall|m: int|
                #![trigger nodes@[m]]
                0 <= m < rows@.len() ==> {
                    &&& nodes@[m].id@ == id_of(rows@[m].id@)
                    &&& nodes@[m].parent@ == id_of(rows@[m].parent_id@)
                },
            roam_link_views(out@) == kept + parent_links(rows@.take(j as int)),
        decreases nodes@.len() - j,
    {
        assert(rows@.take(j + 1).drop_last() =~= rows@.take(j as int));
        let n = &nodes[j];
        if to_chars(n.parent.id()).len() > 0 {
            let ghost before = out@;
            out.push(RoamLink { from: n.parent.copy(), to: n.id.copy() });
            assert(roam_link_views(out@) =~= roam_link_views(before).push(
                (id_of(rows@[j as int].parent_id@), id_of(rows@[j as int].id@)),
            ));
        }
        j = j + 1;
        assert(roam_link_views(out@) =~= kept + parent_links(rows@.take(j as int)));
    }
    assert(rows@.take(j as int) =~= rows@);
    GraphData { nodes, links: out }
}

/// The number of times `c` occurs in `s`.
pub open spec fn count_char(s: Seq<char>, c: char) -> nat
    decreases s.len(),
{
    if s.len() == 0 {
        0
    } else {
        count_char(s.drop_last(), c) + if s.last() == c {
            1nat
        } else {
            0nat
        }
    }
}

proof fn lemma_split_count(s: Seq<char>, sep: char)
    ensures
        split_spec(s, sep).len() == count_char(s, sep) + 1,
    decreases s.len(),
{
    if s.len() > 0 {
        lemma_split_count(s.drop_last(), sep);
    }
}

/// A list of tags holds one tag more than it has commas.
pub proof fn lemma_tag_count(s: Seq<char>)
    ensures
        tag_list(s).len() == count_char(s, ',') + 1,
{
    lemma_split_count(s, ',');
}

proof fn lemma_kept_links_within(links: Seq<(Seq<char>, Seq<char>)>, ids: Seq<Seq<char>>)
    requires
        forall|i: int| 0 <= i < ids.len() ==> id_of(#[trigger] ids[i]) == ids[i],
    ensures
        forall|k: int|
            0 <= k < kept_links(links, ids).len() ==> ids.contains(
                (#[trigger] kept_links(links, ids)[k]).0,
            ) && ids.contains(kept_links(links, ids)[k].1),
    decreases links.len(),
{
    if links.len() > 0 {
        lemma_kept_links_within(links.drop_last(), ids);
        let (s, d) = links.last();
        let prev = kept_links(links.drop_last(), ids);
        if ids.contains(s) && ids.contains(d) {
            let i = choose|i: int| 0 <= i < ids.len() && ids[i] == s;
            let j = choose|j: int| 0 <= j < ids.len() && ids[j] == d;
            assert(id_of(ids[i]) == ids[i]);
            assert(id_of(ids[j]) == ids[j]);
            assert forall|k: int| 0 <= k < kept_links(links, ids).len() implies ids.contains(
                (#[trigger] kept_links(links, ids)[k]).0,
            ) && ids.contains(kept_links(links, ids)[k].1) by {
                if k < prev.len() {
                    assert(kept_links(links, ids)[k] == prev[k]);
                }
            }
        } else {
            assert(kept_links(links, ids) =~= prev);
        }
    }
}

proof fn lemma_parent_links_within(rows: Seq<NodeRow>)
    ensures
        forall|k: int|
            0 <= k < parent_links(rows).len() ==> row_ids(rows).contains(
                (#[trigger] parent_links(rows)[k]).1,
            ) && parent_links(rows)[k].0.len() > 0,
    decreases rows.len(),
{
    if rows.len() > 0 {
        let init = rows.drop_last();
        lemma_parent_links_within(init);
        let prev = parent_links(init);
        let last = rows.len() - 1;
        assert(row_ids(rows)[last] == id_of(rows.last().id@));
        assert forall|k: int| 0 <= k < parent_links(rows).len() implies row_ids(rows).contains(
            (#[trigger] parent_links(rows)[k]).1,
        ) && parent_links(rows)[k].0.len() > 0 by {
            if k < prev.len() {
                assert(parent_links(rows)[k] == prev[k]);
                let w = choose|w: int| 0 <= w < row_ids(init).len() && row_ids(init)[w] == prev[k].1;
                assert(row_ids(rows)[w] == row_ids(init)[w]);
            }
        }
    }
}

/// The graph links only its own nodes: both ends of a link between
/// selected nodes are selected nodes, and every parent link leads from a
/// parent to a selected node.
pub proof fn lemma_graph_links_join_nodes(rows: Seq<NodeRow>, links: Seq<(Seq<char>, Seq<char>)>)
    ensures
        forall|k: int|
            0 <= k < kept_links(links, row_ids(rows)).len() ==> row_ids(rows).contains(
                (#[trigger] kept_links(links, row_ids(rows))[k]).0,
            ) && row_ids(rows).contains(kept_links(links, row_ids(rows))[k].1),
        forall|k: int|
            0 <= k < parent_links(rows).len() ==> row_ids(rows).contains(
                (#[trigger] parent_links(rows)[k]).1,
            ),
{
    let ids = row_ids(rows);
    assert forall|i: int| 0 <= i < ids.len() implies id_of(#[trigger] ids[i]) == ids[i] by {
        crate::types::lemma_id_of_idempotent(rows[i].id@);
    }
    lemma_kept_links_within(links, ids);
    lemma_parent_links_within(rows);
}

} // verus!

//! Bringing the database up to date with a changed file: which of the
//! file's nodes and links are new, in the order they are met.
//!
//! A node is new when its id is not known yet; a new node is linked from its
//! parent when the parent is known. A link of a node is added when its target
//! is known and the link is not.
use vstd::prelude::*;

use crate::org::{pair_views, NodeFromOrg, NodeView};
use crate::text::{str_eq, string_of, to_chars, views};
use crate::types::{id_of, title_of, RoamID, RoamLink, RoamNode};

verus! {

/// The nodes and links the database holds, and what has been added.
#[verifier::ext_equal]
pub struct DiffView {
    pub nodes: Seq<Seq<char>>,
    pub links: Seq<(Seq<char>, Seq<char>)>,
    pub added_nodes: Seq<int>,
    pub added_links: Seq<(Seq<char>, Seq<char>)>,
}

/// Adds a link unless it is known.
pub open spec fn add_link(st: DiffView, s: Seq<char>, d: Seq<char>) -> DiffView {
    if st.links.contains((s, d)) {
        st
    } else {
        DiffView { links: st.links.push((s, d)), added_links: st.added_links.push((s, d)), ..st }
    }
}

/// Adds the links from `src` to the known ones among `dests`, in order.
pub open spec fn add_links(st: DiffView, src: Seq<char>, dests: Seq<Seq<char>>) -> DiffView
    decreases dests.len(),
{
    if dests.len() == 0 {
        st
    } else {
        let st0 = add_links(st, src, dests.drop_last());
        let d = dests.last();
        if st0.nodes.contains(d) {
            add_link(st0, src, d)
        } else {
            st0
        }
    }
}

/// The targets of a node's links.
pub open spec fn link_targets(n: NodeView) -> Seq<Seq<char>> {
    n.links.map_values(|l: (Seq<char>, Seq<char>)| l.0)
}

/// One node of the file (at position `idx`).
pub open spec fn node_step(st: DiffView, n: NodeView, idx: int) -> DiffView {
    let st1 = if st.nodes.contains(n.uuid) {
        st
    } else {
        let st0 = DiffView { nodes: st.nodes.push(n.uuid), added_nodes: st.added_nodes.push(idx), ..st };
        match n.parent {
            Some(p) => if st0.nodes.contains(p) {
                add_link(st0, p, n.uuid)
            } else {
                st0
            },
            None => st0,
        }
    };
    add_links(st1, n.uuid, link_targets(n))
}

/// All the nodes of the file, in order.
pub open spec fn diff_spec(st: DiffView, nodes: Seq<NodeView>) -> DiffView
    decreases nodes.len(),
{
    if nodes.len() == 0 {
        st
    } else {
        node_step(diff_spec(st, nodes.drop_last()), nodes.last(), nodes.len() - 1)
    }
}

/// What the database held before the file was read: the node ids and the
/// (source, target) pairs of the links.
pub struct KnownGraph {
    pub nodes: Vec<String>,
    pub links: Vec<(String, String)>,
}

/// What the file added: the positions of its new nodes, the new links
/// (source, target) to insert, and the graph's view of them.
pub struct DiffOutcome {
    pub new_nodes: Vec<usize>,
    pub new_links: Vec<(String, String)>,
    pub updated_nodes: Vec<RoamNode>,
    pub updated_links: Vec<RoamLink>,
    pub pending_reload: bool,
}

/// `r` is the graph's node for `n`: its title and id parsed as raw values,
/// its parent (empty when it has none) and its number of links.
pub open spec fn graph_node_of(r: RoamNode, n: NodeFromOrg) -> bool {
    &&& r.title@ == title_of(n.title@)
    &&& r.id@ == id_of(n.uuid@)
    &&& r.parent@ == match n.parent {
        Some(p) => id_of(p@),
        None => Seq::<char>::empty(),
    }
    &&& r.num_links == n.links@.len()
}

/// The views of the nodes.
pub open spec fn node_views(nodes: Seq<NodeFromOrg>) -> Seq<NodeView> {
    nodes.map_values(|n: NodeFromOrg| n@)
}

/// Whether `s` is one of `v`.
fn contains_text(v: &Vec<String>, s: &str) -> (r: bool)
    ensures
        r == views(v@).contains(s@),
{
    let mut i: usize = 0;
    while i < v.len()
        invariant
            0 <= i <= v@.len(),
            forall|j: int| 0 <= j < i ==> views(v@)[j] != s@,
        decreases v@.len() - i,
    {
        if str_eq(v[i].as_str(), s) {
            assert(views(v@)[i as int] == s@);
            return true;
        }
        i = i + 1;
    }
    false
}

/// Whether `(s, d)` is one of `v`.
fn contains_pair(v: &Vec<(String, String)>, s: &str, d: &str) -> (r: bool)
    ensures
        r == pair_views(v@).contains((s@, d@)),
{
    let mut i: usize = 0;
    while i < v.len()
        invariant
            0 <= i <= v@.len(),
            forall|j: int| 0 <= j < i ==> pair_views(v@)[j] != (s@, d@),
        decreases v@.len() - i,
    {
        if str_eq(v[i].0.as_str(), s) && str_eq(v[i].1.as_str(), d) {
            assert(pair_views(v@)[i as int] == (s@, d@));
            return true;
        }
        i = i + 1;
    }
    false
}

fn own(s: &str) -> (r: String)
    ensures
        r@ == s@,
{
    string_of(to_chars(s).as_slice())
}

/// The state of a diff.
struct DiffState {
    nodes: Vec<String>,
    links: Vec<(String, String)>,
    added_nodes: Vec<usize>,
    added_links: Vec<(String, String)>,
}

impl DiffState {
    spec fn view(&self) -> DiffView {
        DiffView {
            nodes: views(self.nodes@),
            links: pair_views(self.links@),
            added_nodes: self.added_nodes@.map_values(|i: usize| i as int),
            added_links: pair_views(self.added_links@),
        }
    }

    fn add_link(&mut self, s: &str, d: &str)
        ensures
            final(self).view() == add_link(old(self).view(), s@, d@),
            final(self).added_nodes@ == old(self).added_nodes@,
    {
        if !contains_pair(&self.links, s, d) {
            let ghost before = self.view();
            self.links.push((own(s), own(d)));
            self.added_links.push((own(s), own(d)));
            assert(self.view().links =~= before.links.push((s@, d@)));
            assert(self.view().added_links =~= before.added_links.push((s@, d@)));
            assert(self.view().nodes =~= before.nodes);
            assert(self.view().added_nodes =~= before.added_nodes);
        }
    }

    fn add_links(&mut self, src: &str, links: &Vec<(String, String)>)
        ensures
            final(self).view() == add_links(
                old(self).view(),
                src@,
                pair_views(links@).map_values(|l: (Seq<char>, Seq<char>)| l.0),
            ),
            final(self).added_nodes@ == old(self).added_nodes@,
    {
        let ghost dests = pair_views(links@).map_values(|l: (Seq<char>, Seq<char>)| l.0);
        let ghost start = self.view();
        let mut i: usize = 0;
        while i < links.len()
            invariant
                0 <= i <= links@.len(),
                dests == pair_views(links@).map_values(|l: (Seq<char>, Seq<char>)| l.0),
                self.view() == add_links(start, src@, dests.take(i as int)),
                self.added_nodes@ == old(self).added_nodes@,
            decreases links@.len() - i,
        {
            assert(dests.take(i + 1).drop_last() =~= dests.take(i as int));
            assert(dests[i as int] == links@[i as int].0@);
            let d = links[i].0.as_str();
            if contains_text(&self.nodes, d) {
                self.add_link(src, d);
            }
            i = i + 1;
        }
        assert(dests.take(i as int) =~= dests);
    }

    fn node_step(&mut self, n: &NodeFromOrg, idx: usize)
        ensures
            final(self).view() == node_step(old(self).view(), n@, idx as int),
            final(self).added_nodes@ == old(self).added_nodes@ || final(self).added_nodes@
                == old(self).added_nodes@.push(idx),
    {
        if !contains_text(&self.nodes, n.uuid.as_str()) {
            let ghost before = self.view();
            self.nodes.push(own(n.uuid.as_str()));
            self.added_nodes.push(idx);
            assert(self.view() =~= DiffView {
                nodes: before.nodes.push(n.uuid@),
                added_nodes: before.added_nodes.push(idx as int),
                ..before
            });
            match &n.parent {
                Some(p) => {
                    if contains_text(&self.nodes, p.as_str()) {
                        self.add_link(p.as_str(), n.uuid.as_str());
                    }
                },
                None => {},
            }
        }
        assert(pair_views(n.links@).map_values(|l: (Seq<char>, Seq<char>)| l.0) =~= link_targets(n@));
        self.add_links(n.uuid.as_str(), &n.links);
    }
}

/// Copies a list of strings.
fn copy_list(v: &Vec<String>) -> (r: Vec<String>)
    ensures
        views(r@) == views(v@),
{
    crate::org::copy_strings(v)
}

/// Copies a list of pairs.
fn copy_pairs(v: &Vec<(String, String)>) -> (r: Vec<(String, String)>)
    ensures
        pair_views(r@) == pair_views(v@),
{
    let mut r: Vec<(String, String)> = Vec::new();
    let mut i: usize = 0;
    while i < v.len()
        invariant
            0 <= i <= v@.len(),
            pair_views(r@) == pair_views(v@).take(i as int),
        decreases v@.len() - i,
    {
        let ghost before = r@;
        r.push((own(v[i].0.as_str()), own(v[i].1.as_str())));
        assert(pair_views(r@) =~= pair_views(before).push((v@[i as int].0@, v@[i as int].1@)));
        assert(pair_views(v@).take(i + 1) =~= pair_views(v@).take(i as int).push(
            (v@[i as int].0@, v@[i as int].1@),
        ));
        i = i + 1;
    }
    assert(pair_views(v@).take(i as int) =~= pair_views(v@));
    r
}

/// The new nodes and links of a file's nodes (see `diff_spec`); the graph
/// learns of each new node and link, and must reload when a node is new.
pub fn diff(known: &KnownGraph, nodes: &Vec<NodeFromOrg>) -> (r: DiffOutcome)
    ensures
        ({
            let fin = diff_spec(
                DiffView {
                    nodes: views(known.nodes@),
                    links: pair_views(known.links@),
                    added_nodes: Seq::empty(),
                    added_links: Seq::empty(),
                },
                node_views(nodes@),
            );
            &&& r.new_nodes@.map_values(|i: usize| i as int) == fin.added_nodes
            &&& pair_views(r.new_links@) == fin.added_links
            &&& r.updated_nodes@.len() == r.new_nodes@.len()
            &&& forall|i: int|
                0 <= i < r.updated_nodes@.len() ==> graph_node_of(
                    #[trigger] r.updated_nodes@[i],
                    nodes@[r.new_nodes@[i] as int],
                )
            &&& r.updated_links@.len() == r.new_links@.len()
            &&& forall|i: int|
                0 <= i < r.updated_links@.len() ==> (#[trigger] r.updated_links@[i]).from@ == id_of(
                    r.new_links@[i].0@,
                ) && r.updated_links@[i].to@ == id_of(r.new_links@[i].1@)
            &&& r.pending_reload == (fin.added_nodes.len() > 0)
        }),
{
    let mut st = DiffState {
        nodes: copy_list(&known.nodes),
        links: copy_pairs(&known.links),
        added_nodes: Vec::new(),
        added_links: Vec::new(),
    };
    let ghost start = st.view();
    assert(start.added_nodes =~= Seq::<int>::empty());
    assert(start.added_links =~= Seq::<(Seq<char>, Seq<char>)>::empty());
    let mut i: usize = 0;
    while i < nodes.len()
        invariant
            0 <= i <= nodes@.len(),
            st.view() == diff_spec(start, node_views(nodes@).take(i as int)),
            forall|k: int| 0 <= k < st.added_nodes@.len() ==> (#[trigger] st.added_nodes@[k]) < i,
        decreases nodes@.len() - i,
    {
        assert(node_views(nodes@).take(i + 1).drop_last() =~= node_views(nodes@).take(i as int));
        assert(node_views(nodes@).take(i + 1).last() == nodes@[i as int]@);
        let ghost before = st.added_nodes@;
        st.node_step(&nodes[i], i);
        proof {
            assert forall|k: int| 0 <= k < st.added_nodes@.len() implies (#[trigger] st.added_nodes@[k]) < i + 1 by {
                if k < before.len() {
                    assert(st.added_nodes@[k] == before[k]);
                }
            }
        }
        i = i + 1;
    }
    assert(node_views(nodes@).take(i as int) =~= node_views(nodes@));
    let mut updated_nodes: Vec<RoamNode> = Vec::new();
    let mut j: usize = 0;
    while j < st.added_nodes.len()
        invariant
            0 <= j <= st.added_nodes@.len(),
            updated_nodes@.len() == j,
            forall|k: int| 0 <= k < st.added_nodes@.len() ==> (#[trigger] st.added_nodes@[k]) < nodes@.len(),
            forall|k: int|
                0 <= k < j ==> graph_node_of(
                    #[trigger] updated_nodes@[k],
                    nodes@[st.added_nodes@[k] as int],
                ),
        decreases st.added_nodes@.len() - j,
    {
        let n = RoamNode::from_node(&nodes[st.added_nodes[j]]);
        updated_nodes.push(n);
        j = j + 1;
    }
    let mut updated_links: Vec<RoamLink> = Vec::new();
    let mut k: usize = 0;
    while k < st.added_links.len()
        invariant
            0 <= k <= st.added_links@.len(),
            updated_links@.len() == k,
            forall|m: int|
                0 <= m < k ==> (#[trigger] updated_links@[m]).from@ == id_of(st.added_links@[m].0@)
                    && updated_links@[m].to@ == id_of(st.added_links@[m].1@),
        decreases st.added_links@.len() - k,
    {
        let l = RoamLink {
            from: RoamID::from_text(st.added_links[k].0.as_str()),
            to: RoamID::from_text(st.added_links[k].1.as_str()),
        };
        updated_links.push(l);
        k = k + 1;
    }
    let pending = st.added_nodes.len() > 0;
    DiffOutcome {
        new_nodes: st.added_nodes,
        new_links: st.added_links,
        updated_nodes,
        updated_links,
        pending_reload: pending,
    }
}

/// The links are the known ones followed by the added ones, each added
/// once, none of them known before.
pub open spec fn links_ok(st: DiffView, base: Seq<(Seq<char>, Seq<char>)>) -> bool {
    &&& st.links == base + st.added_links
    &&& st.added_links.no_duplicates()
    &&& forall|k: int| 0 <= k < st.added_links.len() ==> !base.contains(#[trigger] st.added_links[k])
}

proof fn lemma_add_link_ok(st: DiffView, base: Seq<(Seq<char>, Seq<char>)>, s: Seq<char>, d: Seq<char>)
    requires
        links_ok(st, base),
    ensures
        links_ok(add_link(st, s, d), base),
{
    if !st.links.contains((s, d)) {
        let n = add_link(st, s, d);
        assert(n.links =~= base + n.added_links);
        assert(!base.contains((s, d))) by {
            if base.contains((s, d)) {
                let k = choose|k: int| 0 <= k < base.len() && base[k] == (s, d);
                assert(st.links[k] == (s, d));
            }
        }
        assert(!st.added_links.contains((s, d))) by {
            if st.added_links.contains((s, d)) {
                let k = choose|k: int| 0 <= k < st.added_links.len() && st.added_links[k] == (s, d);
                assert(st.links[base.len() + k] == (s, d));
            }
        }
        assert forall|a: int, b: int|
            0 <= a < n.added_links.len() && 0 <= b < n.added_links.len() && a != b
                implies n.added_links[a] != n.added_links[b] by {
            if a < st.added_links.len() && b < st.added_links.len() {
            } else if a < st.added_links.len() {
                assert(st.added_links.contains(n.added_links[a]));
            } else {
                assert(st.added_links.contains(n.added_links[b]));
            }
        }
    }
}

proof fn lemma_add_links_ok(
    st: DiffView,
    base: Seq<(Seq<char>, Seq<char>)>,
    src: Seq<char>,
    dests: Seq<Seq<char>>,
)
    requires
        links_ok(st, base),
    ensures
        links_ok(add_links(st, src, dests), base),
    decreases dests.len(),
{
    if dests.len() > 0 {
        lemma_add_links_ok(st, base, src, dests.drop_last());
        let st0 = add_links(st, src, dests.drop_last());
        if st0.nodes.contains(dests.last()) {
            lemma_add_link_ok(st0, base, src, dests.last());
        }
    }
}

proof fn lemma_diff_ok(st: DiffView, base: Seq<(Seq<char>, Seq<char>)>, nodes: Seq<NodeView>)
    requires
        links_ok(st, base),
    ensures
        links_ok(diff_spec(st, nodes), base),
    decreases nodes.len(),
{
    if nodes.len() > 0 {
        lemma_diff_ok(st, base, nodes.drop_last());
        let prev = diff_spec(st, nodes.drop_last());
        let n = nodes.last();
        let st1 = if prev.nodes.contains(n.uuid) {
            prev
        } else {
            let st0 = DiffView {
                nodes: prev.nodes.push(n.uuid),
                added_nodes: prev.added_nodes.push(nodes.len() - 1),
                ..prev
            };
            assert(links_ok(st0, base));
            match n.parent {
                Some(p) => if st0.nodes.contains(p) {
                    lemma_add_link_ok(st0, base, p, n.uuid);
                    add_link(st0, p, n.uuid)
                } else {
                    st0
                },
                None => st0,
            }
        };
        assert(links_ok(st1, base));
        lemma_add_links_ok(st1, base, n.uuid, link_targets(n));
    }
}

/// A diff never inserts a link twice, nor a link the database already
/// held.
pub proof fn lemma_diff_links_are_new(
    known_nodes: Seq<Seq<char>>,
    known_links: Seq<(Seq<char>, Seq<char>)>,
    nodes: Seq<NodeView>,
)
    ensures
        ({
            let fin = diff_spec(
                DiffView {
                    nodes: known_nodes,
                    links: known_links,
                    added_nodes: Seq::empty(),
                    added_links: Seq::empty(),
                },
                nodes,
            );
            &&& fin.added_links.no_duplicates()
            &&& forall|k: int|
                0 <= k < fin.added_links.len() ==> !known_links.contains(#[trigger] fin.added_links[k])
        }),
{
    let st = DiffView {
        nodes: known_nodes,
        links: known_links,
        added_nodes: Seq::empty(),
        added_links: Seq::empty(),
    };
    assert(st.links =~= known_links + st.added_links);
    lemma_diff_ok(st, known_links, nodes);
}

} // verus!

//! The cache of the org files: each node id leads to the file it lives in,
//! as read when the cache was built or when the file was last submitted.
//!
//! Files are kept once each in `entries`; the lookup table (a `DashMap`, as
//! the server shares it) maps an id to the position of its file there.
use vstd::prelude::*;

use crate::latex::{default_hash_of, hash};
use crate::text::{string_of, to_chars, views, str_eq};
use crate::types::RoamID;

verus! {

#[verifier::external_type_specification]
#[verifier::external_body]
#[verifier::reject_recursive_types(K)]
#[verifier::reject_recursive_types(V)]
#[verifier::reject_recursive_types(S)]
pub struct ExDashMap<K, V, S>(dashmap::DashMap<K, V, S>);

/// What a lookup table holds: for each id, the position of its file.
pub uninterp spec fn lookup_of(m: dashmap::DashMap<String, usize>) -> Map<Seq<char>, usize>;

/// `DashMap::new`: an empty table.
#[verifier::external_body]
fn lookup_new() -> (r: dashmap::DashMap<String, usize>)
    ensures
        lookup_of(r).dom().len() == 0,
        lookup_of(r).dom().finite(),
{
    dashmap::DashMap::new()
}

/// `DashMap::insert`: the key now leads to the value; the other keys are
/// unchanged.
#[verifier::external_body]
fn lookup_insert(m: &mut dashmap::DashMap<String, usize>, key: String, value: usize)
    ensures
        lookup_of(*final(m)) == lookup_of(*old(m)).insert(key@, value),
{
    m.insert(key, value);
}

/// `DashMap::get`, with the value copied out.
#[verifier::external_body]
fn lookup_get(m: &dashmap::DashMap<String, usize>, key: &str) -> (r: Option<usize>)
    ensures
        r == lookup_of(*m).get(key@),
{
    m.get(key).map(|v| *v)
}

/// `DashMap::iter`, each entry copied out as (key, value): every key of the
/// table once, with its value, in an order that the table decides.
#[verifier::external_body]
fn lookup_pairs(m: &dashmap::DashMap<String, usize>) -> (r: Vec<(String, usize)>)
    ensures
        forall|i: int, j: int|
            0 <= i < r@.len() && 0 <= j < r@.len() && i != j ==> r@[i].0@ != r@[j].0@,
        forall|i: int|
            0 <= i < r@.len() ==> lookup_of(*m).get((#[trigger] r@[i]).0@) == Some(r@[i].1),
        forall|k: Seq<char>|
            #[trigger] lookup_of(*m).dom().contains(k) ==> exists|i: int|
                0 <= i < r@.len() && (#[trigger] r@[i]).0@ == k,
{
    m.iter().map(|r| (r.key().clone(), *r.value())).collect()
}

/// The path of a file relative to the cache's root, as
/// `std::path::Path::strip_prefix` gives it; none when the file is not
/// under the root.
pub uninterp spec fn relative_of(path: Seq<char>, root: Seq<char>) -> Option<Seq<char>>;

/// Calls `std::path::Path::strip_prefix` on `path` with `root`. The result
/// is named `relative_of` of the two paths; nothing more is claimed of it.
#[verifier::external_body]
fn strip_root(path: &str, root: &str) -> (r: Option<String>)
    ensures
        match r {
            Some(p) => relative_of(path@, root@) == Some(p@),
            None => relative_of(path@, root@) is None,
        },
{
    std::path::Path::new(path).strip_prefix(root).ok().map(|p| p.to_string_lossy().into_owned())
}

/// A file of the cache: its path relative to the root and its content.
#[derive(Clone, Debug, PartialEq)]
pub struct OrgCacheEntry {
    path: String,
    content: String,
}

impl OrgCacheEntry {
    /// The path, relative to the root.
    pub closed spec fn path_view(&self) -> Seq<char> {
        self.path@
    }

    /// The content.
    pub closed spec fn content_view(&self) -> Seq<char> {
        self.content@
    }

    /// The entry of the file at `path` under `root`, with the content read
    /// from it.
    pub fn new(root: &str, path: &str, content: String) -> (r: OrgCacheEntry)
        requires
            relative_of(path@, root@) is Some,
        ensures
            Some(r.path_view()) == relative_of(path@, root@),
            r.content_view() == content@,
    {
        let rel = strip_root(path, root);
        match rel {
            Some(p) => OrgCacheEntry { path: p, content },
            None => {
                assert(false);
                OrgCacheEntry { path: String::new(), content }
            },
        }
    }

    /// The entry of the file at `path`, or none when `path` is not under
    /// `root`.
    pub fn open(root: &str, path: &str, content: String) -> (r: Option<OrgCacheEntry>)
        ensures
            r is None <==> relative_of(path@, root@) is None,
            r matches Some(e) ==> Some(e.path_view()) == relative_of(path@, root@)
                && e.content_view() == content@,
    {
        match strip_root(path, root) {
            Some(_) => Some(OrgCacheEntry::new(root, path, content)),
            None => None,
        }
    }

    pub fn content(&self) -> (r: &str)
        ensures
            r@ == self.content_view(),
    {
        self.content.as_str()
    }

    pub fn path(&self) -> (r: &str)
        ensures
            r@ == self.path_view(),
    {
        self.path.as_str()
    }

    /// The hash of the content (std's `DefaultHasher`).
    pub fn get_hash(&self) -> (r: u64)
        ensures
            r == default_hash_of(self.content_view()),
    {
        hash(self.content.as_str())
    }

    /// A copy.
    pub fn copy(&self) -> (r: OrgCacheEntry)
        ensures
            r.path_view() == self.path_view(),
            r.content_view() == self.content_view(),
    {
        OrgCacheEntry {
            path: string_of(to_chars(self.path.as_str()).as_slice()),
            content: string_of(to_chars(self.content.as_str()).as_slice()),
        }
    }
}

/// What made a file's entry stale.
#[derive(Clone, Debug, PartialEq)]
pub enum InvalidatedBy {
    Path(String),
    Id(RoamID),
}

impl From<RoamID> for InvalidatedBy {
    fn from(value: RoamID) -> InvalidatedBy {
        InvalidatedBy::Id(value)
    }
}

impl vstd::std_specs::convert::FromSpecImpl<RoamID> for InvalidatedBy {
    open spec fn obeys_from_spec() -> bool {
        true
    }

    open spec fn from_spec(v: RoamID) -> InvalidatedBy {
        InvalidatedBy::Id(v)
    }
}

/// The cache.
pub struct OrgCache {
    path: String,
    lookup: dashmap::DashMap<String, usize>,
    entries: Vec<OrgCacheEntry>,
    invalidated: Vec<InvalidatedBy>,
}

impl OrgCache {
    /// Every id leads to a kept file.
    pub closed spec fn wf(&self) -> bool {
        &&& forall|k: Seq<char>|
            #[trigger] lookup_of(self.lookup).dom().contains(k) ==> lookup_of(self.lookup)[k]
                < self.entries@.len()
    }

    /// For each id, its file's (relative path, content).
    pub closed spec fn files(&self) -> Map<Seq<char>, (Seq<char>, Seq<char>)> {
        lookup_of(self.lookup).map_values(
            |i: usize| (self.entries@[i as int].path_view(), self.entries@[i as int].content_view()),
        )
    }

    /// The number of files kept.
    pub closed spec fn kept(&self) -> nat {
        self.entries@.len()
    }

    /// The root of the org files.
    pub closed spec fn root(&self) -> Seq<char> {
        self.path@
    }

    /// The stale marks recorded so far.
    pub closed spec fn invalidations(&self) -> Seq<InvalidatedBy> {
        self.invalidated@
    }

    /// The file an id leads to.
    proof fn lemma_file(&self, k: Seq<char>)
        requires
            lookup_of(self.lookup).dom().contains(k),
        ensures
            self.files().dom().contains(k),
            self.files()[k] == (
                self.entries@[lookup_of(self.lookup)[k] as int].path_view(),
                self.entries@[lookup_of(self.lookup)[k] as int].content_view(),
            ),
    {
    }

    /// An empty cache of the files under `root`.
    pub fn new(root: String) -> (r: OrgCache)
        ensures
            r.wf(),
            r.root() == root@,
            r.files() == Map::<Seq<char>, (Seq<char>, Seq<char>)>::empty(),
            r.invalidations().len() == 0,
    {
        let r = OrgCache {
            path: root,
            lookup: lookup_new(),
            entries: Vec::new(),
            invalidated: Vec::new(),
        };
        assert(r.files() =~= Map::<Seq<char>, (Seq<char>, Seq<char>)>::empty());
        r
    }

    /// The file of a node.
    pub fn retrieve(&self, id: &RoamID) -> (r: Option<&OrgCacheEntry>)
        requires
            self.wf(),
        ensures
            match r {
                Some(e) => self.files().dom().contains(id@) && self.files()[id@] == (
                    e.path_view(),
                    e.content_view(),
                ),
                None => !self.files().dom().contains(id@),
            },
    {
        match lookup_get(&self.lookup, id.id()) {
            Some(i) => {
                proof {
                    assert(lookup_of(self.lookup).dom().contains(id@));
                    assert(lookup_of(self.lookup)[id@] == i);
                    self.lemma_file(id@);
                }
                let e = &self.entries[i];
                assert(self.files()[id@] == (e.path_view(), e.content_view()));
                Some(e)
            },
            None => None,
        }
    }

    /// Files a newly read file under the ids of the nodes it holds.
    pub fn add_file(&mut self, ids: &Vec<RoamID>, entry: OrgCacheEntry)
        requires
            old(self).wf(),
        ensures
            final(self).wf(),
            final(self).root() == old(self).root(),
            final(self).invalidations() == old(self).invalidations(),
            forall|k: Seq<char>|
                #![trigger final(self).files().dom().contains(k)]
                final(self).files().dom().contains(k) <==> (old(self).files().dom().contains(k)
                    || exists|i: int| 0 <= i < ids@.len() && (#[trigger] ids@[i])@ == k),
            forall|k: Seq<char>|
                #![trigger final(self).files()[k]]
                final(self).files().dom().contains(k) ==> final(self).files()[k] == if exists|i: int|
                    0 <= i < ids@.len() && (#[trigger] ids@[i])@ == k {
                    (entry.path_view(), entry.content_view())
                } else {
                    old(self).files()[k]
                },
    {
        let ghost before = *self;
        let idx = self.entries.len();
        let ghost ev = (entry.path_view(), entry.content_view());
        self.entries.push(entry);
        let mut i: usize = 0;
        while i < ids.len()
            invariant
                0 <= i <= ids@.len(),
                self.path == before.path,
                self.invalidated == before.invalidated,
                self.entries@ == before.entries@.push(self.entries@.last()),
                (self.entries@.last().path_view(), self.entries@.last().content_view()) == ev,
                idx == before.entries@.len(),
                self.wf(),
                forall|k: Seq<char>|
                    #![trigger lookup_of(self.lookup).dom().contains(k)]
                    lookup_of(self.lookup).dom().contains(k) <==> (lookup_of(
                        before.lookup,
                    ).dom().contains(k) || exists|j: int|
                        0 <= j < i && (#[trigger] ids@[j])@ == k),
                forall|k: Seq<char>|
                    #![trigger lookup_of(self.lookup)[k]]
                    lookup_of(self.lookup).dom().contains(k) ==> lookup_of(self.lookup)[k] == if exists|j: int|
                        0 <= j < i && (#[trigger] ids@[j])@ == k {
                        idx
                    } else {
                        lookup_of(before.lookup)[k]
                    },
            decreases ids@.len() - i,
        {
            let key = string_of(to_chars(ids[i].id()).as_slice());
            lookup_insert(&mut self.lookup, key, idx);
            proof {
                assert(ids@[i as int]@ == key@);
            }
            i = i + 1;
        }
        proof {
            assert forall|k: Seq<char>| #[trigger] self.files().dom().contains(k) implies self.files()[k] == if exists|j: int|
                0 <= j < ids@.len() && (#[trigger] ids@[j])@ == k {
                ev
            } else {
                before.files()[k]
            } by {
                let v = lookup_of(self.lookup)[k];
                if !(exists|j: int| 0 <= j < ids@.len() && (#[trigger] ids@[j])@ == k) {
                    assert(lookup_of(before.lookup).dom().contains(k));
                    assert(v < before.entries@.len());
                    assert(self.entries@[v as int] == before.entries@[v as int]);
                }
            }
        }
    }

    /// Puts a re-read file in place of the kept file at `idx` and files it
    /// under `ids`; every id that led to `idx` is among `ids`.
    fn replace_file(&mut self, idx: usize, ids: &Vec<RoamID>, entry: OrgCacheEntry)
        requires
            old(self).wf(),
            idx < old(self).kept(),
            forall|k: Seq<char>|
                #![trigger lookup_of(old(self).lookup)[k]]
                lookup_of(old(self).lookup).dom().contains(k) && lookup_of(old(self).lookup)[k]
                    == idx ==> exists|i: int| 0 <= i < ids@.len() && (#[trigger] ids@[i])@ == k,
        ensures
            final(self).wf(),
            final(self).root() == old(self).root(),
            final(self).invalidations() == old(self).invalidations(),
            final(self).kept() == old(self).kept(),
            forall|k: Seq<char>|
                #![trigger final(self).files().dom().contains(k)]
                final(self).files().dom().contains(k) <==> (old(self).files().dom().contains(k)
                    || exists|i: int| 0 <= i < ids@.len() && (#[trigger] ids@[i])@ == k),
            forall|k: Seq<char>|
                #![trigger final(self).files()[k]]
                final(self).files().dom().contains(k) ==> final(self).files()[k] == if exists|i: int|
                    0 <= i < ids@.len() && (#[trigger] ids@[i])@ == k {
                    (entry.path_view(), entry.content_view())
                } else {
                    old(self).files()[k]
                },
    {
        let ghost before = *self;
        let ghost ev = (entry.path_view(), entry.content_view());
        self.entries.set(idx, entry);
        let mut i: usize = 0;
        while i < ids.len()
            invariant
                0 <= i <= ids@.len(),
                idx < before.entries@.len(),
                self.path == before.path,
                self.invalidated == before.invalidated,
                self.entries@ == before.entries@.update(idx as int, self.entries@[idx as int]),
                (self.entries@[idx as int].path_view(), self.entries@[idx as int].content_view()) == ev,
                self.wf(),
                forall|k: Seq<char>|
                    #![trigger lookup_of(self.lookup).dom().contains(k)]
                    lookup_of(self.lookup).dom().contains(k) <==> (lookup_of(
                        before.lookup,
                    ).dom().contains(k) || exists|j: int|
                        0 <= j < i && (#[trigger] ids@[j])@ == k),
                forall|k: Seq<char>|
                    #![trigger lookup_of(self.lookup)[k]]
                    lookup_of(self.lookup).dom().contains(k) ==> lookup_of(self.lookup)[k] == if exists|j: int|
                        0 <= j < i && (#[trigger] ids@[j])@ == k {
                        idx
                    } else {
                        lookup_of(before.lookup)[k]
                    },
            decreases ids@.len() - i,
        {
            let key = string_of(to_chars(ids[i].id()).as_slice());
            lookup_insert(&mut self.lookup, key, idx);
            proof {
                assert(ids@[i as int]@ == key@);
            }
            i = i + 1;
        }
        proof {
            assert forall|k: Seq<char>| #[trigger] self.files().dom().contains(k) implies self.files()[k] == if exists|j: int|
                0 <= j < ids@.len() && (#[trigger] ids@[j])@ == k {
                ev
            } else {
                before.files()[k]
            } by {
                let v = lookup_of(self.lookup)[k];
                if !(exists|j: int| 0 <= j < ids@.len() && (#[trigger] ids@[j])@ == k) {
                    assert(lookup_of(before.lookup).dom().contains(k));
                    assert(v == lookup_of(before.lookup)[k]);
                    assert(v < before.entries@.len());
                    assert(v != idx);
                    assert(self.entries@[v as int] == before.entries@[v as int]);
                }
            }
        }
    }

    /// Files a re-read file under `id` and under every id whose file had the
    /// same path.
    pub fn submit(&mut self, id: &RoamID, entry: OrgCacheEntry)
        requires
            old(self).wf(),
        ensures
            final(self).wf(),
            final(self).root() == old(self).root(),
            final(self).invalidations() == old(self).invalidations(),
            final(self).files().dom() == old(self).files().dom().insert(id@),
            forall|k: Seq<char>|
                #![trigger final(self).files()[k]]
                final(self).files().dom().contains(k) ==> final(self).files()[k] == if k == id@ || (
                old(self).files()[k].0 == entry.path_view()) {
                    (entry.path_view(), entry.content_view())
                } else {
                    old(self).files()[k]
                },
    {
        let ghost before = *self;
        let pairs = lookup_pairs(&self.lookup);
        let idx = self.entries.len();
        let ghost ev = (entry.path_view(), entry.content_view());
        let ghost epath = entry.path_view();
        let mut same: Vec<String> = Vec::new();
        let mut i: usize = 0;
        while i < pairs.len()
            invariant
                0 <= i <= pairs@.len(),
                *self == before,
                before.wf(),
                ev == (entry.path_view(), entry.content_view()),
                epath == entry.path_view(),
                forall|a: int| 0 <= a < pairs@.len() ==> lookup_of(self.lookup).get((#[trigger] pairs@[a]).0@) == Some(pairs@[a].1),
                forall|s: Seq<char>|
                    #[trigger] views(same@).contains(s) ==> lookup_of(self.lookup).dom().contains(s)
                        && self.files()[s].0 == epath,
                forall|a: int|
                    0 <= a < i && self.files()[(#[trigger] pairs@[a]).0@].0 == epath ==> views(same@).contains(pairs@[a].0@),
            decreases pairs@.len() - i,
        {
            let (k, v) = &pairs[i];
            assert(lookup_of(self.lookup).get(pairs@[i as int].0@) == Some(pairs@[i as int].1));
            assert(lookup_of(self.lookup).dom().contains(k@));
            proof {
                self.lemma_file(k@);
            }
            let e = &self.entries[*v];
            if str_eq(e.path.as_str(), entry.path.as_str()) {
                let kk = string_of(to_chars(k.as_str()).as_slice());
                let ghost prev = same@;
                same.push(kk);
                proof {
                    assert(views(same@) =~= views(prev).push(kk@));
                    assert forall|s: Seq<char>| #[trigger] views(same@).contains(s) implies lookup_of(self.lookup).dom().contains(s) && self.files()[s].0 == epath by {
                        if s != kk@ {
                            let w = choose|w: int| 0 <= w < views(same@).len() && views(same@)[w] == s;
                            assert(views(prev)[w] == s);
                            assert(views(prev).contains(s));
                        }
                    }
                    assert forall|a: int| 0 <= a < i + 1 && self.files()[(#[trigger] pairs@[a]).0@].0 == epath implies views(same@).contains(pairs@[a].0@) by {
                        if a < i {
                            assert(views(prev).contains(pairs@[a].0@));
                            let w = choose|w: int| 0 <= w < views(prev).len() && views(prev)[w] == pairs@[a].0@;
                            assert(views(same@)[w] == pairs@[a].0@);
                        } else {
                            assert(views(same@)[views(same@).len() - 1] == kk@);
                        }
                    }
                }
            } else {
                proof {
                    assert forall|a: int| 0 <= a < i + 1 && self.files()[(#[trigger] pairs@[a]).0@].0 == epath implies views(same@).contains(pairs@[a].0@) by {
                        if a == i {
                            assert(self.files()[pairs@[a].0@].0 == e.path_view());
                        }
                    }
                }
            }
            i = i + 1;
        }
        proof {
            assert forall|k: Seq<char>| #[trigger] before.files().dom().contains(k) && before.files()[k].0 == epath implies views(same@).contains(k) by {
                assert(lookup_of(before.lookup).dom().contains(k));
                let a = choose|a: int| 0 <= a < pairs@.len() && (#[trigger] pairs@[a]).0@ == k;
                assert(self.files()[pairs@[a].0@].0 == epath);
            }
        }
        let ids_same: Vec<RoamID> = to_ids(&same);
        let ghost sv = views(same@);
        let mut all: Vec<RoamID> = ids_same;
        all.push(id.copy());
        assert(forall|j: int| 0 <= j < all@.len() - 1 ==> (#[trigger] all@[j])@ == sv[j]);
        proof {
            assert forall|k: Seq<char>| (exists|j: int| 0 <= j < all@.len() && (#[trigger] all@[j])@ == k) <==> (sv.contains(k) || k == id@) by {
                if exists|j: int| 0 <= j < all@.len() && (#[trigger] all@[j])@ == k {
                    let j = choose|j: int| 0 <= j < all@.len() && (#[trigger] all@[j])@ == k;
                    if j < all@.len() - 1 {
                        assert(sv[j] == k);
                    }
                }
                if sv.contains(k) {
                    let j = choose|j: int| 0 <= j < sv.len() && sv[j] == k;
                    assert(all@[j]@ == k);
                }
                if k == id@ {
                    assert(all@[all@.len() - 1]@ == k);
                }
            }
        }
        if same.len() > 0 {
            let ghost s0 = same@[0]@;
            assert(sv[0] == s0);
            assert(sv.contains(s0));
            let idx = match lookup_get(&self.lookup, same[0].as_str()) {
                Some(v) => v,
                None => {
                    proof {
                        assert(lookup_of(self.lookup).dom().contains(s0));
                    }
                    0
                },
            };
            proof {
                assert(lookup_of(self.lookup).dom().contains(s0));
                assert(idx == lookup_of(self.lookup)[s0]);
                self.lemma_file(s0);
                assert forall|k: Seq<char>|
                    #![trigger lookup_of(self.lookup)[k]]
                    lookup_of(self.lookup).dom().contains(k) && lookup_of(self.lookup)[k]
                        == idx implies exists|i: int| 0 <= i < all@.len() && (#[trigger] all@[i])@ == k by {
                    self.lemma_file(k);
                    assert(before.files().dom().contains(k) && before.files()[k].0 == epath);
                    assert(sv.contains(k));
                }
            }
            self.replace_file(idx, &all, entry);
        } else {
            self.add_file(&all, entry);
        }
        proof {
            assert forall|k: Seq<char>| #[trigger] self.files().dom().contains(k) <==> before.files().dom().insert(id@).contains(k) by {
                if sv.contains(k) {
                    assert(before.files().dom().contains(k));
                }
            }
            assert(self.files().dom() =~= before.files().dom().insert(id@));
            assert forall|k: Seq<char>| #[trigger] self.files().dom().contains(k) implies self.files()[k] == if k == id@ || (
                before.files()[k].0 == epath) {
                    ev
                } else {
                    before.files()[k]
                } by {
                let last = all@.len() - 1;
                if k == id@ {
                    assert(all@[last]@ == k);
                } else {
                    assert(before.files().dom().contains(k));
                    if before.files()[k].0 == epath {
                        assert(sv.contains(k));
                        let j0 = choose|j0: int| 0 <= j0 < sv.len() && sv[j0] == k;
                        assert(all@[j0]@ == k);
                    } else {
                        assert(!sv.contains(k));
                        assert forall|j: int| 0 <= j < all@.len() implies (#[trigger] all@[j])@ != k by {
                            if j < last {
                                assert(all@[j]@ == sv[j]);
                            }
                        }
                    }
                }
            }
        }
    }

    /// Records that an entry went stale.
    pub fn invalidate(&mut self, by: InvalidatedBy)
        ensures
            final(self).invalidations() == old(self).invalidations().push(by),
            final(self).files() == old(self).files(),
            final(self).root() == old(self).root(),
            old(self).wf() ==> final(self).wf(),
    {
        self.invalidated.push(by);
    }

    /// The root of the org files.
    pub fn path(&self) -> (r: &str)
        ensures
            r@ == self.root(),
    {
        self.path.as_str()
    }

    /// Every node id with the content of its file, in the table's order.
    pub fn iter(&self) -> (r: Vec<(String, String)>)
        requires
            self.wf(),
        ensures
            forall|i: int|
                0 <= i < r@.len() ==> self.files().dom().contains((#[trigger] r@[i]).0@)
                    && self.files()[r@[i].0@].1 == r@[i].1@,
            forall|k: Seq<char>|
                #[trigger] self.files().dom().contains(k) ==> exists|i: int|
                    0 <= i < r@.len() && (#[trigger] r@[i]).0@ == k,
    {
        let pairs = lookup_pairs(&self.lookup);
        let mut r: Vec<(String, String)> = Vec::new();
        let mut i: usize = 0;
        while i < pairs.len()
            invariant
                0 <= i <= pairs@.len(),
                self.wf(),
                r@.len() == i,
                forall|a: int| 0 <= a < pairs@.len() ==> lookup_of(self.lookup).get((#[trigger] pairs@[a]).0@) == Some(pairs@[a].1),
                forall|a: int| 0 <= a < i ==> (#[trigger] r@[a]).0@ == pairs@[a].0@ && self.files().dom().contains(r@[a].0@)
                    && self.files()[r@[a].0@].1 == r@[a].1@,
            decreases pairs@.len() - i,
        {
            let (k, v) = &pairs[i];
            assert(lookup_of(self.lookup).get(pairs@[i as int].0@) == Some(pairs@[i as int].1));
            proof {
                self.lemma_file(k@);
            }
            let c = string_of(to_chars(self.entries[*v].content.as_str()).as_slice());
            let kk = string_of(to_chars(k.as_str()).as_slice());
            r.push((kk, c));
            i = i + 1;
        }
        proof {
            assert forall|k: Seq<char>| #[trigger] self.files().dom().contains(k) implies exists|i: int|
                0 <= i < r@.len() && (#[trigger] r@[i]).0@ == k by {
                let a = choose|a: int| 0 <= a < pairs@.len() && (#[trigger] pairs@[a]).0@ == k;
                assert(r@[a].0@ == k);
            }
        }
        r
    }
}

/// The ids of the texts.
fn to_ids(v: &Vec<String>) -> (r: Vec<RoamID>)
    ensures
        r@.len() == v@.len(),
        forall|i: int| 0 <= i < r@.len() ==> (#[trigger] r@[i])@ == v@[i]@,
{
    let mut r: Vec<RoamID> = Vec::new();
    let mut i: usize = 0;
    while i < v.len()
        invariant
            0 <= i <= v@.len(),
            r@.len() == i,
            forall|k: int| 0 <= k < i ==> (#[trigger] r@[k])@ == v@[k]@,
        decreases v@.len() - i,
    {
        r.push(RoamID::of_text(v[i].as_str()));
        i = i + 1;
    }
    r
}

} // verus!

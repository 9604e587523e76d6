use org_roamers::cache::{InvalidatedBy, OrgCache, OrgCacheEntry};
use org_roamers::latex::hash;
use org_roamers::types::RoamID;

fn ids(v: &[&str]) -> Vec<RoamID> {
    v.iter().map(|s| RoamID::from_text(s)).collect()
}

#[test]
fn entry_paths_are_relative_to_the_root() {
    let e = OrgCacheEntry::new("/notes", "/notes/sub/a.org", "text".into());
    assert_eq!(e.path(), "sub/a.org");
    assert_eq!(e.content(), "text");
    assert_eq!(e.get_hash(), hash("text"));
    assert!(OrgCacheEntry::open("/notes", "/other/a.org", "x".into()).is_none());
}

const V1: &str = ":PROPERTIES:
:ID: node-1
:END:
#+title: Test File

* First Heading
:PROPERTIES:
:ID: node-2
:END:
Content 1

* Second Heading  
:PROPERTIES:
:ID: node-3
:END:
Content 2
";

const V2: &str = ":PROPERTIES:
:ID: node-1
:END:
#+title: Test File UPDATED

* First Heading
:PROPERTIES:
:ID: node-2
:END:
Content 1 UPDATED

* Second Heading  
:PROPERTIES:
:ID: node-3
:END:
Content 2 UPDATED
";

fn get<'a>(cache: &'a OrgCache, id: &str) -> &'a OrgCacheEntry {
    cache.retrieve(&RoamID::from_text(id)).unwrap()
}

#[test]
fn test_submit_updates_all_nodes_from_same_file() {
    let mut cache = OrgCache::new("/notes".into());
    let v1 = OrgCacheEntry::new("/notes", "/notes/test.org", V1.into());
    cache.add_file(&ids(&["node-1", "node-2", "node-3"]), v1);
    assert!(std::ptr::eq(get(&cache, "node-1"), get(&cache, "node-2")));
    assert!(std::ptr::eq(get(&cache, "node-2"), get(&cache, "node-3")));
    let old_content = get(&cache, "node-1").content().to_string();

    let v2 = OrgCacheEntry::new("/notes", "/notes/test.org", V2.into());
    cache.submit(&RoamID::from_text("node-2"), v2);

    assert!(std::ptr::eq(get(&cache, "node-1"), get(&cache, "node-2")));
    assert!(std::ptr::eq(get(&cache, "node-2"), get(&cache, "node-3")));
    assert_ne!(get(&cache, "node-1").content(), old_content);
    for id in ["node-1", "node-2", "node-3"] {
        assert!(get(&cache, id).content().contains("UPDATED"));
    }
}

#[test]
fn test_submit_with_new_node_id() {
    let mut cache = OrgCache::new("/notes".into());
    let content = ":PROPERTIES:\n:ID: existing-node\n:END:\n#+title: Test File\n\nContent here.\n";
    let e = OrgCacheEntry::new("/notes", "/notes/test.org", content.into());
    cache.submit(&RoamID::from_text("new-node-id"), e);
    assert!(cache.retrieve(&RoamID::from_text("new-node-id")).is_some());
    assert!(get(&cache, "new-node-id").content().contains("existing-node"));
}

#[test]
fn test_submit_different_files_dont_interfere() {
    let mut cache = OrgCache::new("/notes".into());
    let c1 = ":PROPERTIES:\n:ID: file1-node\n:END:\n#+title: File 1\n\nContent 1\n";
    let c2 = ":PROPERTIES:\n:ID: file2-node\n:END:\n#+title: File 2\n\nContent 2\n";
    cache.submit(&RoamID::from_text("file1-node"), OrgCacheEntry::new("/notes", "/notes/test1.org", c1.into()));
    cache.submit(&RoamID::from_text("file2-node"), OrgCacheEntry::new("/notes", "/notes/test2.org", c2.into()));
    assert_ne!(get(&cache, "file1-node").content(), get(&cache, "file2-node").content());
    let file1_old = get(&cache, "file1-node").content().to_string();
    let file2_old = get(&cache, "file2-node").content().to_string();

    let c1_updated = ":PROPERTIES:\n:ID: file1-node\n:END:\n#+title: File 1 UPDATED\n\nContent 1 UPDATED\n";
    cache.submit(
        &RoamID::from_text("file1-node"),
        OrgCacheEntry::new("/notes", "/notes/test1.org", c1_updated.into()),
    );
    let file1_new = get(&cache, "file1-node").content().to_string();
    let file2_same = get(&cache, "file2-node").content().to_string();
    assert_ne!(file1_old, file1_new);
    assert_eq!(file2_old, file2_same);
    assert!(file1_new.contains("UPDATED"));
    assert!(!file2_same.contains("UPDATED"));
}

#[test]
fn test_submit_preserves_arc_sharing() {
    let mut cache = OrgCache::new("/notes".into());
    let content = ":PROPERTIES:\n:ID: node-1\n:END:\n#+title: Multi Node File\n\n* Section A\n:PROPERTIES:  \n:ID: node-2\n:END:\n\n* Section B\n:PROPERTIES:\n:ID: node-3  \n:END:\n";
    for id in ["node-1", "node-2", "node-3"] {
        cache.submit(&RoamID::from_text(id), OrgCacheEntry::new("/notes", "/notes/multi.org", content.into()));
    }
    assert_eq!(get(&cache, "node-1").content(), get(&cache, "node-2").content());
    assert_eq!(get(&cache, "node-2").content(), get(&cache, "node-3").content());
    // the three ids share one entry
    assert!(std::ptr::eq(get(&cache, "node-1"), get(&cache, "node-2")));
    assert!(std::ptr::eq(get(&cache, "node-2"), get(&cache, "node-3")));
}

#[test]
fn iter_and_invalidate() {
    let mut cache = OrgCache::new("/notes".into());
    cache.add_file(&ids(&["a", "b"]), OrgCacheEntry::new("/notes", "/notes/x.org", "X".into()));
    let mut all = cache.iter();
    all.sort();
    assert_eq!(all, vec![("a".to_string(), "X".to_string()), ("b".to_string(), "X".to_string())]);
    assert_eq!(cache.path(), "/notes");
    cache.invalidate(InvalidatedBy::from(RoamID::from_text("a")));
    cache.invalidate(InvalidatedBy::Path("/notes/x.org".into()));
}

use cyfs_meta::list_cache::ListCache;
use cyfs_meta::names::NameMap;
use cyfs_meta::records::{DentryTarget, FsMetaListEntry};

fn sample_entry(name: &str) -> FsMetaListEntry {
    FsMetaListEntry { name: name.to_string(), target: DentryTarget::Tombstone, inode: None }
}

fn sample_entries(names: &[&str]) -> NameMap<FsMetaListEntry> {
    let mut entries = NameMap::new();
    for name in names {
        entries.insert(name.to_string(), sample_entry(name));
    }
    entries
}

fn names_in(page: &NameMap<FsMetaListEntry>) -> Vec<&str> {
    page.rows.iter().map(|row| row.0.as_str()).collect()
}

#[test]
fn test_list_cache_paging() {
    let mut cache = ListCache::new();
    let session_id = cache.start_session(sample_entries(&["a", "b", "c"]));

    let page1 = cache.list_next(session_id, 2).unwrap();
    assert_eq!(page1.len(), 2);
    assert_eq!(names_in(&page1), vec!["a", "b"]);

    let page2 = cache.list_next(session_id, 2).unwrap();
    assert_eq!(page2.len(), 1);
    assert_eq!(names_in(&page2), vec!["c"]);

    let page3 = cache.list_next(session_id, 2).unwrap();
    assert_eq!(page3.len(), 0);
}

#[test]
fn test_stop_list_cache_session() {
    let mut cache = ListCache::new();
    let session_id = cache.start_session(sample_entries(&["x"]));
    assert!(cache.stop_session(session_id));
    assert!(cache.list_next(session_id, 1).is_none());
}

#[test]
fn names_come_in_order_whatever_order_they_went_in() {
    let mut cache = ListCache::new();
    let session_id = cache.start_session(sample_entries(&["pear", "apple", "fig"]));
    let page = cache.list_next(session_id, 10).unwrap();
    assert_eq!(names_in(&page), vec!["apple", "fig", "pear"]);
}

#[test]
fn a_page_size_of_zero_gives_all_that_is_left() {
    let mut cache = ListCache::new();
    let session_id = cache.start_session(sample_entries(&["a", "b", "c"]));
    assert_eq!(names_in(&cache.list_next(session_id, 1).unwrap()), vec!["a"]);
    assert_eq!(names_in(&cache.list_next(session_id, 0).unwrap()), vec!["b", "c"]);
}

#[test]
fn sessions_do_not_disturb_each_other() {
    let mut cache = ListCache::default();
    let one = cache.start_session(sample_entries(&["a", "b"]));
    let two = cache.start_session(sample_entries(&["x", "y"]));
    assert_ne!(one, two);
    assert_eq!(names_in(&cache.list_next(one, 1).unwrap()), vec!["a"]);
    assert_eq!(names_in(&cache.list_next(two, 1).unwrap()), vec!["x"]);
    assert!(cache.stop_session(one));
    assert!(!cache.stop_session(one));
    assert_eq!(names_in(&cache.list_next(two, 1).unwrap()), vec!["y"]);
}

#[test]
fn a_name_entered_again_replaces_its_entry() {
    let mut entries = sample_entries(&["a"]);
    let mut other = sample_entry("a");
    other.target = DentryTarget::SymLink("/t".to_string());
    entries.insert("a".to_string(), other);
    assert_eq!(entries.len(), 1);
    assert_eq!(entries.get("a").unwrap().target, DentryTarget::SymLink("/t".to_string()));
    entries.remove("a");
    assert!(entries.get("a").is_none());
}

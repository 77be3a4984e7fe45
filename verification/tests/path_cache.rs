use cyfs_meta::path_cache::{
    PathResolveCache, PathResolveCacheItemType, PathResolveTerminalValue,
};
use cyfs_meta::records::ObjId;

fn components(parts: &[&str]) -> Vec<String> {
    parts.iter().map(|s| s.to_string()).collect()
}

fn create_obj_id(seed: u8) -> ObjId {
    ObjId::new("file".to_string(), format!("{:02x}", seed).repeat(32))
}

#[test]
fn test_put_and_get_single_component() {
    let mut cache = PathResolveCache::default();
    cache.put_ids_for_path(components(&["a"]), vec![1, 2]);

    let result = cache.get_ids_for_path(&["a"]);
    assert_eq!(result, Some(vec![1, 2]));
}

#[test]
fn test_put_and_get_multiple_components() {
    let mut cache = PathResolveCache::default();
    cache.put_ids_for_path(components(&["a", "b", "c"]), vec![1, 2, 3, 4]);

    let result = cache.get_ids_for_path(&["a", "b", "c"]);
    assert_eq!(result, Some(vec![1, 2, 3, 4]));
}

#[test]
fn test_get_nonexistent_path() {
    let mut cache = PathResolveCache::default();
    cache.put_ids_for_path(components(&["a"]), vec![1, 2]);

    let result = cache.get_ids_for_path(&["b"]);
    assert_eq!(result, None);

    let result = cache.get_ids_for_path(&["a", "b"]);
    assert_eq!(result, None);
}

#[test]
fn test_get_empty_cache() {
    let mut cache = PathResolveCache::default();
    let result = cache.get_ids_for_path(&["a"]);
    assert_eq!(result, None);
}

#[test]
fn test_get_longest_prefix_ids_for_path() {
    let mut cache = PathResolveCache::default();
    cache.put_ids_for_path(components(&["a", "b", "c"]), vec![1, 2, 3, 4]);

    let prefix = cache.get_longest_prefix_ids_for_path(&["a", "b", "c", "d"]);
    assert_eq!(prefix, Some(vec![1, 2, 3, 4]));

    let prefix2 = cache.get_longest_prefix_ids_for_path(&["a", "x"]);
    assert_eq!(prefix2, Some(vec![1, 2]));
}

#[test]
fn test_terminal_symlink_hit_and_type() {
    let mut cache = PathResolveCache::default();
    cache.put_terminal_for_path(
        components(&["a", "link"]),
        vec![1, 2],
        PathResolveTerminalValue::SymLink("../target".to_string()),
    );

    let hit = cache
        .get_terminal_for_path(&["a", "link", "child"])
        .expect("expected terminal cache hit");
    assert_eq!(hit.matched_len, 2);
    assert_eq!(
        hit.value,
        PathResolveTerminalValue::SymLink("../target".to_string())
    );
    assert_eq!(
        cache.get_item_type_for_path(&["a", "link"]),
        Some(PathResolveCacheItemType::TerminalSymLink)
    );
}

#[test]
fn test_terminal_obj_hit_and_type() {
    let mut cache = PathResolveCache::default();
    let obj_id = create_obj_id(7);
    cache.put_terminal_for_path(
        components(&["a", "obj"]),
        vec![1, 2],
        PathResolveTerminalValue::ObjId(obj_id.clone()),
    );

    let hit = cache
        .get_terminal_for_path(&["a", "obj", "inner", "p"])
        .expect("expected terminal cache hit");
    assert_eq!(hit.matched_len, 2);
    assert_eq!(hit.value, PathResolveTerminalValue::ObjId(obj_id));
    assert_eq!(
        cache.get_item_type_for_path(&["a", "obj"]),
        Some(PathResolveCacheItemType::TerminalObjId)
    );
}

#[test]
fn test_terminal_entry_invalidate_by_edge() {
    let mut cache = PathResolveCache::default();
    cache.put_terminal_for_path(
        components(&["a", "link"]),
        vec![1, 2],
        PathResolveTerminalValue::SymLink("/target".to_string()),
    );
    assert!(cache.get_terminal_for_path(&["a", "link"]).is_some());

    cache.invalidate_by_edge(2, "link");
    assert!(cache.get_terminal_for_path(&["a", "link"]).is_none());
}

#[test]
fn test_put_with_mismatched_ids_length_too_short() {
    let mut cache = PathResolveCache::default();
    cache.put_ids_for_path(components(&["a", "b"]), vec![1, 2]);

    let result = cache.get_ids_for_path(&["a", "b"]);
    assert_eq!(result, None);
}

#[test]
fn test_put_with_mismatched_ids_length_too_long() {
    let mut cache = PathResolveCache::default();
    cache.put_ids_for_path(components(&["a", "b"]), vec![1, 2, 3, 4]);

    let result = cache.get_ids_for_path(&["a", "b"]);
    assert_eq!(result, None);
}

#[test]
fn test_put_empty_path_with_single_id() {
    let mut cache = PathResolveCache::default();
    cache.put_ids_for_path(vec![], vec![1]);

    let result = cache.get_ids_for_path(&[]);
    assert_eq!(result, Some(vec![1]));
}

#[test]
fn test_deep_covers_shallow() {
    let mut cache = PathResolveCache::default();

    cache.put_ids_for_path(components(&["a"]), vec![1, 2]);
    assert_eq!(cache.get_ids_for_path(&["a"]), Some(vec![1, 2]));

    cache.put_ids_for_path(components(&["a", "b"]), vec![1, 2, 3]);

    assert_eq!(cache.get_ids_for_path(&["a", "b"]), Some(vec![1, 2, 3]));

    let result = cache.get_ids_for_path(&["a"]);
    assert_eq!(result, Some(vec![1, 2]));
}

#[test]
fn test_deep_covers_shallow_multiple_levels() {
    let mut cache = PathResolveCache::default();

    cache.put_ids_for_path(components(&["a"]), vec![1, 2]);
    cache.put_ids_for_path(components(&["a", "b"]), vec![1, 2, 3]);
    cache.put_ids_for_path(components(&["a", "b", "c"]), vec![1, 2, 3, 4]);

    assert_eq!(cache.get_ids_for_path(&["a"]), Some(vec![1, 2]));
    assert_eq!(cache.get_ids_for_path(&["a", "b"]), Some(vec![1, 2, 3]));
    assert_eq!(
        cache.get_ids_for_path(&["a", "b", "c"]),
        Some(vec![1, 2, 3, 4])
    );
}

#[test]
fn test_deepest_propagates_correctly() {
    let mut cache = PathResolveCache::default();

    cache.put_ids_for_path(components(&["a", "b", "c", "d"]), vec![1, 2, 3, 4, 5]);

    assert_eq!(cache.get_ids_for_path(&["a"]), Some(vec![1, 2]));
    assert_eq!(cache.get_ids_for_path(&["a", "b"]), Some(vec![1, 2, 3]));
    assert_eq!(
        cache.get_ids_for_path(&["a", "b", "c"]),
        Some(vec![1, 2, 3, 4])
    );
}

#[test]
fn test_multiple_branches_independent() {
    let mut cache = PathResolveCache::default();

    cache.put_ids_for_path(components(&["a", "x"]), vec![1, 2, 3]);
    cache.put_ids_for_path(components(&["b", "y"]), vec![1, 10, 11]);

    assert_eq!(cache.get_ids_for_path(&["a", "x"]), Some(vec![1, 2, 3]));
    assert_eq!(cache.get_ids_for_path(&["b", "y"]), Some(vec![1, 10, 11]));

    assert_eq!(cache.get_ids_for_path(&["a", "y"]), None);
    assert_eq!(cache.get_ids_for_path(&["b", "x"]), None);
}

#[test]
fn test_sibling_branches() {
    let mut cache = PathResolveCache::default();

    cache.put_ids_for_path(components(&["a", "b1"]), vec![1, 2, 3]);
    cache.put_ids_for_path(components(&["a", "b2"]), vec![1, 2, 4]);

    assert_eq!(cache.get_ids_for_path(&["a", "b1"]), Some(vec![1, 2, 3]));
    assert_eq!(cache.get_ids_for_path(&["a", "b2"]), Some(vec![1, 2, 4]));

    let result = cache.get_ids_for_path(&["a"]);
    assert!(result == Some(vec![1, 2]));
}

#[test]
fn test_deepest_selects_longer_branch() {
    let mut cache = PathResolveCache::default();

    cache.put_ids_for_path(components(&["a", "short"]), vec![1, 2, 3]);
    cache.put_ids_for_path(components(&["a", "long", "path"]), vec![1, 2, 10, 11]);

    let result = cache.get_ids_for_path(&["a"]);
    assert_eq!(result, Some(vec![1, 2]));

    assert_eq!(cache.get_ids_for_path(&["a", "short"]), Some(vec![1, 2, 3]));

    assert_eq!(cache.get_ids_for_path(&["a", "long"]), Some(vec![1, 2, 10]));
}

#[test]
fn test_invalidate_by_edge_simple() {
    let mut cache = PathResolveCache::default();

    cache.put_ids_for_path(components(&["a", "b"]), vec![1, 2, 3]);
    assert_eq!(cache.get_ids_for_path(&["a", "b"]), Some(vec![1, 2, 3]));

    cache.invalidate_by_edge(1, "a");

    assert_eq!(cache.get_ids_for_path(&["a"]), None);
    assert_eq!(cache.get_ids_for_path(&["a", "b"]), None);
}

#[test]
fn test_invalidate_by_edge_subtree() {
    let mut cache = PathResolveCache::default();

    cache.put_ids_for_path(components(&["a", "b", "c"]), vec![1, 2, 3, 4]);
    cache.put_ids_for_path(components(&["a", "b", "d"]), vec![1, 2, 3, 5]);

    cache.invalidate_by_edge(2, "b");

    assert_eq!(cache.get_ids_for_path(&["a", "b"]), None);
    assert_eq!(cache.get_ids_for_path(&["a", "b", "c"]), None);
    assert_eq!(cache.get_ids_for_path(&["a", "b", "d"]), None);

    assert_eq!(cache.get_ids_for_path(&["a"]), None);
}

#[test]
fn test_invalidate_by_edge_leaf_only() {
    let mut cache = PathResolveCache::default();

    cache.put_ids_for_path(components(&["a", "b", "c"]), vec![1, 2, 3, 4]);

    cache.invalidate_by_edge(3, "c");

    assert_eq!(cache.get_ids_for_path(&["a", "b", "c"]), None);

    assert_eq!(cache.get_ids_for_path(&["a", "b"]), None);
    assert_eq!(cache.get_ids_for_path(&["a"]), None);
}

#[test]
fn test_invalidate_by_edge_preserves_sibling() {
    let mut cache = PathResolveCache::default();

    cache.put_ids_for_path(components(&["a", "b1"]), vec![1, 2, 3]);
    cache.put_ids_for_path(components(&["a", "b2"]), vec![1, 2, 4]);

    cache.invalidate_by_edge(2, "b1");

    assert_eq!(cache.get_ids_for_path(&["a", "b1"]), None);

    assert_eq!(cache.get_ids_for_path(&["a", "b2"]), Some(vec![1, 2, 4]));

    assert_eq!(cache.get_ids_for_path(&["a"]), Some(vec![1, 2]));
}

#[test]
fn test_invalidate_nonexistent_edge() {
    let mut cache = PathResolveCache::default();

    cache.put_ids_for_path(components(&["a"]), vec![1, 2]);

    cache.invalidate_by_edge(999, "nonexistent");

    assert_eq!(cache.get_ids_for_path(&["a"]), Some(vec![1, 2]));
}

#[test]
fn test_invalidate_root_edge() {
    let mut cache = PathResolveCache::default();

    cache.put_ids_for_path(components(&["a"]), vec![1, 2]);
    cache.put_ids_for_path(components(&["b"]), vec![1, 3]);

    cache.invalidate_by_edge(1, "a");

    assert_eq!(cache.get_ids_for_path(&["a"]), None);
    assert_eq!(cache.get_ids_for_path(&["b"]), Some(vec![1, 3]));
}

#[test]
fn test_edge_index_built_correctly() {
    let mut cache = PathResolveCache::default();

    cache.put_ids_for_path(components(&["a", "b", "c"]), vec![1, 2, 3, 4]);

    cache.invalidate_by_edge(2, "b");

    assert_eq!(cache.get_ids_for_path(&["a"]), None);

    cache.put_ids_for_path(components(&["a"]), vec![1, 2]);
    assert_eq!(cache.get_ids_for_path(&["a"]), Some(vec![1, 2]));
}

#[test]
fn test_edge_index_updated_on_overwrite() {
    let mut cache = PathResolveCache::default();

    cache.put_ids_for_path(components(&["a", "b"]), vec![1, 2, 3]);

    cache.put_ids_for_path(components(&["a", "b"]), vec![1, 20, 30]);

    cache.invalidate_by_edge(20, "b");

    assert_eq!(cache.get_ids_for_path(&["a", "b"]), None);
}

#[test]
fn test_overwrite_same_path() {
    let mut cache = PathResolveCache::default();

    cache.put_ids_for_path(components(&["a"]), vec![1, 2]);
    assert_eq!(cache.get_ids_for_path(&["a"]), Some(vec![1, 2]));

    cache.put_ids_for_path(components(&["a"]), vec![1, 100]);
    assert_eq!(cache.get_ids_for_path(&["a"]), Some(vec![1, 100]));
}

#[test]
fn test_shorter_path_after_longer() {
    let mut cache = PathResolveCache::default();

    cache.put_ids_for_path(components(&["a", "b", "c"]), vec![1, 2, 3, 4]);

    cache.put_ids_for_path(components(&["a"]), vec![1, 2]);

    assert_eq!(cache.get_ids_for_path(&["a"]), Some(vec![1, 2]));
    assert_eq!(
        cache.get_ids_for_path(&["a", "b", "c"]),
        Some(vec![1, 2, 3, 4])
    );
}

#[test]
fn test_path_with_special_characters() {
    let mut cache = PathResolveCache::default();

    cache.put_ids_for_path(components(&["a b", "c.d", "e-f_g"]), vec![1, 2, 3, 4]);

    assert_eq!(
        cache.get_ids_for_path(&["a b", "c.d", "e-f_g"]),
        Some(vec![1, 2, 3, 4])
    );
}

#[test]
fn test_path_with_unicode() {
    let mut cache = PathResolveCache::default();

    cache.put_ids_for_path(components(&["文件夹", "文件"]), vec![1, 2, 3]);

    assert_eq!(
        cache.get_ids_for_path(&["文件夹", "文件"]),
        Some(vec![1, 2, 3])
    );
    assert_eq!(cache.get_ids_for_path(&["文件夹"]), Some(vec![1, 2]));
}

#[test]
fn test_path_with_empty_string_component() {
    let mut cache = PathResolveCache::default();

    cache.put_ids_for_path(components(&["a", "", "b"]), vec![1, 2, 3, 4]);

    assert_eq!(
        cache.get_ids_for_path(&["a", "", "b"]),
        Some(vec![1, 2, 3, 4])
    );
}

#[test]
fn test_very_long_path() {
    let mut cache = PathResolveCache::default();

    let long_path: Vec<String> = (0..100).map(|i| format!("dir{}", i)).collect();
    let long_ids: Vec<u64> = (1..=101).collect();

    let path_refs: Vec<&str> = long_path.iter().map(|s| s.as_str()).collect();

    cache.put_ids_for_path(long_path.clone(), long_ids.clone());

    assert_eq!(cache.get_ids_for_path(&path_refs), Some(long_ids));
}

#[test]
fn test_deepest_recomputed_after_invalidation() {
    let mut cache = PathResolveCache::default();

    cache.put_ids_for_path(components(&["a", "deep", "path"]), vec![1, 2, 3, 4]);
    cache.put_ids_for_path(components(&["a", "short"]), vec![1, 2, 10]);

    assert_eq!(cache.get_ids_for_path(&["a"]), Some(vec![1, 2]));

    cache.invalidate_by_edge(2, "deep");

    assert_eq!(cache.get_ids_for_path(&["a"]), Some(vec![1, 2]));
    assert_eq!(
        cache.get_ids_for_path(&["a", "short"]),
        Some(vec![1, 2, 10])
    );
}

#[test]
fn test_deepest_recomputed_when_all_children_removed() {
    let mut cache = PathResolveCache::default();

    cache.put_ids_for_path(components(&["a", "b"]), vec![1, 2, 3]);

    cache.invalidate_by_edge(2, "b");

    assert_eq!(cache.get_ids_for_path(&["a"]), None);
}

#[test]
fn test_rapid_insert_invalidate_cycle() {
    let mut cache = PathResolveCache::default();

    for i in 0..10 {
        let name = format!("item{}", i);
        cache.put_ids_for_path(vec![name.clone()], vec![1, i as u64 + 10]);

        if i % 2 == 0 {
            cache.invalidate_by_edge(1, &name);
        }
    }

    for i in 0..10 {
        let name = format!("item{}", i);
        let result = cache.get_ids_for_path(&[&name]);
        if i % 2 == 0 {
            assert_eq!(result, None, "item{} should be invalidated", i);
        } else {
            assert_eq!(
                result,
                Some(vec![1, i as u64 + 10]),
                "item{} should exist",
                i
            );
        }
    }
}

#[test]
fn test_rebuild_after_full_invalidation() {
    let mut cache = PathResolveCache::default();

    cache.put_ids_for_path(components(&["a", "b", "c"]), vec![1, 2, 3, 4]);
    cache.put_ids_for_path(components(&["a", "b", "d"]), vec![1, 2, 3, 5]);

    cache.invalidate_by_edge(1, "a");

    assert_eq!(cache.get_ids_for_path(&["a"]), None);

    cache.put_ids_for_path(components(&["a", "b", "c"]), vec![1, 20, 30, 40]);

    assert_eq!(
        cache.get_ids_for_path(&["a", "b", "c"]),
        Some(vec![1, 20, 30, 40])
    );
}

#[test]
fn test_get_returns_correct_prefix_length() {
    let mut cache = PathResolveCache::default();

    cache.put_ids_for_path(components(&["a", "b", "c", "d"]), vec![1, 2, 3, 4, 5]);

    assert_eq!(cache.get_ids_for_path(&["a"]), Some(vec![1, 2]));

    assert_eq!(cache.get_ids_for_path(&["a", "b"]), Some(vec![1, 2, 3]));

    assert_eq!(
        cache.get_ids_for_path(&["a", "b", "c"]),
        Some(vec![1, 2, 3, 4])
    );
}

#[test]
fn test_get_returns_none_when_deepest_too_shallow() {
    let mut cache = PathResolveCache::default();

    cache.put_ids_for_path(components(&["a"]), vec![1, 2]);

    assert_eq!(cache.get_ids_for_path(&["a", "b"]), None);
}

#[test]
fn test_many_entries_same_parent() {
    let mut cache = PathResolveCache::default();

    for i in 0..100 {
        let name = format!("child{}", i);
        cache.put_ids_for_path(vec!["parent".to_string(), name], vec![1, 2, i as u64 + 100]);
    }

    for i in 0..100 {
        let name = format!("child{}", i);
        assert_eq!(
            cache.get_ids_for_path(&["parent", &name]),
            Some(vec![1, 2, i as u64 + 100])
        );
    }

    assert_eq!(cache.get_ids_for_path(&["parent"]), Some(vec![1, 2]));
}

#[test]
fn test_deeply_nested_structure() {
    let mut cache = PathResolveCache::default();

    let depth = 50;
    for d in 1..=depth {
        let path: Vec<String> = (0..d).map(|i| format!("level{}", i)).collect();
        let ids: Vec<u64> = (1..=d as u64 + 1).collect();
        cache.put_ids_for_path(path, ids);
    }

    for d in 1..=depth {
        let names: Vec<String> = (0..d).map(|i| format!("level{}", i)).collect();
        let path: Vec<&str> = names.iter().map(|s| s.as_str()).collect();
        let expected: Vec<u64> = (1..=d as u64 + 1).collect();
        assert_eq!(cache.get_ids_for_path(&path), Some(expected));
    }
}

#[test]
fn test_lru_basic_eviction() {
    let mut cache = PathResolveCache::new(3);

    cache.put_ids_for_path(components(&["a"]), vec![1, 2]);
    cache.put_ids_for_path(components(&["b"]), vec![1, 3]);
    cache.put_ids_for_path(components(&["c"]), vec![1, 4]);

    assert_eq!(cache.len(), 3);
    assert_eq!(cache.get_ids_for_path(&["a"]), Some(vec![1, 2]));
    assert_eq!(cache.get_ids_for_path(&["b"]), Some(vec![1, 3]));
    assert_eq!(cache.get_ids_for_path(&["c"]), Some(vec![1, 4]));

    cache.put_ids_for_path(components(&["d"]), vec![1, 5]);

    assert_eq!(cache.len(), 3);
    assert_eq!(cache.get_ids_for_path(&["a"]), None);
    assert_eq!(cache.get_ids_for_path(&["b"]), Some(vec![1, 3]));
    assert_eq!(cache.get_ids_for_path(&["c"]), Some(vec![1, 4]));
    assert_eq!(cache.get_ids_for_path(&["d"]), Some(vec![1, 5]));
}

#[test]
fn test_lru_access_refreshes_entry() {
    let mut cache = PathResolveCache::new(3);

    cache.put_ids_for_path(components(&["a"]), vec![1, 2]);
    cache.put_ids_for_path(components(&["b"]), vec![1, 3]);
    cache.put_ids_for_path(components(&["c"]), vec![1, 4]);

    let _ = cache.get_ids_for_path(&["a"]);

    cache.put_ids_for_path(components(&["d"]), vec![1, 5]);

    assert_eq!(cache.len(), 3);
    assert_eq!(cache.get_ids_for_path(&["a"]), Some(vec![1, 2]));
    assert_eq!(cache.get_ids_for_path(&["b"]), None);
    assert_eq!(cache.get_ids_for_path(&["c"]), Some(vec![1, 4]));
    assert_eq!(cache.get_ids_for_path(&["d"]), Some(vec![1, 5]));
}

#[test]
fn test_lru_overwrite_does_not_increase_count() {
    let mut cache = PathResolveCache::new(3);

    cache.put_ids_for_path(components(&["a"]), vec![1, 2]);
    cache.put_ids_for_path(components(&["b"]), vec![1, 3]);
    cache.put_ids_for_path(components(&["c"]), vec![1, 4]);

    assert_eq!(cache.len(), 3);

    cache.put_ids_for_path(components(&["a"]), vec![1, 20]);

    assert_eq!(cache.len(), 3);
    assert_eq!(cache.get_ids_for_path(&["a"]), Some(vec![1, 20]));
    assert_eq!(cache.get_ids_for_path(&["b"]), Some(vec![1, 3]));
    assert_eq!(cache.get_ids_for_path(&["c"]), Some(vec![1, 4]));
}

#[test]
fn test_lru_invalidation_updates_count() {
    let mut cache = PathResolveCache::new(5);

    cache.put_ids_for_path(components(&["a"]), vec![1, 2]);
    cache.put_ids_for_path(components(&["b"]), vec![1, 3]);
    cache.put_ids_for_path(components(&["c"]), vec![1, 4]);

    assert_eq!(cache.len(), 3);

    cache.invalidate_by_edge(1, "b");

    assert_eq!(cache.len(), 2);
    assert_eq!(cache.get_ids_for_path(&["a"]), Some(vec![1, 2]));
    assert_eq!(cache.get_ids_for_path(&["b"]), None);
    assert_eq!(cache.get_ids_for_path(&["c"]), Some(vec![1, 4]));
}

#[test]
fn test_lru_subtree_invalidation_updates_count() {
    let mut cache = PathResolveCache::new(10);

    cache.put_ids_for_path(components(&["a", "b", "c"]), vec![1, 2, 3, 4]);
    cache.put_ids_for_path(components(&["a", "b", "d"]), vec![1, 2, 3, 5]);
    cache.put_ids_for_path(components(&["a", "e"]), vec![1, 2, 6]);

    assert_eq!(cache.len(), 3);

    cache.invalidate_by_edge(2, "b");

    assert_eq!(cache.len(), 1);
    assert_eq!(cache.get_ids_for_path(&["a", "e"]), Some(vec![1, 2, 6]));
}

#[test]
fn test_lru_eviction_order() {
    let mut cache = PathResolveCache::new(3);

    cache.put_ids_for_path(components(&["a"]), vec![1, 2]);
    cache.put_ids_for_path(components(&["b"]), vec![1, 3]);
    cache.put_ids_for_path(components(&["c"]), vec![1, 4]);

    let _ = cache.get_ids_for_path(&["c"]);
    let _ = cache.get_ids_for_path(&["a"]);

    cache.put_ids_for_path(components(&["d"]), vec![1, 5]);

    assert_eq!(cache.get_ids_for_path(&["b"]), None);

    assert_eq!(cache.get_ids_for_path(&["a"]), Some(vec![1, 2]));
    assert_eq!(cache.get_ids_for_path(&["c"]), Some(vec![1, 4]));
    assert_eq!(cache.get_ids_for_path(&["d"]), Some(vec![1, 5]));

    cache.put_ids_for_path(components(&["e"]), vec![1, 6]);

    assert_eq!(cache.get_ids_for_path(&["a"]), None);
    assert_eq!(cache.get_ids_for_path(&["c"]), Some(vec![1, 4]));
    assert_eq!(cache.get_ids_for_path(&["d"]), Some(vec![1, 5]));
    assert_eq!(cache.get_ids_for_path(&["e"]), Some(vec![1, 6]));
}

#[test]
fn test_lru_with_capacity_one() {
    let mut cache = PathResolveCache::new(1);

    cache.put_ids_for_path(components(&["a"]), vec![1, 2]);
    assert_eq!(cache.len(), 1);
    assert_eq!(cache.get_ids_for_path(&["a"]), Some(vec![1, 2]));

    cache.put_ids_for_path(components(&["b"]), vec![1, 3]);
    assert_eq!(cache.len(), 1);
    assert_eq!(cache.get_ids_for_path(&["a"]), None);
    assert_eq!(cache.get_ids_for_path(&["b"]), Some(vec![1, 3]));
}

#[test]
fn test_lru_deep_covers_shallow_eviction() {
    let mut cache = PathResolveCache::new(3);

    cache.put_ids_for_path(components(&["a"]), vec![1, 2]);
    assert_eq!(cache.len(), 1);

    cache.put_ids_for_path(components(&["a", "b"]), vec![1, 2, 3]);
    assert_eq!(cache.len(), 1);

    assert_eq!(cache.get_ids_for_path(&["a"]), Some(vec![1, 2]));
    assert_eq!(cache.get_ids_for_path(&["a", "b"]), Some(vec![1, 2, 3]));
}

#[test]
fn test_lru_stress_many_evictions() {
    let mut cache = PathResolveCache::new(10);

    for i in 0..100u64 {
        let name = format!("item{}", i);
        cache.put_ids_for_path(vec![name], vec![1, i + 10]);
    }

    assert_eq!(cache.len(), 10);

    for i in 0..90u64 {
        let name = format!("item{}", i);
        assert_eq!(
            cache.get_ids_for_path(&[&name]),
            None,
            "item{} should be evicted",
            i
        );
    }
    for i in 90..100u64 {
        let name = format!("item{}", i);
        assert_eq!(
            cache.get_ids_for_path(&[&name]),
            Some(vec![1, i + 10]),
            "item{} should exist",
            i
        );
    }
}

#[test]
fn test_lru_access_during_stress() {
    let mut cache = PathResolveCache::new(5);

    for i in 0..5u64 {
        let name = format!("item{}", i);
        cache.put_ids_for_path(vec![name], vec![1, i + 10]);
    }

    for n in 0..10u64 {
        let _ = cache.get_ids_for_path(&["item0"]);

        let name = format!("new{}", n);
        cache.put_ids_for_path(vec![name], vec![1, 999]);
    }

    assert_eq!(cache.get_ids_for_path(&["item0"]), Some(vec![1, 10]));
}

#[test]
fn test_lru_entry_count_consistency() {
    let mut cache = PathResolveCache::new(5);

    cache.put_ids_for_path(components(&["a"]), vec![1, 2]);
    cache.put_ids_for_path(components(&["b"]), vec![1, 3]);
    assert_eq!(cache.len(), 2);

    cache.put_ids_for_path(components(&["a"]), vec![1, 20]);
    assert_eq!(cache.len(), 2);

    cache.put_ids_for_path(components(&["a", "x"]), vec![1, 20, 30]);
    assert_eq!(cache.len(), 2);

    cache.invalidate_by_edge(1, "a");
    assert_eq!(cache.len(), 1);

    cache.put_ids_for_path(components(&["c"]), vec![1, 4]);
    cache.put_ids_for_path(components(&["d"]), vec![1, 5]);
    assert_eq!(cache.len(), 3);
}

#[test]
fn test_lru_zero_capacity() {
    let mut cache = PathResolveCache::new(0);

    cache.put_ids_for_path(components(&["a"]), vec![1, 2]);

    assert_eq!(cache.len(), 1);

    cache.put_ids_for_path(components(&["b"]), vec![1, 3]);
    assert_eq!(cache.len(), 1);
    assert_eq!(cache.get_ids_for_path(&["a"]), None);
    assert_eq!(cache.get_ids_for_path(&["b"]), Some(vec![1, 3]));
}

#[test]
fn test_lru_large_capacity() {
    let mut cache = PathResolveCache::new(1000);

    for i in 0..100u64 {
        let name = format!("item{}", i);
        cache.put_ids_for_path(vec![name], vec![1, i + 10]);
    }

    assert_eq!(cache.len(), 100);

    for i in 0..100u64 {
        let name = format!("item{}", i);
        assert_eq!(cache.get_ids_for_path(&[&name]), Some(vec![1, i + 10]));
    }
}

#[test]
fn test_lru_eviction_with_deep_paths() {
    let mut cache = PathResolveCache::new(3);

    cache.put_ids_for_path(components(&["a", "b", "c"]), vec![1, 2, 3, 4]);
    cache.put_ids_for_path(components(&["x", "y"]), vec![1, 10, 11]);
    cache.put_ids_for_path(components(&["m"]), vec![1, 20]);

    assert_eq!(cache.len(), 3);

    cache.put_ids_for_path(components(&["n"]), vec![1, 21]);

    assert_eq!(cache.len(), 3);
    assert_eq!(cache.get_ids_for_path(&["a", "b", "c"]), None);
    assert_eq!(cache.get_ids_for_path(&["x", "y"]), Some(vec![1, 10, 11]));
    assert_eq!(cache.get_ids_for_path(&["m"]), Some(vec![1, 20]));
    assert_eq!(cache.get_ids_for_path(&["n"]), Some(vec![1, 21]));
}

#[test]
fn test_lru_eviction_cleans_tree_structure() {
    let mut cache = PathResolveCache::new(2);

    cache.put_ids_for_path(components(&["a", "b"]), vec![1, 2, 3]);
    cache.put_ids_for_path(components(&["a", "c"]), vec![1, 2, 4]);

    assert_eq!(cache.len(), 2);

    cache.put_ids_for_path(components(&["x"]), vec![1, 10]);

    assert_eq!(cache.len(), 2);
    assert_eq!(cache.get_ids_for_path(&["a", "b"]), None);
    assert_eq!(cache.get_ids_for_path(&["a", "c"]), Some(vec![1, 2, 4]));
    assert_eq!(cache.get_ids_for_path(&["x"]), Some(vec![1, 10]));

    assert_eq!(cache.get_ids_for_path(&["a"]), Some(vec![1, 2]));
}

#[test]
fn a_prefix_is_dropped_with_all_below_it() {
    let mut cache = PathResolveCache::new(10);
    cache.put_ids_for_path(components(&["a", "b"]), vec![1, 2, 3]);
    cache.put_ids_for_path(components(&["ab"]), vec![1, 9]);
    cache.invalidate_prefix(&["a"]);
    assert_eq!(cache.get_ids_for_path(&["a", "b"]), None);
    assert_eq!(cache.get_ids_for_path(&["a"]), None);
    assert_eq!(cache.get_ids_for_path(&["ab"]), Some(vec![1, 9]));
    cache.invalidate_prefix(&["nothing"]);
    assert_eq!(cache.len(), 1);
}

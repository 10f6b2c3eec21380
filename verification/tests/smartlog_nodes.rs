use commit_cloud::entities::LocalBookmarksMap;
use commit_cloud::entities::RawSmartlogData;
use commit_cloud::entities::RemoteBookmark;
use commit_cloud::entities::RemoteBookmarksMap;
use commit_cloud::entities::WorkspaceHead;
use commit_cloud::ids::HgChangesetId;
use commit_cloud::ids::HgId;
use commit_cloud::listmap::ListMap;

fn commit(n: u8) -> HgChangesetId {
    HgChangesetId::from_bytes([n; 20])
}

fn remote_bookmark(name: &str, n: u8) -> RemoteBookmark {
    RemoteBookmark {
        remote: "remote".to_string(),
        name: name.to_string(),
        node: Some(HgId::from_bytes([n; 20])),
    }
}

#[test]
fn collapse_puts_heads_then_remote_then_local() {
    let mut remote: RemoteBookmarksMap = ListMap::new();
    remote.insert(commit(2), vec![remote_bookmark("main", 2)]);
    let mut local: LocalBookmarksMap = ListMap::new();
    local.insert(commit(3), vec!["feature".to_string()]);
    let data = RawSmartlogData {
        heads: vec![WorkspaceHead { commit: commit(1) }],
        local_bookmarks: Some(local),
        remote_bookmarks: Some(remote),
    };
    assert_eq!(data.collapse_into_vec(), vec![commit(1), commit(2), commit(3)]);
}

#[test]
fn collapse_keeps_duplicates_across_categories() {
    let mut remote: RemoteBookmarksMap = ListMap::new();
    remote.insert(commit(1), vec![remote_bookmark("main", 1)]);
    let mut local: LocalBookmarksMap = ListMap::new();
    local.insert(commit(1), vec!["feature".to_string()]);
    local.insert(commit(7), vec!["other".to_string()]);
    let data = RawSmartlogData {
        heads: vec![WorkspaceHead { commit: commit(1) }, WorkspaceHead { commit: commit(1) }],
        local_bookmarks: Some(local),
        remote_bookmarks: Some(remote),
    };
    assert_eq!(
        data.collapse_into_vec(),
        vec![commit(1), commit(1), commit(1), commit(1), commit(7)]
    );
}

#[test]
fn collapse_of_heads_alone() {
    let data = RawSmartlogData {
        heads: vec![WorkspaceHead { commit: commit(4) }, WorkspaceHead { commit: commit(5) }],
        local_bookmarks: None,
        remote_bookmarks: None,
    };
    assert_eq!(data.collapse_into_vec(), vec![commit(4), commit(5)]);
}

#[test]
fn collapse_with_one_category_absent() {
    let mut local: LocalBookmarksMap = ListMap::new();
    local.insert(commit(9), vec!["a".to_string()]);
    local.insert(commit(8), vec!["b".to_string()]);
    let data = RawSmartlogData {
        heads: vec![WorkspaceHead { commit: commit(4) }],
        local_bookmarks: Some(local),
        remote_bookmarks: None,
    };
    assert_eq!(data.collapse_into_vec(), vec![commit(4), commit(9), commit(8)]);
}

#[test]
fn collapse_of_nothing_is_empty() {
    let local: LocalBookmarksMap = ListMap::new();
    let remote: RemoteBookmarksMap = ListMap::new();
    let data = RawSmartlogData {
        heads: vec![],
        local_bookmarks: Some(local),
        remote_bookmarks: Some(remote),
    };
    assert!(data.collapse_into_vec().is_empty());
}

#[test]
fn list_map_walks_keys_in_the_order_they_came() {
    let mut map: ListMap<HgChangesetId, u32> = ListMap::new();
    map.insert(commit(3), 30);
    map.insert(commit(1), 10);
    map.insert(commit(2), 20);
    assert_eq!(map.len(), 3);
    assert_eq!(*map.key_at(0), commit(3));
    assert_eq!(*map.key_at(1), commit(1));
    assert_eq!(*map.key_at(2), commit(2));
    assert_eq!(*map.value_at(1), 10);
}

#[test]
fn list_map_insert_replaces_the_value_in_place() {
    let mut map: ListMap<String, u32> = ListMap::new();
    map.insert("a".to_string(), 1);
    map.insert("b".to_string(), 2);
    map.insert("a".to_string(), 3);
    assert_eq!(map.len(), 2);
    assert_eq!(map.key_at(0), "a");
    assert_eq!(map.get(&"a".to_string()), Some(&3));
    assert_eq!(map.get(&"b".to_string()), Some(&2));
    assert_eq!(map.get(&"c".to_string()), None);
    assert_eq!(map.find(&"b".to_string()), Some(1));
    assert_eq!(map.find(&"z".to_string()), None);
}

#[test]
fn identifiers_compare_by_their_bytes() {
    let mut bytes = [0u8; 20];
    bytes[19] = 1;
    let a = HgChangesetId::from_bytes(bytes);
    let b = HgChangesetId::from_bytes(bytes);
    let c = HgChangesetId::from_bytes([0u8; 20]);
    assert!(a.same(&b));
    assert!(!a.same(&c));
    assert!(HgId::from_native(a).same(&HgId::from_bytes(bytes)));
    assert!(!HgId::from_native(a).same(&HgId::from_native(c)));
}

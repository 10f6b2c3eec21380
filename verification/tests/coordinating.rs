use commit_cloud::entities::ClientRequestInfo;
use commit_cloud::entities::CommitCloudContext;
use commit_cloud::entities::RemoteBookmark;
use commit_cloud::entities::WriteScope;
use commit_cloud::ids::HgId;
use commit_cloud::listmap::ListMap;
use commit_cloud::rename::rename_all;
use commit_cloud::rename::RenameStep;
use commit_cloud::rename::RenameUpdate;
use commit_cloud::rename::WorkspaceTable;
use commit_cloud::store::StorageError;
use commit_cloud::update::update_references_data;
use commit_cloud::update::SubUpdate;
use commit_cloud::update::UpdateReferencesParams;
use commit_cloud::update::UpdateStep;

fn id(n: u8) -> HgId {
    HgId::from_bytes([n; 20])
}

fn workspace() -> CommitCloudContext {
    CommitCloudContext { reponame: "repo".to_string(), workspace: "user/me/default".to_string() }
}

fn client() -> ClientRequestInfo {
    ClientRequestInfo { correlator: "c0ffee".to_string(), entry_point: "cli".to_string() }
}

fn failure(what: &str) -> StorageError {
    StorageError { message: what.to_string() }
}

/// A transaction of a store that keeps a journal of what was done in it.
#[derive(Debug, PartialEq)]
struct Journal {
    serial: u32,
    entries: Vec<String>,
}

fn params() -> UpdateReferencesParams {
    let mut updated_bookmarks = ListMap::new();
    updated_bookmarks.insert("feature".to_string(), id(5));
    UpdateReferencesParams {
        removed_heads: vec![id(1)],
        new_heads: vec![id(2), id(3)],
        updated_bookmarks,
        removed_bookmarks: vec!["old".to_string()],
        updated_remote_bookmarks: Some(vec![RemoteBookmark {
            remote: "origin".to_string(),
            name: "main".to_string(),
            node: Some(id(6)),
        }]),
        removed_remote_bookmarks: None,
        new_snapshots: vec![id(7)],
        removed_snapshots: vec![id(8)],
    }
}

fn kind_of(sub_update: &SubUpdate) -> &'static str {
    match sub_update {
        SubUpdate::Heads(_) => "heads",
        SubUpdate::LocalBookmarks(_) => "local bookmarks",
        SubUpdate::RemoteBookmarks(_) => "remote bookmarks",
        SubUpdate::Snapshots(_) => "snapshots",
    }
}

fn run_update(fail_at: Option<&str>) -> (Result<Journal, StorageError>, Vec<String>) {
    let mut calls: Vec<String> = Vec::new();
    let mut step = update_references_data(
        Journal { serial: 77, entries: vec![] },
        Some(&client()),
        params(),
        &workspace(),
    );
    loop {
        match step {
            UpdateStep::Apply(coordinator, mut txn, sub_update) => {
                assert_eq!(coordinator.scope, WriteScope { cri: Some(client()), ctx: workspace() });
                let kind = kind_of(&sub_update);
                calls.push(kind.to_string());
                let outcome = if fail_at == Some(kind) {
                    Err(failure(kind))
                } else {
                    txn.entries.push(kind.to_string());
                    Ok(txn)
                };
                step = coordinator.step(outcome);
            }
            UpdateStep::Done(txn) => return (Ok(txn), calls),
            UpdateStep::Failed(e) => return (Err(e), calls),
        }
    }
}

#[test]
fn update_applies_heads_bookmarks_remote_bookmarks_snapshots_in_that_order() {
    let (result, calls) = run_update(None);
    assert_eq!(calls, vec!["heads", "local bookmarks", "remote bookmarks", "snapshots"]);
    let txn = result.unwrap();
    assert_eq!(txn.serial, 77);
    assert_eq!(txn.entries, vec!["heads", "local bookmarks", "remote bookmarks", "snapshots"]);
}

#[test]
fn update_hands_each_kind_its_own_lists() {
    let mut step = update_references_data(0u8, None, params(), &workspace());
    let mut seen = 0;
    loop {
        match step {
            UpdateStep::Apply(coordinator, txn, sub_update) => {
                match sub_update {
                    SubUpdate::Heads(delta) => {
                        assert_eq!(delta.removed, vec![id(1)]);
                        assert_eq!(delta.added, vec![id(2), id(3)]);
                    }
                    SubUpdate::LocalBookmarks(delta) => {
                        assert_eq!(delta.updated.len(), 1);
                        assert_eq!(delta.updated.get(&"feature".to_string()), Some(&id(5)));
                        assert_eq!(delta.removed, vec!["old".to_string()]);
                    }
                    SubUpdate::RemoteBookmarks(delta) => {
                        assert_eq!(delta.updated.as_ref().map(|v| v.len()), Some(1));
                        assert_eq!(delta.updated.unwrap()[0].node, Some(id(6)));
                        assert_eq!(delta.removed, None);
                    }
                    SubUpdate::Snapshots(delta) => {
                        assert_eq!(delta.added, vec![id(7)]);
                        assert_eq!(delta.removed, vec![id(8)]);
                    }
                }
                seen += 1;
                step = coordinator.step(Ok(txn + 1));
            }
            UpdateStep::Done(txn) => {
                assert_eq!(txn, 4);
                break;
            }
            UpdateStep::Failed(e) => panic!("the update failed: {:?}", e),
        }
    }
    assert_eq!(seen, 4);
}

#[test]
fn update_stops_at_the_first_failure() {
    let (result, calls) = run_update(Some("local bookmarks"));
    assert_eq!(calls, vec!["heads", "local bookmarks"]);
    assert_eq!(result, Err(failure("local bookmarks")));
}

#[test]
fn update_that_fails_on_the_heads_applies_nothing_else() {
    let (result, calls) = run_update(Some("heads"));
    assert_eq!(calls, vec!["heads"]);
    assert_eq!(result, Err(failure("heads")));
}

#[test]
fn update_that_fails_on_the_snapshots_hands_no_transaction_back() {
    let (result, calls) = run_update(Some("snapshots"));
    assert_eq!(calls.len(), 4);
    assert!(result.is_err());
}

/// A store of seven tables whose rows are keyed by a workspace name, with
/// a version row. Writes go to the transaction and reach the tables when it
/// is committed.
struct Workspaces {
    names: Vec<(WorkspaceTable, String)>,
    version: u64,
}

struct Pending {
    names: Vec<(WorkspaceTable, String)>,
    touched: bool,
}

fn workspaces(name: &str) -> Workspaces {
    let tables = [
        WorkspaceTable::Heads,
        WorkspaceTable::LocalBookmarks,
        WorkspaceTable::RemoteBookmarks,
        WorkspaceTable::Snapshots,
        WorkspaceTable::CheckoutLocations,
        WorkspaceTable::History,
        WorkspaceTable::Versions,
    ];
    Workspaces { names: tables.iter().map(|t| (*t, name.to_string())).collect(), version: 1 }
}

fn rename_in(mut txn: Pending, update: &RenameUpdate) -> (Pending, u64) {
    let mut affected = 0;
    for (table, name) in txn.names.iter_mut() {
        if *table == update.table {
            *name = update.new_workspace.clone();
            affected += 1;
        }
    }
    txn.touched = true;
    (txn, affected)
}

fn commit(store: &mut Workspaces, txn: Pending) {
    store.names = txn.names;
    if txn.touched {
        store.version += 1;
    }
}

fn run_rename(
    store: &mut Workspaces,
    new_name: &str,
    fail_at: Option<WorkspaceTable>,
) -> (Result<u64, StorageError>, Vec<WorkspaceTable>) {
    let mut calls = Vec::new();
    let start = rename_all(Some(&client()), &workspace(), new_name);
    let mut step = start.opened(Ok(Pending { names: store.names.clone(), touched: false }));
    loop {
        match step {
            RenameStep::Update(coordinator, txn, update) => {
                assert_eq!(coordinator.scope, WriteScope { cri: Some(client()), ctx: workspace() });
                assert_eq!(update.new_workspace, new_name);
                assert_eq!(coordinator.table, update.table);
                calls.push(update.table);
                let outcome = if fail_at == Some(update.table) {
                    Err(failure("constraint violated"))
                } else {
                    Ok(rename_in(txn, &update))
                };
                step = coordinator.step(outcome);
            }
            RenameStep::Done(txn, affected_rows) => {
                commit(store, txn);
                return (Ok(affected_rows), calls);
            }
            RenameStep::Failed(e) => return (Err(e), calls),
        }
    }
}

#[test]
fn rename_updates_every_table_and_the_version_row_last() {
    let mut store = workspaces("old");
    let (result, calls) = run_rename(&mut store, "new", None);
    assert_eq!(result, Ok(1));
    assert_eq!(
        calls,
        vec![
            WorkspaceTable::Heads,
            WorkspaceTable::LocalBookmarks,
            WorkspaceTable::RemoteBookmarks,
            WorkspaceTable::Snapshots,
            WorkspaceTable::CheckoutLocations,
            WorkspaceTable::History,
            WorkspaceTable::Versions,
        ]
    );
    assert!(store.names.iter().all(|(_, name)| name == "new"));
}

#[test]
fn rename_that_fails_midway_leaves_every_table_as_it_was() {
    let mut store = workspaces("old");
    let (result, calls) = run_rename(&mut store, "new", Some(WorkspaceTable::Snapshots));
    assert_eq!(result, Err(failure("constraint violated")));
    assert_eq!(
        calls,
        vec![
            WorkspaceTable::Heads,
            WorkspaceTable::LocalBookmarks,
            WorkspaceTable::RemoteBookmarks,
            WorkspaceTable::Snapshots,
        ]
    );
    assert!(store.names.iter().all(|(_, name)| name == "old"));
    assert_eq!(store.version, 1);
}

#[test]
fn rename_that_fails_on_the_version_row_leaves_every_table_as_it_was() {
    let mut store = workspaces("old");
    let (result, calls) = run_rename(&mut store, "new", Some(WorkspaceTable::Versions));
    assert!(result.is_err());
    assert_eq!(calls.len(), 7);
    assert!(store.names.iter().all(|(_, name)| name == "old"));
}

#[test]
fn rename_fails_when_no_transaction_can_be_opened() {
    let start = rename_all(None, &workspace(), "new");
    assert_eq!(start.new_workspace, "new");
    assert_eq!(start.scope, WriteScope { cri: None, ctx: workspace() });
    match start.opened::<u8>(Err(failure("no connection"))) {
        RenameStep::Failed(e) => assert_eq!(e, failure("no connection")),
        other => panic!("expected a failure, got {:?}", other),
    }
}

#[test]
fn rename_returns_the_count_of_the_version_update() {
    let start = rename_all(None, &workspace(), "w2");
    let mut step = start.opened(Ok(0u32));
    let mut count = 10;
    let (txn, affected_rows) = loop {
        match step {
            RenameStep::Update(coordinator, txn, _) => {
                count += 1;
                step = coordinator.step(Ok((txn + 1, count)));
            }
            RenameStep::Done(txn, affected_rows) => break (txn, affected_rows),
            RenameStep::Failed(e) => panic!("the rename failed: {:?}", e),
        }
    };
    assert_eq!(txn, 7);
    assert_eq!(affected_rows, 17);
}

#[test]
fn tables_follow_each_other_in_the_order_of_a_rename() {
    assert_eq!(WorkspaceTable::Heads.successor(), Some(WorkspaceTable::LocalBookmarks));
    assert_eq!(WorkspaceTable::LocalBookmarks.successor(), Some(WorkspaceTable::RemoteBookmarks));
    assert_eq!(WorkspaceTable::RemoteBookmarks.successor(), Some(WorkspaceTable::Snapshots));
    assert_eq!(WorkspaceTable::Snapshots.successor(), Some(WorkspaceTable::CheckoutLocations));
    assert_eq!(WorkspaceTable::CheckoutLocations.successor(), Some(WorkspaceTable::History));
    assert_eq!(WorkspaceTable::History.successor(), Some(WorkspaceTable::Versions));
    assert_eq!(WorkspaceTable::Versions.successor(), None);
}

#[test]
fn version_advances_once_for_each_update_that_is_committed() {
    let mut store = workspaces("w");
    let mut seen = vec![store.version];
    for round in 0..3 {
        let mut step = update_references_data(
            Pending { names: store.names.clone(), touched: false },
            None,
            params(),
            &workspace(),
        );
        let fails = round == 1;
        let done = loop {
            match step {
                UpdateStep::Apply(coordinator, mut txn, sub_update) => {
                    let outcome = if fails && kind_of(&sub_update) == "remote bookmarks" {
                        Err(failure("deadlock"))
                    } else {
                        txn.touched = true;
                        Ok(txn)
                    };
                    step = coordinator.step(outcome);
                }
                UpdateStep::Done(txn) => break Some(txn),
                UpdateStep::Failed(_) => break None,
            }
        };
        if let Some(txn) = done {
            commit(&mut store, txn);
        }
        seen.push(store.version);
    }
    assert_eq!(seen, vec![1, 2, 2, 3]);
}

//! Renaming a workspace.
//!
//! Every table that is keyed by the workspace name takes part: the four
//! kinds of reference, the checkout locations, the history, and last the
//! version row. All are renamed within one fresh write transaction, one
//! after the other, each update taking the transaction and giving it back.
//! The version row comes last on purpose: its count of affected rows reaches
//! the caller only when every table before it was renamed. The first update
//! that fails ends the rename; the transaction does not come back from it,
//! so no table can be left under the new name while another keeps the old.

use vstd::prelude::*;
use crate::entities::ClientRequestInfo;
use crate::entities::CommitCloudContext;
use crate::entities::WriteScope;
use crate::store::StorageError;

verus! {

/// A table that is keyed by the workspace name.
#[derive(Clone, Copy, Debug, PartialEq, Eq, Structural)]
pub enum WorkspaceTable {
    Heads,
    LocalBookmarks,
    RemoteBookmarks,
    Snapshots,
    CheckoutLocations,
    History,
    /// The version row. Its rename changes the name alone and leaves the
    /// counter and the timestamp as they are.
    Versions,
}

/// The rename of the rows of one table.
#[derive(Clone, Debug, PartialEq, Eq)]
pub struct RenameUpdate {
    pub table: WorkspaceTable,
    pub new_workspace: String,
}

/// A rename that waits for its transaction to be opened.
#[derive(Debug)]
pub struct RenameStart {
    pub scope: WriteScope,
    pub new_workspace: String,
}

/// A rename under way, for whom and of which workspace: it waits for the
/// outcome of the update of `table`.
#[derive(Debug)]
pub struct RenameCoordinator {
    pub scope: WriteScope,
    pub table: WorkspaceTable,
    pub new_workspace: String,
}

/// What a rename turns into when it takes an outcome. `T` is the
/// transaction, which the coordinator passes on and never looks into.
#[derive(Debug)]
pub enum RenameStep<T> {
    /// Apply this update within this transaction, and hand the outcome to
    /// the coordinator.
    Update(RenameCoordinator, T, RenameUpdate),
    /// Every table is renamed. The transaction is not committed; the number
    /// is that of the version rows affected.
    Done(T, u64),
    /// Opening the transaction or an update failed. There is no transaction
    /// left to commit.
    Failed(StorageError),
}

/// The tables in the order in which a rename updates them.
pub open spec fn rename_order() -> Seq<WorkspaceTable> {
    seq![
        WorkspaceTable::Heads,
        WorkspaceTable::LocalBookmarks,
        WorkspaceTable::RemoteBookmarks,
        WorkspaceTable::Snapshots,
        WorkspaceTable::CheckoutLocations,
        WorkspaceTable::History,
        WorkspaceTable::Versions,
    ]
}

impl WorkspaceTable {
    /// The position of the table in [`rename_order`].
    pub open spec fn position(self) -> int {
        match self {
            WorkspaceTable::Heads => 0,
            WorkspaceTable::LocalBookmarks => 1,
            WorkspaceTable::RemoteBookmarks => 2,
            WorkspaceTable::Snapshots => 3,
            WorkspaceTable::CheckoutLocations => 4,
            WorkspaceTable::History => 5,
            WorkspaceTable::Versions => 6,
        }
    }

    /// The table that is renamed after this one, if any.
    pub open spec fn following(self) -> Option<WorkspaceTable> {
        if self.position() + 1 < rename_order().len() {
            Some(rename_order()[self.position() + 1])
        } else {
            None
        }
    }

    /// The table that is renamed after this one, if any.
    pub fn successor(self) -> (next: Option<WorkspaceTable>)
        ensures
            next == self.following(),
    {
        match self {
            WorkspaceTable::Heads => Some(WorkspaceTable::LocalBookmarks),
            WorkspaceTable::LocalBookmarks => Some(WorkspaceTable::RemoteBookmarks),
            WorkspaceTable::RemoteBookmarks => Some(WorkspaceTable::Snapshots),
            WorkspaceTable::Snapshots => Some(WorkspaceTable::CheckoutLocations),
            WorkspaceTable::CheckoutLocations => Some(WorkspaceTable::History),
            WorkspaceTable::History => Some(WorkspaceTable::Versions),
            WorkspaceTable::Versions => None,
        }
    }
}

/// The rename to `new_workspace` that is about to update `table` within
/// `txn`.
pub open spec fn renaming<T>(
    scope: WriteScope,
    table: WorkspaceTable,
    new_workspace: String,
    txn: T,
) -> RenameStep<T> {
    RenameStep::Update(
        RenameCoordinator { scope, table, new_workspace },
        txn,
        RenameUpdate { table, new_workspace },
    )
}

impl RenameStart {
    /// What the rename turns into once the transaction is opened, or could
    /// not be.
    pub open spec fn begin<T>(self, opened: Result<T, StorageError>) -> RenameStep<T> {
        match opened {
            Err(e) => RenameStep::Failed(e),
            Ok(txn) => renaming(self.scope, WorkspaceTable::Heads, self.new_workspace, txn),
        }
    }

    /// Takes the outcome of opening a fresh write transaction.
    pub fn opened<T>(self, opened: Result<T, StorageError>) -> (step: RenameStep<T>)
        ensures
            step == self.begin(opened),
    {
        match opened {
            Err(e) => RenameStep::Failed(e),
            Ok(txn) => {
                let new_workspace = self.new_workspace.clone();
                RenameStep::Update(
                    RenameCoordinator {
                        scope: self.scope,
                        table: WorkspaceTable::Heads,
                        new_workspace: self.new_workspace,
                    },
                    txn,
                    RenameUpdate { table: WorkspaceTable::Heads, new_workspace },
                )
            },
        }
    }
}

impl RenameCoordinator {
    /// What the rename turns into on the outcome of the awaited update: a
    /// failure ends it; a success moves it on to the next table, within the
    /// transaction that the update gave back; and the success of the last
    /// update ends it with that update's count of affected rows.
    pub open spec fn next<T>(self, outcome: Result<(T, u64), StorageError>) -> RenameStep<T> {
        match outcome {
            Err(e) => RenameStep::Failed(e),
            Ok((txn, affected_rows)) => match self.table.following() {
                Some(table) => renaming(self.scope, table, self.new_workspace, txn),
                None => RenameStep::Done(txn, affected_rows),
            },
        }
    }

    /// Takes the outcome of the update that the coordinator waits for.
    pub fn step<T>(self, outcome: Result<(T, u64), StorageError>) -> (step: RenameStep<T>)
        ensures
            step == self.next(outcome),
    {
        match outcome {
            Err(e) => RenameStep::Failed(e),
            Ok((txn, affected_rows)) => match self.table.successor() {
                Some(table) => {
                    let new_workspace = self.new_workspace.clone();
                    RenameStep::Update(
                        RenameCoordinator {
                            scope: self.scope,
                            table,
                            new_workspace: self.new_workspace,
                        },
                        txn,
                        RenameUpdate { table, new_workspace },
                    )
                },
                None => RenameStep::Done(txn, affected_rows),
            },
        }
    }
}

/// Starts the rename of the workspace `cc_ctx` to `new_workspace`, on
/// behalf of `cri`. The rename first needs a fresh write transaction.
pub fn rename_all(
    cri: Option<&ClientRequestInfo>,
    cc_ctx: &CommitCloudContext,
    new_workspace: &str,
) -> (start: RenameStart)
    ensures
        start.scope == WriteScope::of(cri, cc_ctx),
        start.new_workspace@ == new_workspace@,
{
    RenameStart { scope: WriteScope::new(cri, cc_ctx), new_workspace: new_workspace.to_owned() }
}

/// What a rename has come to once the transaction was opened, or could not
/// be, and the updates applied so far had the given outcomes, the outcome of
/// the first update first. Outcomes that arrive after the rename has ended
/// change nothing.
pub open spec fn rename_run<T>(
    start: RenameStart,
    opened: Result<T, StorageError>,
    outcomes: Seq<Result<(T, u64), StorageError>>,
) -> RenameStep<T>
    decreases outcomes.len(),
{
    if outcomes.len() == 0 {
        start.begin(opened)
    } else {
        match rename_run(start, opened, outcomes.drop_last()) {
            RenameStep::Update(coordinator, _, _) => coordinator.next(outcomes.last()),
            ended => ended,
        }
    }
}

/// Whether the first `n` updates succeeded.
pub open spec fn all_renamed<T>(outcomes: Seq<Result<(T, u64), StorageError>>, n: int) -> bool {
    &&& 0 <= n <= outcomes.len()
    &&& forall|i: int| 0 <= i < n ==> (#[trigger] outcomes[i]) is Ok
}

/// The transaction that the update at position `n` is applied in: the fresh
/// one for the first, and for each other the one that the update before it
/// gave back.
pub open spec fn rename_txn_before<T>(
    opened: Result<T, StorageError>,
    outcomes: Seq<Result<(T, u64), StorageError>>,
    n: int,
) -> T {
    if n <= 0 {
        opened->Ok_0
    } else {
        outcomes[n - 1]->Ok_0.0
    }
}

/// The tables are renamed in their order: once the transaction is open and
/// `n` updates succeeded, and nothing else happened, the rename asks for the
/// update of the table at position `n`, in the scope it was started in and
/// within the transaction that the update before gave back; after the seventh, it hands that transaction to
/// the caller, with the seventh update's count of affected rows.
pub proof fn lemma_rename_order<T>(
    start: RenameStart,
    opened: Result<T, StorageError>,
    outcomes: Seq<Result<(T, u64), StorageError>>,
)
    requires
        opened is Ok,
        all_renamed(outcomes, outcomes.len() as int),
        outcomes.len() <= 7,
    ensures
        outcomes.len() < 7 ==> rename_run(start, opened, outcomes) == renaming(
            start.scope,
            rename_order()[outcomes.len() as int],
            start.new_workspace,
            rename_txn_before(opened, outcomes, outcomes.len() as int),
        ),
        outcomes.len() == 7 ==> rename_run(start, opened, outcomes) == RenameStep::Done(
            outcomes[6]->Ok_0.0,
            outcomes[6]->Ok_0.1,
        ),
    decreases outcomes.len(),
{
    if outcomes.len() > 0 {
        let before = outcomes.drop_last();
        assert(all_renamed(before, before.len() as int)) by {
            assert forall|i: int| 0 <= i < before.len() implies (#[trigger] before[i]) is Ok by {
                assert(before[i] == outcomes[i]);
            }
        }
        lemma_rename_order(start, opened, before);
        assert(outcomes.last() == outcomes[outcomes.len() - 1]);
        assert(outcomes[outcomes.len() - 1] is Ok);
        assert(rename_order()[before.len() as int].position() == before.len());
    }
}

/// A rename fails with the failure of the first update that fails, and
/// applies nothing after it.
pub proof fn lemma_rename_fails_with_first_failure<T>(
    start: RenameStart,
    opened: Result<T, StorageError>,
    outcomes: Seq<Result<(T, u64), StorageError>>,
    k: int,
    e: StorageError,
)
    requires
        opened is Ok,
        0 <= k < outcomes.len(),
        k < 7,
        all_renamed(outcomes, k),
        outcomes[k] == Err::<(T, u64), StorageError>(e),
    ensures
        rename_run(start, opened, outcomes) == RenameStep::<T>::Failed(e),
    decreases outcomes.len(),
{
    let before = outcomes.drop_last();
    if k == outcomes.len() - 1 {
        assert(all_renamed(before, before.len() as int)) by {
            assert forall|i: int| 0 <= i < before.len() implies (#[trigger] before[i]) is Ok by {
                assert(before[i] == outcomes[i]);
            }
        }
        lemma_rename_order(start, opened, before);
    } else {
        assert(all_renamed(before, k)) by {
            assert forall|i: int| 0 <= i < k implies (#[trigger] before[i]) is Ok by {
                assert(before[i] == outcomes[i]);
            }
        }
        assert(before[k] == outcomes[k]);
        lemma_rename_fails_with_first_failure(start, opened, before, k, e);
    }
}

/// A rename is all or nothing. It hands a transaction back to the caller
/// only after the transaction was opened and all seven updates succeeded in
/// it, one after the other, so that committing it renames every table and
/// the version row together. Where opening or an update failed, no
/// transaction comes back, and nothing can be committed. While the rename
/// goes on, every update so far succeeded; in particular the version row is
/// touched only after all six tables before it were renamed.
pub proof fn lemma_rename_all_or_nothing<T>(
    start: RenameStart,
    opened: Result<T, StorageError>,
    outcomes: Seq<Result<(T, u64), StorageError>>,
)
    ensures
        match rename_run(start, opened, outcomes) {
            RenameStep::Done(txn, affected_rows) => opened is Ok && all_renamed(outcomes, 7)
                && outcomes[6] == Ok::<(T, u64), StorageError>((txn, affected_rows)),
            RenameStep::Update(_, _, update) => opened is Ok && outcomes.len() < 7
                && all_renamed(outcomes, outcomes.len() as int) && update.table
                == rename_order()[outcomes.len() as int],
            RenameStep::Failed(_) => opened is Err || exists|k: int|
                0 <= k < outcomes.len() && k < 7 && all_renamed(outcomes, k)
                    && #[trigger] outcomes[k] is Err,
        },
    decreases outcomes.len(),
{
    if outcomes.len() > 0 {
        let before = outcomes.drop_last();
        let n = before.len() as int;
        lemma_rename_all_or_nothing(start, opened, before);
        assert forall|i: int| 0 <= i < n implies before[i] == outcomes[i] by {}
        match rename_run(start, opened, before) {
            RenameStep::Done(_, _) => {
                assert(all_renamed(outcomes, 7));
            },
            RenameStep::Update(_, _, _) => {
                lemma_rename_order(start, opened, before);
                assert(rename_order()[n].position() == n);
                if outcomes.last() is Ok {
                    assert(all_renamed(outcomes, n + 1));
                } else {
                    assert(all_renamed(outcomes, n));
                    assert(outcomes[n] is Err);
                }
            },
            RenameStep::Failed(_) => {
                if opened is Ok {
                    let k = choose|k: int|
                        0 <= k < before.len() && k < 7 && all_renamed(before, k)
                            && #[trigger] before[k] is Err;
                    assert(all_renamed(outcomes, k));
                    assert(outcomes[k] is Err);
                }
            },
        }
    }
}

} // verus!

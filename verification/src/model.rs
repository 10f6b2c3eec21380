//! What the coordinators guarantee to a store that keeps its conventions.
//!
//! The entity stores are not part of this library. What is known of them is
//! how they treat a write transaction: nothing that is written within a
//! transaction shows before the transaction is committed; a transaction in
//! which references were changed advances the version of the workspace by
//! one when it is committed, however many of the four kinds it touched; and
//! a rename of the rows of a table changes the name those rows are keyed by
//! and nothing else. This module writes that down as a model and proves,
//! against it, that an update advances the version once and that a rename
//! is all or nothing.

use vstd::prelude::*;
use crate::rename::all_renamed;
use crate::rename::lemma_rename_all_or_nothing;
use crate::rename::rename_order;
use crate::rename::rename_run;
use crate::rename::rename_txn_before;
use crate::rename::RenameStart;
use crate::rename::RenameStep;
use crate::rename::RenameUpdate;
use crate::rename::WorkspaceTable;
use crate::store::StorageError;
use crate::update::all_succeeded;
use crate::update::lemma_update_all_or_nothing;
use crate::update::txn_before;
use crate::update::update_run;
use crate::entities::WriteScope;
use crate::update::UpdateReferencesParams;
use crate::update::UpdateStep;

verus! {

/// What the stores hold of one workspace, as far as the coordinators are
/// concerned: the name that the rows of each table are keyed by, and the
/// version counter.
pub struct WorkspaceRows {
    pub names: Map<WorkspaceTable, Seq<char>>,
    pub version: nat,
}

/// A write transaction: the rows as they were when it was opened, the names
/// as it would leave them, and whether references were changed within it.
pub struct Transaction {
    pub opened_on: WorkspaceRows,
    pub names: Map<WorkspaceTable, Seq<char>>,
    pub changed: bool,
}

/// A fresh transaction on `rows`.
pub open spec fn open(rows: WorkspaceRows) -> Transaction {
    Transaction { opened_on: rows, names: rows.names, changed: false }
}

/// The transaction after a sub-update of references was applied within it.
pub open spec fn change(txn: Transaction) -> Transaction {
    Transaction { changed: true, ..txn }
}

/// The transaction after the rows of a table were renamed within it.
pub open spec fn rename_rows(txn: Transaction, update: RenameUpdate) -> Transaction {
    Transaction { names: txn.names.insert(update.table, update.new_workspace@), ..txn }
}

/// The rows once the transaction is committed.
pub open spec fn commit(txn: Transaction) -> WorkspaceRows {
    WorkspaceRows {
        names: txn.names,
        version: if txn.changed {
            txn.opened_on.version + 1
        } else {
            txn.opened_on.version
        },
    }
}

/// Whether the store kept its conventions in an update: each sub-update that
/// was applied and succeeded gave back the transaction it was applied in,
/// changed.
pub open spec fn update_served(
    rows: WorkspaceRows,
    outcomes: Seq<Result<Transaction, StorageError>>,
) -> bool {
    forall|i: int|
        all_succeeded(outcomes, i) && i < outcomes.len() && (#[trigger] outcomes[i]) is Ok
            ==> outcomes[i]->Ok_0 == change(txn_before(open(rows), outcomes, i))
}

/// The rows after an update that came to `step`, the caller committing the
/// transaction where it got one back.
pub open spec fn rows_after_update(rows: WorkspaceRows, step: UpdateStep<Transaction>)
    -> WorkspaceRows {
    match step {
        UpdateStep::Done(txn) => commit(txn),
        _ => rows,
    }
}

/// An update that succeeds advances the version of the workspace by exactly
/// one; an update that fails, or has not come to its end, leaves the version
/// as it was. The version therefore never goes down.
pub proof fn lemma_update_advances_version(
    params: UpdateReferencesParams,
    scope: WriteScope,
    rows: WorkspaceRows,
    outcomes: Seq<Result<Transaction, StorageError>>,
)
    requires
        update_served(rows, outcomes),
    ensures
        rows_after_update(rows, update_run(params, scope, open(rows), outcomes)).version == (
        if update_run(params, scope, open(rows), outcomes) is Done {
            rows.version + 1
        } else {
            rows.version
        }),
        rows_after_update(rows, update_run(params, scope, open(rows), outcomes)).names == rows.names,
{
    lemma_update_all_or_nothing(params, scope, open(rows), outcomes);
    if update_run(params, scope, open(rows), outcomes) is Done {
        assert(outcomes[3] is Ok);
        assert(outcomes[2] is Ok);
        assert(outcomes[1] is Ok);
        assert(outcomes[0] is Ok);
        assert(outcomes[0]->Ok_0 == change(open(rows)));
        assert(outcomes[1]->Ok_0 == change(txn_before(open(rows), outcomes, 1)));
        assert(outcomes[2]->Ok_0 == change(txn_before(open(rows), outcomes, 2)));
        assert(outcomes[3]->Ok_0 == change(txn_before(open(rows), outcomes, 3)));
    }
}

/// An update of a workspace as it went: what was asked for, and the outcomes
/// of the sub-updates that were applied.
pub struct UpdateCall {
    pub params: UpdateReferencesParams,
    pub scope: WriteScope,
    pub outcomes: Seq<Result<Transaction, StorageError>>,
}

/// The rows after a sequence of updates, each in a transaction of its own
/// that is opened on what the one before left.
pub open spec fn rows_after_updates(rows: WorkspaceRows, calls: Seq<UpdateCall>) -> WorkspaceRows
    decreases calls.len(),
{
    if calls.len() == 0 {
        rows
    } else {
        let before = rows_after_updates(rows, calls.drop_last());
        rows_after_update(
            before,
            update_run(
                calls.last().params,
                calls.last().scope,
                open(before),
                calls.last().outcomes,
            ),
        )
    }
}

/// The number of updates in a sequence that succeeded.
pub open spec fn updates_succeeded(rows: WorkspaceRows, calls: Seq<UpdateCall>) -> nat
    decreases calls.len(),
{
    if calls.len() == 0 {
        0
    } else {
        let before = rows_after_updates(rows, calls.drop_last());
        let earlier = updates_succeeded(rows, calls.drop_last());
        if update_run(
                calls.last().params,
                calls.last().scope,
                open(before),
                calls.last().outcomes,
            ) is Done {
            earlier + 1
        } else {
            earlier
        }
    }
}

/// Whether the store kept its conventions in every update of a sequence.
pub open spec fn updates_served(rows: WorkspaceRows, calls: Seq<UpdateCall>) -> bool
    decreases calls.len(),
{
    if calls.len() == 0 {
        true
    } else {
        &&& updates_served(rows, calls.drop_last())
        &&& update_served(rows_after_updates(rows, calls.drop_last()), calls.last().outcomes)
    }
}

/// Versions are monotonic: over any sequence of updates of a workspace the
/// version goes up by one with each update that succeeds and stays with
/// each that fails. It never goes down, and it is strictly higher after
/// every successful update than before it.
pub proof fn lemma_versions_are_monotonic(rows: WorkspaceRows, calls: Seq<UpdateCall>)
    requires
        updates_served(rows, calls),
    ensures
        rows_after_updates(rows, calls).version == rows.version + updates_succeeded(rows, calls),
        rows_after_updates(rows, calls).version >= rows.version,
        calls.len() > 0 ==> rows_after_updates(rows, calls).version >= rows_after_updates(
            rows,
            calls.drop_last(),
        ).version,
        calls.len() > 0 && update_run(
            calls.last().params,
            calls.last().scope,
            open(rows_after_updates(rows, calls.drop_last())),
            calls.last().outcomes,
        ) is Done ==> rows_after_updates(rows, calls).version > rows_after_updates(
            rows,
            calls.drop_last(),
        ).version,
    decreases calls.len(),
{
    if calls.len() > 0 {
        lemma_versions_are_monotonic(rows, calls.drop_last());
        lemma_update_advances_version(
            calls.last().params,
            calls.last().scope,
            rows_after_updates(rows, calls.drop_last()),
            calls.last().outcomes,
        );
    }
}

/// Whether the store kept its conventions in a rename: the transaction was
/// opened on `rows`, and each update that was applied and succeeded gave
/// back the transaction it was applied in, with the rows of its table
/// renamed.
pub open spec fn rename_served(
    rows: WorkspaceRows,
    start: RenameStart,
    opened: Result<Transaction, StorageError>,
    outcomes: Seq<Result<(Transaction, u64), StorageError>>,
) -> bool {
    &&& opened is Ok ==> opened->Ok_0 == open(rows)
    &&& forall|i: int|
        all_renamed(outcomes, i) && i < outcomes.len() && i < 7 && (#[trigger] outcomes[i]) is Ok
            ==> outcomes[i]->Ok_0.0 == rename_rows(
            rename_txn_before(opened, outcomes, i),
            RenameUpdate { table: rename_order()[i], new_workspace: start.new_workspace },
        )
}

/// Whether the rows of `table` are keyed by `name`.
pub open spec fn keyed_by(rows: WorkspaceRows, table: WorkspaceTable, name: Seq<char>) -> bool {
    rows.names.contains_key(table) && rows.names[table] == name
}

/// The rows after a rename that came to `step`, the caller committing the
/// transaction where it got one back.
pub open spec fn rows_after_rename(rows: WorkspaceRows, step: RenameStep<Transaction>)
    -> WorkspaceRows {
    match step {
        RenameStep::Done(txn, _) => commit(txn),
        _ => rows,
    }
}

/// A rename is atomic. Where it succeeds, every one of the seven tables,
/// the version row among them, is keyed by the new name once the
/// transaction is committed. Where it fails, at whatever update, the rows
/// are as they were: no table is keyed by the new name on account of it.
/// The version counter stays as it was either way.
pub proof fn lemma_rename_is_atomic(
    rows: WorkspaceRows,
    start: RenameStart,
    opened: Result<Transaction, StorageError>,
    outcomes: Seq<Result<(Transaction, u64), StorageError>>,
)
    requires
        rename_served(rows, start, opened, outcomes),
    ensures
        match rename_run(start, opened, outcomes) {
            RenameStep::Done(_, _) => forall|table: WorkspaceTable| #[trigger]
                keyed_by(
                    rows_after_rename(rows, rename_run(start, opened, outcomes)),
                    table,
                    start.new_workspace@,
                ),
            _ => rows_after_rename(rows, rename_run(start, opened, outcomes)) == rows,
        },
        rows_after_rename(rows, rename_run(start, opened, outcomes)).version == rows.version,
{
    lemma_rename_all_or_nothing(start, opened, outcomes);
    if let RenameStep::Done(txn, _) = rename_run(start, opened, outcomes) {
        let name = start.new_workspace;
        let t0 = open(rows);
        let t1 = rename_rows(t0, RenameUpdate { table: rename_order()[0], new_workspace: name });
        let t2 = rename_rows(t1, RenameUpdate { table: rename_order()[1], new_workspace: name });
        let t3 = rename_rows(t2, RenameUpdate { table: rename_order()[2], new_workspace: name });
        let t4 = rename_rows(t3, RenameUpdate { table: rename_order()[3], new_workspace: name });
        let t5 = rename_rows(t4, RenameUpdate { table: rename_order()[4], new_workspace: name });
        let t6 = rename_rows(t5, RenameUpdate { table: rename_order()[5], new_workspace: name });
        let t7 = rename_rows(t6, RenameUpdate { table: rename_order()[6], new_workspace: name });
        assert(outcomes[0] is Ok && outcomes[0]->Ok_0.0 == t1);
        assert(outcomes[1] is Ok && outcomes[1]->Ok_0.0 == t2);
        assert(outcomes[2] is Ok && outcomes[2]->Ok_0.0 == t3);
        assert(outcomes[3] is Ok && outcomes[3]->Ok_0.0 == t4);
        assert(outcomes[4] is Ok && outcomes[4]->Ok_0.0 == t5);
        assert(outcomes[5] is Ok && outcomes[5]->Ok_0.0 == t6);
        assert(outcomes[6] is Ok && outcomes[6]->Ok_0.0 == t7);
        assert(txn == t7);
        assert forall|table: WorkspaceTable| #[trigger]
            keyed_by(
                rows_after_rename(rows, rename_run(start, opened, outcomes)),
                table,
                start.new_workspace@,
            ) by {
            assert(table == rename_order()[table.position()]);
        }
    }
}

} // verus!

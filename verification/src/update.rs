//! Applying a client's update to the references of a workspace.
//!
//! An update carries additions and removals for each of the four kinds of
//! reference. They are applied kind by kind in a fixed order, all within the
//! one transaction that the caller opened: every sub-update takes the
//! transaction and, where it succeeds, gives it back for the next. After the
//! fourth the transaction goes back to the caller, who commits it. The first
//! sub-update that fails ends the update; the transaction does not come back
//! from it, so nothing of the update can be committed.

use vstd::prelude::*;
use crate::entities::ClientRequestInfo;
use crate::entities::CommitCloudContext;
use crate::entities::RemoteBookmark;
use crate::entities::WriteScope;
use crate::ids::HgId;
use crate::listmap::ListMap;
use crate::store::StorageError;

verus! {

/// What a client asks to change in the references of a workspace.
#[derive(Debug)]
pub struct UpdateReferencesParams {
    pub removed_heads: Vec<HgId>,
    pub new_heads: Vec<HgId>,
    pub updated_bookmarks: ListMap<String, HgId>,
    pub removed_bookmarks: Vec<String>,
    pub updated_remote_bookmarks: Option<Vec<RemoteBookmark>>,
    pub removed_remote_bookmarks: Option<Vec<RemoteBookmark>>,
    pub new_snapshots: Vec<HgId>,
    pub removed_snapshots: Vec<HgId>,
}

/// The change to the heads.
#[derive(Clone, Debug, PartialEq, Eq)]
pub struct HeadsDelta {
    pub removed: Vec<HgId>,
    pub added: Vec<HgId>,
}

/// The change to the local bookmarks.
#[derive(Debug)]
pub struct BookmarksDelta {
    pub updated: ListMap<String, HgId>,
    pub removed: Vec<String>,
}

/// The change to the remote bookmarks.
#[derive(Clone, Debug, PartialEq, Eq)]
pub struct RemoteBookmarksDelta {
    pub updated: Option<Vec<RemoteBookmark>>,
    pub removed: Option<Vec<RemoteBookmark>>,
}

/// The change to the snapshots.
#[derive(Clone, Debug, PartialEq, Eq)]
pub struct SnapshotsDelta {
    pub added: Vec<HgId>,
    pub removed: Vec<HgId>,
}

/// The change to one kind of reference, to be applied within the transaction.
#[derive(Debug)]
pub enum SubUpdate {
    Heads(HeadsDelta),
    LocalBookmarks(BookmarksDelta),
    RemoteBookmarks(RemoteBookmarksDelta),
    Snapshots(SnapshotsDelta),
}

/// The changes of an update that are still to be applied. Each variant is
/// named after the sub-update whose outcome is awaited.
#[derive(Debug)]
pub enum PendingUpdate {
    Heads {
        bookmarks: BookmarksDelta,
        remote_bookmarks: RemoteBookmarksDelta,
        snapshots: SnapshotsDelta,
    },
    LocalBookmarks { remote_bookmarks: RemoteBookmarksDelta, snapshots: SnapshotsDelta },
    RemoteBookmarks { snapshots: SnapshotsDelta },
    Snapshots,
}

/// An update under way: for whom and on which workspace it is made, and
/// what is still to be applied.
#[derive(Debug)]
pub struct UpdateCoordinator {
    pub scope: WriteScope,
    pub pending: PendingUpdate,
}

/// What an update turns into when it starts or takes an outcome. `T` is the
/// transaction, which the coordinator passes on and never looks into. The
/// sub-update is to be applied on the workspace of the coordinator's scope.
#[derive(Debug)]
pub enum UpdateStep<T> {
    /// Apply this sub-update within this transaction, and hand the outcome
    /// to the coordinator.
    Apply(UpdateCoordinator, T, SubUpdate),
    /// All four sub-updates are applied; the transaction is not committed.
    Done(T),
    /// A sub-update failed. There is no transaction left to commit.
    Failed(StorageError),
}

impl UpdateReferencesParams {
    /// The change to the heads that the update asks for.
    pub open spec fn heads_delta(self) -> HeadsDelta {
        HeadsDelta { removed: self.removed_heads, added: self.new_heads }
    }

    /// The change to the local bookmarks that the update asks for.
    pub open spec fn bookmarks_delta(self) -> BookmarksDelta {
        BookmarksDelta { updated: self.updated_bookmarks, removed: self.removed_bookmarks }
    }

    /// The change to the remote bookmarks that the update asks for.
    pub open spec fn remote_bookmarks_delta(self) -> RemoteBookmarksDelta {
        RemoteBookmarksDelta {
            updated: self.updated_remote_bookmarks,
            removed: self.removed_remote_bookmarks,
        }
    }

    /// The change to the snapshots that the update asks for.
    pub open spec fn snapshots_delta(self) -> SnapshotsDelta {
        SnapshotsDelta { added: self.new_snapshots, removed: self.removed_snapshots }
    }

    /// The four sub-updates of the update, in the order in which they are
    /// applied.
    pub open spec fn plan(self) -> Seq<SubUpdate> {
        seq![
            SubUpdate::Heads(self.heads_delta()),
            SubUpdate::LocalBookmarks(self.bookmarks_delta()),
            SubUpdate::RemoteBookmarks(self.remote_bookmarks_delta()),
            SubUpdate::Snapshots(self.snapshots_delta()),
        ]
    }

    /// The update just started within `txn`: the heads are to be changed,
    /// and the rest waits.
    pub open spec fn started<T>(self, scope: WriteScope, txn: T) -> UpdateStep<T> {
        UpdateStep::Apply(
            UpdateCoordinator {
                scope,
                pending: PendingUpdate::Heads {
                    bookmarks: self.bookmarks_delta(),
                    remote_bookmarks: self.remote_bookmarks_delta(),
                    snapshots: self.snapshots_delta(),
                },
            },
            txn,
            SubUpdate::Heads(self.heads_delta()),
        )
    }
}

impl UpdateCoordinator {
    /// What the update turns into on the outcome of the awaited sub-update:
    /// a failure ends it, and a success moves it on to the next kind, within
    /// the transaction that the sub-update gave back and in the same scope.
    pub open spec fn next<T>(self, outcome: Result<T, StorageError>) -> UpdateStep<T> {
        match outcome {
            Err(e) => UpdateStep::Failed(e),
            Ok(txn) => match self.pending {
                PendingUpdate::Heads { bookmarks, remote_bookmarks, snapshots } => {
                    UpdateStep::Apply(
                        UpdateCoordinator {
                            scope: self.scope,
                            pending: PendingUpdate::LocalBookmarks { remote_bookmarks, snapshots },
                        },
                        txn,
                        SubUpdate::LocalBookmarks(bookmarks),
                    )
                },
                PendingUpdate::LocalBookmarks { remote_bookmarks, snapshots } => {
                    UpdateStep::Apply(
                        UpdateCoordinator {
                            scope: self.scope,
                            pending: PendingUpdate::RemoteBookmarks { snapshots },
                        },
                        txn,
                        SubUpdate::RemoteBookmarks(remote_bookmarks),
                    )
                },
                PendingUpdate::RemoteBookmarks { snapshots } => UpdateStep::Apply(
                    UpdateCoordinator { scope: self.scope, pending: PendingUpdate::Snapshots },
                    txn,
                    SubUpdate::Snapshots(snapshots),
                ),
                PendingUpdate::Snapshots => UpdateStep::Done(txn),
            },
        }
    }

    /// Takes the outcome of the sub-update that the coordinator waits for.
    pub fn step<T>(self, outcome: Result<T, StorageError>) -> (step: UpdateStep<T>)
        ensures
            step == self.next(outcome),
    {
        let txn = match outcome {
            Ok(txn) => txn,
            Err(e) => {
                return UpdateStep::Failed(e);
            },
        };
        let UpdateCoordinator { scope, pending } = self;
        match pending {
            PendingUpdate::Heads { bookmarks, remote_bookmarks, snapshots } => {
                UpdateStep::Apply(
                    UpdateCoordinator {
                        scope,
                        pending: PendingUpdate::LocalBookmarks { remote_bookmarks, snapshots },
                    },
                    txn,
                    SubUpdate::LocalBookmarks(bookmarks),
                )
            },
            PendingUpdate::LocalBookmarks { remote_bookmarks, snapshots } => {
                UpdateStep::Apply(
                    UpdateCoordinator {
                        scope,
                        pending: PendingUpdate::RemoteBookmarks { snapshots },
                    },
                    txn,
                    SubUpdate::RemoteBookmarks(remote_bookmarks),
                )
            },
            PendingUpdate::RemoteBookmarks { snapshots } => UpdateStep::Apply(
                UpdateCoordinator { scope, pending: PendingUpdate::Snapshots },
                txn,
                SubUpdate::Snapshots(snapshots),
            ),
            PendingUpdate::Snapshots => UpdateStep::Done(txn),
        }
    }
}

/// Starts the update of the workspace `ctx` that `params` asks for, within
/// the open transaction `txn`, on behalf of `cri`.
pub fn update_references_data<T>(
    txn: T,
    cri: Option<&ClientRequestInfo>,
    params: UpdateReferencesParams,
    ctx: &CommitCloudContext,
) -> (step: UpdateStep<T>)
    ensures
        step == params.started(WriteScope::of(cri, ctx), txn),
{
    let UpdateReferencesParams {
        removed_heads,
        new_heads,
        updated_bookmarks,
        removed_bookmarks,
        updated_remote_bookmarks,
        removed_remote_bookmarks,
        new_snapshots,
        removed_snapshots,
    } = params;
    UpdateStep::Apply(
        UpdateCoordinator {
            scope: WriteScope::new(cri, ctx),
            pending: PendingUpdate::Heads {
                bookmarks: BookmarksDelta {
                    updated: updated_bookmarks,
                    removed: removed_bookmarks,
                },
                remote_bookmarks: RemoteBookmarksDelta {
                    updated: updated_remote_bookmarks,
                    removed: removed_remote_bookmarks,
                },
                snapshots: SnapshotsDelta { added: new_snapshots, removed: removed_snapshots },
            },
        },
        txn,
        SubUpdate::Heads(HeadsDelta { removed: removed_heads, added: new_heads }),
    )
}

/// What an update has come to once the sub-updates applied so far had the
/// given outcomes, the outcome of the first sub-update first. Outcomes that
/// arrive after the update has ended change nothing.
pub open spec fn update_run<T>(
    params: UpdateReferencesParams,
    scope: WriteScope,
    txn: T,
    outcomes: Seq<Result<T, StorageError>>,
) -> UpdateStep<T>
    decreases outcomes.len(),
{
    if outcomes.len() == 0 {
        params.started(scope, txn)
    } else {
        match update_run(params, scope, txn, outcomes.drop_last()) {
            UpdateStep::Apply(coordinator, _, _) => coordinator.next(outcomes.last()),
            ended => ended,
        }
    }
}

/// The transaction that the sub-update at position `n` is applied in: the
/// caller's for the first, and for each other the one that the sub-update
/// before it gave back.
pub open spec fn txn_before<T>(txn: T, outcomes: Seq<Result<T, StorageError>>, n: int) -> T {
    if n <= 0 {
        txn
    } else {
        outcomes[n - 1]->Ok_0
    }
}

/// Whether the first `n` outcomes are successes.
pub open spec fn all_succeeded<T>(outcomes: Seq<Result<T, StorageError>>, n: int) -> bool {
    &&& 0 <= n <= outcomes.len()
    &&& forall|i: int| 0 <= i < n ==> (#[trigger] outcomes[i]) is Ok
}

/// The sub-updates are applied in the order heads, local bookmarks, remote
/// bookmarks, snapshots: after `n` successes and nothing else, the update
/// asks for the sub-update at position `n` of its plan, on the workspace it
/// was started for and within the transaction that the one before gave
/// back; after four, it hands that transaction to the caller.
pub proof fn lemma_update_order<T>(
    params: UpdateReferencesParams,
    scope: WriteScope,
    txn: T,
    outcomes: Seq<Result<T, StorageError>>,
)
    requires
        all_succeeded(outcomes, outcomes.len() as int),
        outcomes.len() <= 4,
    ensures
        outcomes.len() < 4 ==> (update_run(params, scope, txn, outcomes) matches UpdateStep::Apply(
            coordinator,
            within,
            sub_update,
        ) && sub_update == params.plan()[outcomes.len() as int] && within == txn_before(
            txn,
            outcomes,
            outcomes.len() as int,
        ) && coordinator.scope == scope),
        outcomes.len() == 4 ==> update_run(params, scope, txn, outcomes) == UpdateStep::Done(
            txn_before(txn, outcomes, 4),
        ),
{
    lemma_update_stage(params, scope, txn, outcomes);
}

/// Where an update stands after `n` successes and nothing else.
proof fn lemma_update_stage<T>(
    params: UpdateReferencesParams,
    scope: WriteScope,
    txn: T,
    outcomes: Seq<Result<T, StorageError>>,
)
    requires
        all_succeeded(outcomes, outcomes.len() as int),
        outcomes.len() <= 4,
    ensures
        update_run(params, scope, txn, outcomes) == stage(
            params,
            scope,
            txn_before(txn, outcomes, outcomes.len() as int),
            outcomes.len() as int,
        ),
    decreases outcomes.len(),
{
    if outcomes.len() > 0 {
        let before = outcomes.drop_last();
        assert(all_succeeded(before, before.len() as int)) by {
            assert forall|i: int| 0 <= i < before.len() implies (#[trigger] before[i]) is Ok by {
                assert(before[i] == outcomes[i]);
            }
        }
        lemma_update_stage(params, scope, txn, before);
        assert(outcomes.last() == outcomes[outcomes.len() - 1]);
        assert(outcomes[outcomes.len() - 1] is Ok);
    }
}

/// The update that has applied the first `n` sub-updates of its plan, the
/// last of which gave back `txn`.
pub open spec fn stage<T>(params: UpdateReferencesParams, scope: WriteScope, txn: T, n: int)
    -> UpdateStep<T> {
    if n <= 0 {
        params.started(scope, txn)
    } else if n == 1 {
        UpdateStep::Apply(
            UpdateCoordinator {
                scope,
                pending: PendingUpdate::LocalBookmarks {
                    remote_bookmarks: params.remote_bookmarks_delta(),
                    snapshots: params.snapshots_delta(),
                },
            },
            txn,
            SubUpdate::LocalBookmarks(params.bookmarks_delta()),
        )
    } else if n == 2 {
        UpdateStep::Apply(
            UpdateCoordinator {
                scope,
                pending: PendingUpdate::RemoteBookmarks { snapshots: params.snapshots_delta() },
            },
            txn,
            SubUpdate::RemoteBookmarks(params.remote_bookmarks_delta()),
        )
    } else if n == 3 {
        UpdateStep::Apply(
            UpdateCoordinator { scope, pending: PendingUpdate::Snapshots },
            txn,
            SubUpdate::Snapshots(params.snapshots_delta()),
        )
    } else {
        UpdateStep::Done(txn)
    }
}

/// An update fails with the failure of the first sub-update that fails, and
/// applies nothing after it.
pub proof fn lemma_update_fails_with_first_failure<T>(
    params: UpdateReferencesParams,
    scope: WriteScope,
    txn: T,
    outcomes: Seq<Result<T, StorageError>>,
    k: int,
    e: StorageError,
)
    requires
        0 <= k < outcomes.len(),
        k < 4,
        all_succeeded(outcomes, k),
        outcomes[k] == Err::<T, StorageError>(e),
    ensures
        update_run(params, scope, txn, outcomes) == UpdateStep::<T>::Failed(e),
    decreases outcomes.len(),
{
    let before = outcomes.drop_last();
    if k == outcomes.len() - 1 {
        assert(all_succeeded(before, before.len() as int)) by {
            assert forall|i: int| 0 <= i < before.len() implies (#[trigger] before[i]) is Ok by {
                assert(before[i] == outcomes[i]);
            }
        }
        lemma_update_stage(params, scope, txn, before);
    } else {
        assert(all_succeeded(before, k)) by {
            assert forall|i: int| 0 <= i < k implies (#[trigger] before[i]) is Ok by {
                assert(before[i] == outcomes[i]);
            }
        }
        assert(before[k] == outcomes[k]);
        lemma_update_fails_with_first_failure(params, scope, txn, before, k, e);
    }
}

/// An update hands a transaction back to the caller only after all four
/// sub-updates succeeded in it, one after the other; and while it goes on,
/// every sub-update so far succeeded.
pub proof fn lemma_update_all_or_nothing<T>(
    params: UpdateReferencesParams,
    scope: WriteScope,
    txn: T,
    outcomes: Seq<Result<T, StorageError>>,
)
    ensures
        match update_run(params, scope, txn, outcomes) {
            UpdateStep::Done(last) => all_succeeded(outcomes, 4) && last == txn_before(
                txn,
                outcomes,
                4,
            ),
            UpdateStep::Apply(_, _, _) => outcomes.len() < 4 && all_succeeded(
                outcomes,
                outcomes.len() as int,
            ),
            UpdateStep::Failed(_) => exists|k: int|
                0 <= k < outcomes.len() && k < 4 && all_succeeded(outcomes, k)
                    && #[trigger] outcomes[k] is Err,
        },
    decreases outcomes.len(),
{
    if outcomes.len() > 0 {
        let before = outcomes.drop_last();
        let n = before.len() as int;
        lemma_update_all_or_nothing(params, scope, txn, before);
        assert forall|i: int| 0 <= i < n implies before[i] == outcomes[i] by {}
        match update_run(params, scope, txn, before) {
            UpdateStep::Done(_) => {
                assert(all_succeeded(outcomes, 4));
            },
            UpdateStep::Apply(_, _, _) => {
                lemma_update_stage(params, scope, txn, before);
                if outcomes.last() is Ok {
                    assert(all_succeeded(outcomes, n + 1));
                } else {
                    assert(all_succeeded(outcomes, n));
                    assert(outcomes[n] is Err);
                }
            },
            UpdateStep::Failed(_) => {
                let k = choose|k: int|
                    0 <= k < before.len() && k < 4 && all_succeeded(before, k)
                        && #[trigger] before[k] is Err;
                assert(all_succeeded(outcomes, k));
                assert(outcomes[k] is Err);
            },
        }
    }
}

} // verus!

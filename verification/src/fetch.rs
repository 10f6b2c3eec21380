//! Reading the full reference state of a workspace.
//!
//! The state is read kind by kind, heads first, with four independent reads.
//! The fetcher names the read it waits for and takes what the store brought;
//! the first read that fails ends the fetch, and nothing of what was read
//! before is handed out.

use vstd::prelude::*;
use crate::entities::CommitCloudContext;
use crate::entities::RawReferencesData;
use crate::entities::WorkspaceHead;
use crate::entities::WorkspaceLocalBookmark;
use crate::entities::WorkspaceRemoteBookmark;
use crate::entities::WorkspaceSnapshot;
use crate::store::FetchError;
use crate::store::StorageError;
use crate::store::StoreRead;
use crate::store::StoreRows;

verus! {

/// What a fetch has read so far. Each variant is named after the read that
/// is awaited.
#[derive(Debug)]
pub enum PendingFetch {
    Heads,
    LocalBookmarks { heads: Vec<WorkspaceHead> },
    RemoteBookmarks { heads: Vec<WorkspaceHead>, local_bookmarks: Vec<WorkspaceLocalBookmark> },
    Snapshots {
        heads: Vec<WorkspaceHead>,
        local_bookmarks: Vec<WorkspaceLocalBookmark>,
        remote_bookmarks: Vec<WorkspaceRemoteBookmark>,
    },
}

/// A fetch under way: the workspace that is read, and what has been read of
/// it so far.
#[derive(Debug)]
pub struct ReferenceFetcher {
    pub ctx: CommitCloudContext,
    pub pending: PendingFetch,
}

/// What a fetcher turns into when it takes the outcome of a read. The read
/// is to be made on the workspace of the fetcher.
#[derive(Debug)]
pub enum FetchStep {
    /// The fetch goes on with this read.
    Read(ReferenceFetcher, StoreRead),
    /// Everything is read.
    Done(RawReferencesData),
    /// The fetch failed.
    Failed(FetchError),
}

impl ReferenceFetcher {
    /// The read that the fetcher waits for.
    pub open spec fn awaiting(&self) -> StoreRead {
        match self.pending {
            PendingFetch::Heads => StoreRead::Heads,
            PendingFetch::LocalBookmarks { .. } => StoreRead::LocalBookmarks,
            PendingFetch::RemoteBookmarks { .. } => StoreRead::RemoteBookmarks,
            PendingFetch::Snapshots { .. } => StoreRead::Snapshots,
        }
    }

    /// What the fetcher turns into on `outcome`: a failure of the store is
    /// passed on, rows of another kind than the awaited one are refused, and
    /// the awaited rows are kept as they came.
    pub open spec fn next(self, outcome: Result<StoreRows, StorageError>) -> FetchStep {
        match outcome {
            Err(e) => FetchStep::Failed(FetchError::Storage(e)),
            Ok(rows) => match (self.pending, rows) {
                (PendingFetch::Heads, StoreRows::Heads(heads)) => FetchStep::Read(
                    ReferenceFetcher {
                        ctx: self.ctx,
                        pending: PendingFetch::LocalBookmarks { heads },
                    },
                    StoreRead::LocalBookmarks,
                ),
                (
                    PendingFetch::LocalBookmarks { heads },
                    StoreRows::LocalBookmarks(local_bookmarks),
                ) => FetchStep::Read(
                    ReferenceFetcher {
                        ctx: self.ctx,
                        pending: PendingFetch::RemoteBookmarks { heads, local_bookmarks },
                    },
                    StoreRead::RemoteBookmarks,
                ),
                (
                    PendingFetch::RemoteBookmarks { heads, local_bookmarks },
                    StoreRows::RemoteBookmarks(remote_bookmarks),
                ) => FetchStep::Read(
                    ReferenceFetcher {
                        ctx: self.ctx,
                        pending: PendingFetch::Snapshots {
                            heads,
                            local_bookmarks,
                            remote_bookmarks,
                        },
                    },
                    StoreRead::Snapshots,
                ),
                (
                    PendingFetch::Snapshots { heads, local_bookmarks, remote_bookmarks },
                    StoreRows::Snapshots(snapshots),
                ) => FetchStep::Done(
                    RawReferencesData { heads, local_bookmarks, remote_bookmarks, snapshots },
                ),
                _ => FetchStep::Failed(FetchError::UnexpectedReply),
            },
        }
    }

    /// Takes the outcome of the read that the fetcher waits for.
    pub fn step(self, outcome: Result<StoreRows, StorageError>) -> (step: FetchStep)
        ensures
            step == self.next(outcome),
    {
        let rows = match outcome {
            Ok(rows) => rows,
            Err(e) => {
                return FetchStep::Failed(FetchError::Storage(e));
            },
        };
        let ReferenceFetcher { ctx, pending } = self;
        match pending {
            PendingFetch::Heads => match rows {
                StoreRows::Heads(heads) => FetchStep::Read(
                    ReferenceFetcher { ctx, pending: PendingFetch::LocalBookmarks { heads } },
                    StoreRead::LocalBookmarks,
                ),
                _ => FetchStep::Failed(FetchError::UnexpectedReply),
            },
            PendingFetch::LocalBookmarks { heads } => match rows {
                StoreRows::LocalBookmarks(local_bookmarks) => FetchStep::Read(
                    ReferenceFetcher {
                        ctx,
                        pending: PendingFetch::RemoteBookmarks { heads, local_bookmarks },
                    },
                    StoreRead::RemoteBookmarks,
                ),
                _ => FetchStep::Failed(FetchError::UnexpectedReply),
            },
            PendingFetch::RemoteBookmarks { heads, local_bookmarks } => match rows {
                StoreRows::RemoteBookmarks(remote_bookmarks) => FetchStep::Read(
                    ReferenceFetcher {
                        ctx,
                        pending: PendingFetch::Snapshots {
                            heads,
                            local_bookmarks,
                            remote_bookmarks,
                        },
                    },
                    StoreRead::Snapshots,
                ),
                _ => FetchStep::Failed(FetchError::UnexpectedReply),
            },
            PendingFetch::Snapshots { heads, local_bookmarks, remote_bookmarks } => match rows {
                StoreRows::Snapshots(snapshots) => FetchStep::Done(
                    RawReferencesData { heads, local_bookmarks, remote_bookmarks, snapshots },
                ),
                _ => FetchStep::Failed(FetchError::UnexpectedReply),
            },
        }
    }
}

/// The fetcher of the workspace `ctx` that has read nothing yet.
pub open spec fn fetch_start(ctx: CommitCloudContext) -> ReferenceFetcher {
    ReferenceFetcher { ctx, pending: PendingFetch::Heads }
}

/// Starts a fetch of everything the workspace `ctx` references: the fetcher,
/// and the first read to make.
pub fn fetch_references(ctx: &CommitCloudContext) -> (start: (ReferenceFetcher, StoreRead))
    ensures
        start == (fetch_start(*ctx), StoreRead::Heads),
{
    (ReferenceFetcher { ctx: ctx.duplicate(), pending: PendingFetch::Heads }, StoreRead::Heads)
}

/// The reads of a fetch, in the order in which they are made.
pub open spec fn fetch_order() -> Seq<StoreRead> {
    seq![
        StoreRead::Heads,
        StoreRead::LocalBookmarks,
        StoreRead::RemoteBookmarks,
        StoreRead::Snapshots,
    ]
}

/// What a fetch has come to once the reads made so far had the given
/// outcomes, the outcome of the first read first. Outcomes that arrive after
/// the fetch has ended change nothing.
pub open spec fn fetch_run(
    ctx: CommitCloudContext,
    outcomes: Seq<Result<StoreRows, StorageError>>,
) -> FetchStep
    decreases outcomes.len(),
{
    if outcomes.len() == 0 {
        FetchStep::Read(fetch_start(ctx), StoreRead::Heads)
    } else {
        match fetch_run(ctx, outcomes.drop_last()) {
            FetchStep::Read(fetcher, _) => fetcher.next(outcomes.last()),
            ended => ended,
        }
    }
}

/// What a fetch comes to against a store in which each read has one fixed
/// outcome, as it has while nothing writes to the store.
pub open spec fn fetch_from(
    ctx: CommitCloudContext,
    store: spec_fn(StoreRead) -> Result<StoreRows, StorageError>,
) -> FetchStep {
    fetch_run(ctx, Seq::new(4, |i: int| store(fetch_order()[i])))
}

/// Whether the first `n` outcomes are rows of the kinds that a fetch reads,
/// in its order.
pub open spec fn reads_succeeded(outcomes: Seq<Result<StoreRows, StorageError>>, n: int) -> bool {
    &&& 0 <= n <= outcomes.len()
    &&& n <= 4
    &&& forall|i: int|
        0 <= i < n ==> (#[trigger] outcomes[i] matches Ok(rows) && rows.answers()
            == fetch_order()[i])
}

/// One more outcome moves a fetch on by one step.
pub proof fn lemma_fetch_run_push(
    ctx: CommitCloudContext,
    outcomes: Seq<Result<StoreRows, StorageError>>,
    outcome: Result<StoreRows, StorageError>,
)
    ensures
        fetch_run(ctx, outcomes.push(outcome)) == match fetch_run(ctx, outcomes) {
            FetchStep::Read(fetcher, _) => fetcher.next(outcome),
            ended => ended,
        },
{
    assert(outcomes.push(outcome).drop_last() =~= outcomes);
}

/// While every read succeeds, a fetch asks for the kinds in their order, one
/// read for each outcome it has taken and each on the workspace it was
/// started for, and it ends with the fourth.
pub proof fn lemma_fetch_reads_in_order(
    ctx: CommitCloudContext,
    outcomes: Seq<Result<StoreRows, StorageError>>,
)
    requires
        reads_succeeded(outcomes, outcomes.len() as int),
    ensures
        outcomes.len() < 4 ==> (fetch_run(ctx, outcomes) matches FetchStep::Read(fetcher, read)
            && read == fetch_order()[outcomes.len() as int] && fetcher.awaiting() == read
            && fetcher.ctx == ctx),
        outcomes.len() == 4 ==> fetch_run(ctx, outcomes) is Done,
    decreases outcomes.len(),
{
    if outcomes.len() > 0 {
        let before = outcomes.drop_last();
        assert(reads_succeeded(before, before.len() as int)) by {
            assert forall|i: int| 0 <= i < before.len() implies (#[trigger] before[i] matches Ok(
                rows,
            ) && rows.answers() == fetch_order()[i]) by {
                assert(before[i] == outcomes[i]);
            }
        }
        lemma_fetch_reads_in_order(ctx, before);
        assert(outcomes.last() == outcomes[outcomes.len() - 1]);
    }
}

/// A fetch whose four reads succeed yields exactly what they brought: the
/// same elements in the same order, for each of the four kinds.
pub proof fn lemma_fetch_yields_what_was_read(
    ctx: CommitCloudContext,
    heads: Vec<WorkspaceHead>,
    local_bookmarks: Vec<WorkspaceLocalBookmark>,
    remote_bookmarks: Vec<WorkspaceRemoteBookmark>,
    snapshots: Vec<WorkspaceSnapshot>,
)
    ensures
        fetch_run(
            ctx,
            seq![
                Ok(StoreRows::Heads(heads)),
                Ok(StoreRows::LocalBookmarks(local_bookmarks)),
                Ok(StoreRows::RemoteBookmarks(remote_bookmarks)),
                Ok(StoreRows::Snapshots(snapshots)),
            ],
        ) == FetchStep::Done(
            RawReferencesData { heads, local_bookmarks, remote_bookmarks, snapshots },
        ),
{
    let o0: Result<StoreRows, StorageError> = Ok(StoreRows::Heads(heads));
    let o1: Result<StoreRows, StorageError> = Ok(StoreRows::LocalBookmarks(local_bookmarks));
    let o2: Result<StoreRows, StorageError> = Ok(StoreRows::RemoteBookmarks(remote_bookmarks));
    let o3: Result<StoreRows, StorageError> = Ok(StoreRows::Snapshots(snapshots));
    let s0 = Seq::<Result<StoreRows, StorageError>>::empty();
    lemma_fetch_run_push(ctx, s0, o0);
    lemma_fetch_run_push(ctx, s0.push(o0), o1);
    lemma_fetch_run_push(ctx, s0.push(o0).push(o1), o2);
    lemma_fetch_run_push(ctx, s0.push(o0).push(o1).push(o2), o3);
    assert(seq![o0, o1, o2, o3] =~= s0.push(o0).push(o1).push(o2).push(o3));
}

/// A fetch fails with the failure of the first read that fails, whatever
/// the reads before it brought and whatever comes after.
pub proof fn lemma_fetch_fails_with_first_failure(
    ctx: CommitCloudContext,
    outcomes: Seq<Result<StoreRows, StorageError>>,
    k: int,
    e: StorageError,
)
    requires
        0 <= k < outcomes.len(),
        reads_succeeded(outcomes, k),
        k < 4,
        outcomes[k] == Err::<StoreRows, StorageError>(e),
    ensures
        fetch_run(ctx, outcomes) == FetchStep::Failed(FetchError::Storage(e)),
    decreases outcomes.len(),
{
    let before = outcomes.drop_last();
    if k == outcomes.len() - 1 {
        assert(reads_succeeded(before, before.len() as int)) by {
            assert forall|i: int| 0 <= i < before.len() implies (#[trigger] before[i] matches Ok(
                rows,
            ) && rows.answers() == fetch_order()[i]) by {
                assert(before[i] == outcomes[i]);
            }
        }
        lemma_fetch_reads_in_order(ctx, before);
    } else {
        assert(reads_succeeded(before, k)) by {
            assert forall|i: int| 0 <= i < k implies (#[trigger] before[i] matches Ok(rows)
                && rows.answers() == fetch_order()[i]) by {
                assert(before[i] == outcomes[i]);
            }
        }
        assert(before[k] == outcomes[k]);
        lemma_fetch_fails_with_first_failure(ctx, before, k, e);
    }
}

/// Fetching is idempotent: every fetch from a store that nothing writes to,
/// and whose four reads succeed, yields the four sequences of that store,
/// element for element. Two such fetches therefore agree.
pub proof fn lemma_fetch_is_idempotent(
    ctx: CommitCloudContext,
    store: spec_fn(StoreRead) -> Result<StoreRows, StorageError>,
    heads: Vec<WorkspaceHead>,
    local_bookmarks: Vec<WorkspaceLocalBookmark>,
    remote_bookmarks: Vec<WorkspaceRemoteBookmark>,
    snapshots: Vec<WorkspaceSnapshot>,
)
    requires
        store(StoreRead::Heads) == Ok::<StoreRows, StorageError>(StoreRows::Heads(heads)),
        store(StoreRead::LocalBookmarks) == Ok::<StoreRows, StorageError>(
            StoreRows::LocalBookmarks(local_bookmarks),
        ),
        store(StoreRead::RemoteBookmarks) == Ok::<StoreRows, StorageError>(
            StoreRows::RemoteBookmarks(remote_bookmarks),
        ),
        store(StoreRead::Snapshots) == Ok::<StoreRows, StorageError>(
            StoreRows::Snapshots(snapshots),
        ),
    ensures
        fetch_from(ctx, store) == FetchStep::Done(
            RawReferencesData { heads, local_bookmarks, remote_bookmarks, snapshots },
        ),
{
    lemma_fetch_yields_what_was_read(ctx, heads, local_bookmarks, remote_bookmarks, snapshots);
    assert(Seq::new(4, |i: int| store(fetch_order()[i])) =~= seq![
        Ok(StoreRows::Heads(heads)),
        Ok(StoreRows::LocalBookmarks(local_bookmarks)),
        Ok(StoreRows::RemoteBookmarks(remote_bookmarks)),
        Ok(StoreRows::Snapshots(snapshots)),
    ]);
}

} // verus!

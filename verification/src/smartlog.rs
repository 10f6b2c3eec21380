//! Reading what a smartlog is drawn from.
//!
//! The heads are always read. The local bookmarks are read, as a map from
//! commit to names, only where the caller asks for all bookmarks; the remote
//! bookmarks, as a map from commit to bookmarks, only where the caller asks
//! for them. A category that was not asked for stays absent, which is not
//! the same as a category that was read and found empty.

use vstd::prelude::*;
use crate::entities::CommitCloudContext;
use crate::entities::LocalBookmarksMap;
use crate::entities::RawSmartlogData;
use crate::entities::RemoteBookmarksMap;
use crate::entities::WorkspaceHead;
use crate::store::FetchError;
use crate::store::StorageError;
use crate::store::StoreRead;
use crate::store::StoreRows;

verus! {

/// What a caller may ask a smartlog to hold.
#[derive(Clone, Copy, Debug, PartialEq, Eq, Structural)]
pub enum GetSmartlogFlag {
    SkipPublicCommitsMetadata,
    /// Include the commits that remote bookmarks point to.
    AddRemoteBookmarks,
    /// Include the commits that local bookmarks point to.
    AddAllBookmarks,
}

/// What a smartlog fetch has read so far and which categories it still
/// wants. Each variant is named after the read that is awaited.
#[derive(Debug)]
pub enum PendingSmartlog {
    Heads { wants_local: bool, wants_remote: bool },
    LocalBookmarks { heads: Vec<WorkspaceHead>, wants_remote: bool },
    RemoteBookmarks { heads: Vec<WorkspaceHead>, local_bookmarks: Option<LocalBookmarksMap> },
}

/// A smartlog fetch under way: the workspace that is read, and what has been
/// read of it so far.
#[derive(Debug)]
pub struct SmartlogFetcher {
    pub ctx: CommitCloudContext,
    pub pending: PendingSmartlog,
}

/// What a smartlog fetcher turns into when it takes the outcome of a read.
/// The read is to be made on the workspace of the fetcher.
#[derive(Debug)]
pub enum SmartlogStep {
    /// The fetch goes on with this read.
    Read(SmartlogFetcher, StoreRead),
    /// Everything that was asked for is read.
    Done(RawSmartlogData),
    /// The fetch failed.
    Failed(FetchError),
}

/// Whether the flags ask for the local bookmarks.
pub open spec fn wants_local_bookmarks(flags: Seq<GetSmartlogFlag>) -> bool {
    flags.contains(GetSmartlogFlag::AddAllBookmarks)
}

/// Whether the flags ask for the remote bookmarks.
pub open spec fn wants_remote_bookmarks(flags: Seq<GetSmartlogFlag>) -> bool {
    flags.contains(GetSmartlogFlag::AddRemoteBookmarks)
}

/// The fetch once the heads and the local bookmarks are settled: it reads
/// the remote bookmarks where they are wanted, and is complete otherwise.
pub open spec fn with_local_bookmarks(
    ctx: CommitCloudContext,
    heads: Vec<WorkspaceHead>,
    local_bookmarks: Option<LocalBookmarksMap>,
    wants_remote: bool,
) -> SmartlogStep {
    if wants_remote {
        SmartlogStep::Read(
            SmartlogFetcher {
                ctx,
                pending: PendingSmartlog::RemoteBookmarks { heads, local_bookmarks },
            },
            StoreRead::RemoteBookmarksMap,
        )
    } else {
        SmartlogStep::Done(RawSmartlogData { heads, local_bookmarks, remote_bookmarks: None })
    }
}

/// The fetch once the heads are read: it reads the local bookmarks where
/// they are wanted, and goes on without them otherwise.
pub open spec fn with_heads(
    ctx: CommitCloudContext,
    heads: Vec<WorkspaceHead>,
    wants_local: bool,
    wants_remote: bool,
) -> SmartlogStep {
    if wants_local {
        SmartlogStep::Read(
            SmartlogFetcher { ctx, pending: PendingSmartlog::LocalBookmarks { heads, wants_remote } },
            StoreRead::LocalBookmarksMap,
        )
    } else {
        with_local_bookmarks(ctx, heads, None, wants_remote)
    }
}

impl SmartlogFetcher {
    /// The read that the fetcher waits for.
    pub open spec fn awaiting(&self) -> StoreRead {
        match self.pending {
            PendingSmartlog::Heads { .. } => StoreRead::Heads,
            PendingSmartlog::LocalBookmarks { .. } => StoreRead::LocalBookmarksMap,
            PendingSmartlog::RemoteBookmarks { .. } => StoreRead::RemoteBookmarksMap,
        }
    }

    /// What the fetcher turns into on `outcome`: a failure of the store is
    /// passed on, rows of another kind than the awaited one are refused, and
    /// the awaited rows are kept as they came.
    pub open spec fn next(self, outcome: Result<StoreRows, StorageError>) -> SmartlogStep {
        match outcome {
            Err(e) => SmartlogStep::Failed(FetchError::Storage(e)),
            Ok(rows) => match (self.pending, rows) {
                (PendingSmartlog::Heads { wants_local, wants_remote }, StoreRows::Heads(heads)) => {
                    with_heads(self.ctx, heads, wants_local, wants_remote)
                },
                (
                    PendingSmartlog::LocalBookmarks { heads, wants_remote },
                    StoreRows::LocalBookmarksMap(local_bookmarks),
                ) => with_local_bookmarks(self.ctx, heads, Some(local_bookmarks), wants_remote),
                (
                    PendingSmartlog::RemoteBookmarks { heads, local_bookmarks },
                    StoreRows::RemoteBookmarksMap(remote_bookmarks),
                ) => SmartlogStep::Done(
                    RawSmartlogData {
                        heads,
                        local_bookmarks,
                        remote_bookmarks: Some(remote_bookmarks),
                    },
                ),
                _ => SmartlogStep::Failed(FetchError::UnexpectedReply),
            },
        }
    }

    /// Takes the outcome of the read that the fetcher waits for.
    pub fn step(self, outcome: Result<StoreRows, StorageError>) -> (step: SmartlogStep)
        ensures
            step == self.next(outcome),
    {
        let rows = match outcome {
            Ok(rows) => rows,
            Err(e) => {
                return SmartlogStep::Failed(FetchError::Storage(e));
            },
        };
        let SmartlogFetcher { ctx, pending } = self;
        match pending {
            PendingSmartlog::Heads { wants_local, wants_remote } => match rows {
                StoreRows::Heads(heads) => {
                    if wants_local {
                        SmartlogStep::Read(
                            SmartlogFetcher {
                                ctx,
                                pending: PendingSmartlog::LocalBookmarks { heads, wants_remote },
                            },
                            StoreRead::LocalBookmarksMap,
                        )
                    } else {
                        settle_local_bookmarks(ctx, heads, None, wants_remote)
                    }
                },
                _ => SmartlogStep::Failed(FetchError::UnexpectedReply),
            },
            PendingSmartlog::LocalBookmarks { heads, wants_remote } => match rows {
                StoreRows::LocalBookmarksMap(local_bookmarks) => settle_local_bookmarks(
                    ctx,
                    heads,
                    Some(local_bookmarks),
                    wants_remote,
                ),
                _ => SmartlogStep::Failed(FetchError::UnexpectedReply),
            },
            PendingSmartlog::RemoteBookmarks { heads, local_bookmarks } => match rows {
                StoreRows::RemoteBookmarksMap(remote_bookmarks) => SmartlogStep::Done(
                    RawSmartlogData {
                        heads,
                        local_bookmarks,
                        remote_bookmarks: Some(remote_bookmarks),
                    },
                ),
                _ => SmartlogStep::Failed(FetchError::UnexpectedReply),
            },
        }
    }
}

/// Goes on to the remote bookmarks where they are wanted, and completes the
/// fetch otherwise.
fn settle_local_bookmarks(
    ctx: CommitCloudContext,
    heads: Vec<WorkspaceHead>,
    local_bookmarks: Option<LocalBookmarksMap>,
    wants_remote: bool,
) -> (step: SmartlogStep)
    ensures
        step == with_local_bookmarks(ctx, heads, local_bookmarks, wants_remote),
{
    if wants_remote {
        SmartlogStep::Read(
            SmartlogFetcher {
                ctx,
                pending: PendingSmartlog::RemoteBookmarks { heads, local_bookmarks },
            },
            StoreRead::RemoteBookmarksMap,
        )
    } else {
        SmartlogStep::Done(RawSmartlogData { heads, local_bookmarks, remote_bookmarks: None })
    }
}

/// Whether `flag` is among `flags`.
pub fn has_flag(flags: &[GetSmartlogFlag], flag: GetSmartlogFlag) -> (found: bool)
    ensures
        found == flags@.contains(flag),
{
    let mut i: usize = 0;
    while i < flags.len()
        invariant
            i <= flags@.len(),
            forall|j: int| 0 <= j < i ==> flags@[j] != flag,
        decreases flags@.len() - i,
    {
        if flags[i] == flag {
            return true;
        }
        i += 1;
    }
    false
}

/// The fetcher of the workspace `ctx` that waits for the heads and wants the
/// bookmark categories that `flags` ask for.
pub open spec fn smartlog_start(ctx: CommitCloudContext, flags: Seq<GetSmartlogFlag>)
    -> SmartlogFetcher {
    SmartlogFetcher {
        ctx,
        pending: PendingSmartlog::Heads {
            wants_local: wants_local_bookmarks(flags),
            wants_remote: wants_remote_bookmarks(flags),
        },
    }
}

impl RawSmartlogData {
    /// Starts a fetch of what a smartlog of the workspace `ctx` with the
    /// given flags is drawn from: the fetcher, and the first read to make.
    pub fn fetch_smartlog_references(ctx: &CommitCloudContext, flags: &[GetSmartlogFlag]) -> (start:
        (SmartlogFetcher, StoreRead))
        ensures
            start == (smartlog_start(*ctx, flags@), StoreRead::Heads),
    {
        let wants_local = has_flag(flags, GetSmartlogFlag::AddAllBookmarks);
        let wants_remote = has_flag(flags, GetSmartlogFlag::AddRemoteBookmarks);
        (
            SmartlogFetcher {
                ctx: ctx.duplicate(),
                pending: PendingSmartlog::Heads { wants_local, wants_remote },
            },
            StoreRead::Heads,
        )
    }
}

/// The reads of a smartlog fetch with the given flags, in the order in which
/// they are made.
pub open spec fn smartlog_reads(flags: Seq<GetSmartlogFlag>) -> Seq<StoreRead> {
    seq![StoreRead::Heads] + (if wants_local_bookmarks(flags) {
        seq![StoreRead::LocalBookmarksMap]
    } else {
        Seq::empty()
    }) + (if wants_remote_bookmarks(flags) {
        seq![StoreRead::RemoteBookmarksMap]
    } else {
        Seq::empty()
    })
}

/// What a smartlog fetch has come to once the reads made so far had the
/// given outcomes, the outcome of the first read first. Outcomes that arrive
/// after the fetch has ended change nothing.
pub open spec fn smartlog_run(
    ctx: CommitCloudContext,
    flags: Seq<GetSmartlogFlag>,
    outcomes: Seq<Result<StoreRows, StorageError>>,
) -> SmartlogStep
    decreases outcomes.len(),
{
    if outcomes.len() == 0 {
        SmartlogStep::Read(smartlog_start(ctx, flags), StoreRead::Heads)
    } else {
        match smartlog_run(ctx, flags, outcomes.drop_last()) {
            SmartlogStep::Read(fetcher, _) => fetcher.next(outcomes.last()),
            ended => ended,
        }
    }
}

/// A smartlog fetch makes the reads that its flags ask for, in their order,
/// and yields what they brought. While it goes on, it has taken one outcome
/// for each read before the awaited one. Once it is done, the heads are
/// those of the first read, each category that was asked for is present and
/// holds what its read brought, and each category that was not asked for is
/// absent.
pub proof fn lemma_smartlog_shape(
    ctx: CommitCloudContext,
    flags: Seq<GetSmartlogFlag>,
    outcomes: Seq<Result<StoreRows, StorageError>>,
)
    ensures
        match smartlog_run(ctx, flags, outcomes) {
            SmartlogStep::Read(fetcher, read) => {
                &&& outcomes.len() < smartlog_reads(flags).len()
                &&& read == smartlog_reads(flags)[outcomes.len() as int]
                &&& fetcher.awaiting() == read
                &&& fetcher.ctx == ctx
            },
            SmartlogStep::Done(data) => {
                let reads = smartlog_reads(flags);
                &&& outcomes.len() >= reads.len()
                &&& outcomes[0] == Ok::<StoreRows, StorageError>(StoreRows::Heads(data.heads))
                &&& data.local_bookmarks is Some <==> wants_local_bookmarks(flags)
                &&& data.remote_bookmarks is Some <==> wants_remote_bookmarks(flags)
                &&& data.local_bookmarks matches Some(local) ==> outcomes[1] == Ok::<
                    StoreRows,
                    StorageError,
                >(StoreRows::LocalBookmarksMap(local))
                &&& data.remote_bookmarks matches Some(remote) ==> outcomes[reads.len() - 1]
                    == Ok::<StoreRows, StorageError>(StoreRows::RemoteBookmarksMap(remote))
            },
            SmartlogStep::Failed(_) => true,
        },
    decreases outcomes.len(),
{
    lemma_smartlog_progress(ctx, flags, outcomes);
}

/// What a smartlog fetcher holds while the fetch goes on, and what the data
/// holds once it is done.
proof fn lemma_smartlog_progress(
    ctx: CommitCloudContext,
    flags: Seq<GetSmartlogFlag>,
    outcomes: Seq<Result<StoreRows, StorageError>>,
)
    ensures
        match smartlog_run(ctx, flags, outcomes) {
            SmartlogStep::Read(fetcher, read) => {
                &&& outcomes.len() < smartlog_reads(flags).len()
                &&& read == smartlog_reads(flags)[outcomes.len() as int]
                &&& fetcher.awaiting() == read
                &&& fetcher.ctx == ctx
                &&& match fetcher.pending {
                    PendingSmartlog::Heads { wants_local, wants_remote } => {
                        &&& outcomes.len() == 0
                        &&& wants_local == wants_local_bookmarks(flags)
                        &&& wants_remote == wants_remote_bookmarks(flags)
                    },
                    PendingSmartlog::LocalBookmarks { heads, wants_remote } => {
                        &&& outcomes.len() == 1
                        &&& wants_local_bookmarks(flags)
                        &&& wants_remote == wants_remote_bookmarks(flags)
                        &&& outcomes[0] == Ok::<StoreRows, StorageError>(StoreRows::Heads(heads))
                    },
                    PendingSmartlog::RemoteBookmarks { heads, local_bookmarks } => {
                        &&& outcomes.len() == smartlog_reads(flags).len() - 1
                        &&& wants_remote_bookmarks(flags)
                        &&& outcomes[0] == Ok::<StoreRows, StorageError>(StoreRows::Heads(heads))
                        &&& local_bookmarks is Some <==> wants_local_bookmarks(flags)
                        &&& local_bookmarks matches Some(local) ==> outcomes[1] == Ok::<
                            StoreRows,
                            StorageError,
                        >(StoreRows::LocalBookmarksMap(local))
                    },
                }
            },
            SmartlogStep::Done(data) => {
                let reads = smartlog_reads(flags);
                &&& outcomes.len() >= reads.len()
                &&& outcomes[0] == Ok::<StoreRows, StorageError>(StoreRows::Heads(data.heads))
                &&& data.local_bookmarks is Some <==> wants_local_bookmarks(flags)
                &&& data.remote_bookmarks is Some <==> wants_remote_bookmarks(flags)
                &&& data.local_bookmarks matches Some(local) ==> outcomes[1] == Ok::<
                    StoreRows,
                    StorageError,
                >(StoreRows::LocalBookmarksMap(local))
                &&& data.remote_bookmarks matches Some(remote) ==> outcomes[reads.len() - 1]
                    == Ok::<StoreRows, StorageError>(StoreRows::RemoteBookmarksMap(remote))
            },
            SmartlogStep::Failed(_) => true,
        },
    decreases outcomes.len(),
{
    if outcomes.len() > 0 {
        let before = outcomes.drop_last();
        lemma_smartlog_progress(ctx, flags, before);
        assert forall|i: int| 0 <= i < before.len() implies before[i] == outcomes[i] by {}
        assert(outcomes.last() == outcomes[outcomes.len() - 1]);
    }
}

/// A smartlog fetch whose reads all succeed, each with rows of its kind, is
/// done after the last of them.
pub proof fn lemma_smartlog_completes(
    ctx: CommitCloudContext,
    flags: Seq<GetSmartlogFlag>,
    outcomes: Seq<Result<StoreRows, StorageError>>,
)
    requires
        outcomes.len() <= smartlog_reads(flags).len(),
        forall|i: int|
            0 <= i < outcomes.len() ==> (#[trigger] outcomes[i] matches Ok(rows) && rows.answers()
                == smartlog_reads(flags)[i]),
    ensures
        outcomes.len() < smartlog_reads(flags).len() ==> smartlog_run(ctx, flags, outcomes) is Read,
        outcomes.len() == smartlog_reads(flags).len() ==> smartlog_run(ctx, flags, outcomes) is Done,
    decreases outcomes.len(),
{
    if outcomes.len() > 0 {
        let before = outcomes.drop_last();
        assert forall|i: int| 0 <= i < before.len() implies (#[trigger] before[i] matches Ok(rows)
            && rows.answers() == smartlog_reads(flags)[i]) by {
            assert(before[i] == outcomes[i]);
        }
        lemma_smartlog_completes(ctx, flags, before);
        lemma_smartlog_progress(ctx, flags, before);
        assert(outcomes.last() == outcomes[outcomes.len() - 1]);
    }
}

/// A smartlog fetch fails with the failure of the first read that fails.
pub proof fn lemma_smartlog_fails_with_first_failure(
    ctx: CommitCloudContext,
    flags: Seq<GetSmartlogFlag>,
    outcomes: Seq<Result<StoreRows, StorageError>>,
    k: int,
    e: StorageError,
)
    requires
        0 <= k < outcomes.len(),
        k < smartlog_reads(flags).len(),
        forall|i: int|
            0 <= i < k ==> (#[trigger] outcomes[i] matches Ok(rows) && rows.answers()
                == smartlog_reads(flags)[i]),
        outcomes[k] == Err::<StoreRows, StorageError>(e),
    ensures
        smartlog_run(ctx, flags, outcomes) == SmartlogStep::Failed(FetchError::Storage(e)),
    decreases outcomes.len(),
{
    let before = outcomes.drop_last();
    assert forall|i: int| 0 <= i < k && i < before.len() implies (#[trigger] before[i] matches Ok(
        rows,
    ) && rows.answers() == smartlog_reads(flags)[i]) by {
        assert(before[i] == outcomes[i]);
    }
    if k == outcomes.len() - 1 {
        lemma_smartlog_completes(ctx, flags, before);
    } else {
        assert(before[k] == outcomes[k]);
        lemma_smartlog_fails_with_first_failure(ctx, flags, before, k, e);
    }
}

} // verus!

//! What passes between the coordinators and the entity stores: the reads
//! that can be asked for, the rows that come back, and the failures that the
//! stores report.

use vstd::prelude::*;
use crate::entities::LocalBookmarksMap;
use crate::entities::RemoteBookmarksMap;
use crate::entities::WorkspaceHead;
use crate::entities::WorkspaceLocalBookmark;
use crate::entities::WorkspaceRemoteBookmark;
use crate::entities::WorkspaceSnapshot;

verus! {

/// A failure reported by a store or a collaborator, passed on as it came.
#[derive(Clone, Debug, PartialEq, Eq)]
pub struct StorageError {
    pub message: String,
}

/// A read of one kind of reference of a workspace.
#[derive(Clone, Copy, Debug, PartialEq, Eq, Structural)]
pub enum StoreRead {
    /// All heads, as a sequence.
    Heads,
    /// All local bookmarks, as a sequence.
    LocalBookmarks,
    /// All remote bookmarks, as a sequence.
    RemoteBookmarks,
    /// All snapshots, as a sequence.
    Snapshots,
    /// The local bookmark names by commit.
    LocalBookmarksMap,
    /// The remote bookmarks by commit.
    RemoteBookmarksMap,
}

/// The rows that a [`StoreRead`] brought.
#[derive(Debug)]
pub enum StoreRows {
    Heads(Vec<WorkspaceHead>),
    LocalBookmarks(Vec<WorkspaceLocalBookmark>),
    RemoteBookmarks(Vec<WorkspaceRemoteBookmark>),
    Snapshots(Vec<WorkspaceSnapshot>),
    LocalBookmarksMap(LocalBookmarksMap),
    RemoteBookmarksMap(RemoteBookmarksMap),
}

/// Why a fetch failed.
#[derive(Clone, Debug, PartialEq, Eq)]
pub enum FetchError {
    /// A read failed in the store.
    Storage(StorageError),
    /// Rows arrived that are not of the kind that was asked for.
    UnexpectedReply,
}

impl StoreRows {
    /// The read that these rows answer.
    pub open spec fn answers(&self) -> StoreRead {
        match self {
            StoreRows::Heads(_) => StoreRead::Heads,
            StoreRows::LocalBookmarks(_) => StoreRead::LocalBookmarks,
            StoreRows::RemoteBookmarks(_) => StoreRead::RemoteBookmarks,
            StoreRows::Snapshots(_) => StoreRead::Snapshots,
            StoreRows::LocalBookmarksMap(_) => StoreRead::LocalBookmarksMap,
            StoreRows::RemoteBookmarksMap(_) => StoreRead::RemoteBookmarksMap,
        }
    }

    /// The read that these rows answer.
    pub fn kind(&self) -> (read: StoreRead)
        ensures
            read == self.answers(),
    {
        match self {
            StoreRows::Heads(_) => StoreRead::Heads,
            StoreRows::LocalBookmarks(_) => StoreRead::LocalBookmarks,
            StoreRows::RemoteBookmarks(_) => StoreRead::RemoteBookmarks,
            StoreRows::Snapshots(_) => StoreRead::Snapshots,
            StoreRows::LocalBookmarksMap(_) => StoreRead::LocalBookmarksMap,
            StoreRows::RemoteBookmarksMap(_) => StoreRead::RemoteBookmarksMap,
        }
    }
}

} // verus!

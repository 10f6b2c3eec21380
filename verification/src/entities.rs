//! The references of a workspace, as the entity stores hold them, and the
//! two snapshots they are read into.

use vstd::prelude::*;
use crate::ids::HgChangesetId;
use crate::ids::HgId;
use crate::listmap::ListMap;

verus! {

/// The compound key of every entity: a repository and a workspace in it.
#[derive(Clone, Debug, PartialEq, Eq)]
pub struct CommitCloudContext {
    pub reponame: String,
    pub workspace: String,
}

/// Who asked for a write, for the audit trail of the stores.
#[derive(Clone, Debug, PartialEq, Eq)]
pub struct ClientRequestInfo {
    pub correlator: String,
    pub entry_point: String,
}

/// For whom a write is made, if that is known, and on which workspace.
#[derive(Clone, Debug, PartialEq, Eq)]
pub struct WriteScope {
    pub cri: Option<ClientRequestInfo>,
    pub ctx: CommitCloudContext,
}

impl CommitCloudContext {
    /// A copy of the key.
    pub fn duplicate(&self) -> (copy: Self)
        ensures
            copy == *self,
    {
        CommitCloudContext { reponame: self.reponame.clone(), workspace: self.workspace.clone() }
    }
}

impl ClientRequestInfo {
    /// A copy of the token.
    pub fn duplicate(&self) -> (copy: Self)
        ensures
            copy == *self,
    {
        ClientRequestInfo {
            correlator: self.correlator.clone(),
            entry_point: self.entry_point.clone(),
        }
    }
}

impl WriteScope {
    /// The scope of a write on `ctx` that `cri` asked for.
    pub open spec fn of(cri: Option<&ClientRequestInfo>, ctx: &CommitCloudContext) -> WriteScope {
        WriteScope {
            cri: match cri {
                Some(cri) => Some(*cri),
                None => None,
            },
            ctx: *ctx,
        }
    }

    /// The scope of a write on `ctx` that `cri` asked for.
    pub fn new(cri: Option<&ClientRequestInfo>, ctx: &CommitCloudContext) -> (scope: Self)
        ensures
            scope == Self::of(cri, ctx),
    {
        WriteScope {
            cri: match cri {
                Some(cri) => Some(cri.duplicate()),
                None => None,
            },
            ctx: ctx.duplicate(),
        }
    }
}

/// A branch tip tracked for a workspace.
#[derive(Clone, Copy, Debug, PartialEq, Eq)]
pub struct WorkspaceHead {
    pub commit: HgChangesetId,
}

/// A named pointer to a commit, unique by name within a workspace.
#[derive(Clone, Debug, PartialEq, Eq)]
pub struct WorkspaceLocalBookmark {
    pub name: String,
    pub commit: HgChangesetId,
}

/// A bookmark of a remote, unique by remote and name within a workspace.
#[derive(Clone, Debug, PartialEq, Eq)]
pub struct WorkspaceRemoteBookmark {
    pub remote: String,
    pub name: String,
    pub commit: HgChangesetId,
}

/// An uncommitted working-copy state captured for a workspace.
#[derive(Clone, Copy, Debug, PartialEq, Eq)]
pub struct WorkspaceSnapshot {
    pub commit: HgChangesetId,
}

/// A remote bookmark as clients see it.
#[derive(Clone, Debug, PartialEq, Eq)]
pub struct RemoteBookmark {
    pub remote: String,
    pub name: String,
    pub node: Option<HgId>,
}

/// Local bookmark names by the commit they point to.
pub type LocalBookmarksMap = ListMap<HgChangesetId, Vec<String>>;

/// Remote bookmarks by the commit they point to.
pub type RemoteBookmarksMap = ListMap<HgChangesetId, Vec<RemoteBookmark>>;

/// Everything a workspace references, as read from the entity stores.
#[derive(Clone, Debug, PartialEq, Eq)]
pub struct RawReferencesData {
    pub heads: Vec<WorkspaceHead>,
    pub local_bookmarks: Vec<WorkspaceLocalBookmark>,
    pub remote_bookmarks: Vec<WorkspaceRemoteBookmark>,
    pub snapshots: Vec<WorkspaceSnapshot>,
}

/// What a smartlog is drawn from. A bookmark category that was not asked for
/// is `None`; one that was asked for and turned out empty is an empty map.
#[derive(Debug)]
pub struct RawSmartlogData {
    pub heads: Vec<WorkspaceHead>,
    pub local_bookmarks: Option<LocalBookmarksMap>,
    pub remote_bookmarks: Option<RemoteBookmarksMap>,
}

impl WorkspaceLocalBookmark {
    pub fn new(name: String, commit: HgChangesetId) -> (b: Self)
        ensures
            b.name == name,
            b.commit == commit,
    {
        WorkspaceLocalBookmark { name, commit }
    }

    pub fn name(&self) -> (n: &String)
        ensures
            *n == self.name,
    {
        &self.name
    }

    pub fn commit(&self) -> (c: &HgChangesetId)
        ensures
            *c == self.commit,
    {
        &self.commit
    }
}

impl WorkspaceRemoteBookmark {
    pub fn new(remote: String, name: String, commit: HgChangesetId) -> (b: Self)
        ensures
            b.remote == remote,
            b.name == name,
            b.commit == commit,
    {
        WorkspaceRemoteBookmark { remote, name, commit }
    }

    pub fn remote(&self) -> (r: &String)
        ensures
            *r == self.remote,
    {
        &self.remote
    }

    pub fn name(&self) -> (n: &String)
        ensures
            *n == self.name,
    {
        &self.name
    }

    pub fn commit(&self) -> (c: &HgChangesetId)
        ensures
            *c == self.commit,
    {
        &self.commit
    }
}

/// The commits of a sequence of heads, in order.
pub open spec fn head_commits(heads: Seq<WorkspaceHead>) -> Seq<HgChangesetId> {
    Seq::new(heads.len(), |i: int| heads[i].commit)
}

/// The commits of a sequence of snapshots, in order.
pub open spec fn snapshot_commits(snapshots: Seq<WorkspaceSnapshot>) -> Seq<HgChangesetId> {
    Seq::new(snapshots.len(), |i: int| snapshots[i].commit)
}

/// The keys of a bookmark category in walking order; nothing for a category
/// that is absent.
pub open spec fn category_commits<V>(category: Option<ListMap<HgChangesetId, V>>) -> Seq<
    HgChangesetId,
> {
    match category {
        Some(m) => m.keys(),
        None => Seq::empty(),
    }
}

impl RawSmartlogData {
    /// The node list of the smartlog: the heads as fetched, then the commits
    /// that remote bookmarks point to, then those that local bookmarks point
    /// to. Nothing is merged: a commit that several references name occurs
    /// once for each.
    pub open spec fn collapsed(&self) -> Seq<HgChangesetId> {
        head_commits(self.heads@) + category_commits(self.remote_bookmarks) + category_commits(
            self.local_bookmarks,
        )
    }

    /// Flattens the heads and the bookmarks into one list of commits.
    pub fn collapse_into_vec(&self) -> (nodes: Vec<HgChangesetId>)
        ensures
            nodes@ == self.collapsed(),
    {
        let mut nodes: Vec<HgChangesetId> = Vec::new();
        let mut i: usize = 0;
        while i < self.heads.len()
            invariant
                i <= self.heads@.len(),
                nodes@ == head_commits(self.heads@).take(i as int),
            decreases self.heads@.len() - i,
        {
            nodes.push(self.heads[i].commit);
            i += 1;
            assert(nodes@ =~= head_commits(self.heads@).take(i as int));
        }
        assert(nodes@ =~= head_commits(self.heads@));
        if let Some(remote_bookmarks) = &self.remote_bookmarks {
            append_keys(&mut nodes, remote_bookmarks);
        }
        if let Some(local_bookmarks) = &self.local_bookmarks {
            append_keys(&mut nodes, local_bookmarks);
        }
        assert(nodes@ =~= self.collapsed());
        nodes
    }
}

/// Appends the keys of `map` to `nodes`, in walking order.
fn append_keys<V>(nodes: &mut Vec<HgChangesetId>, map: &ListMap<HgChangesetId, V>)
    ensures
        final(nodes)@ == old(nodes)@ + map.keys(),
{
    let n = map.len();
    let mut i: usize = 0;
    while i < n
        invariant
            n == map.keys().len(),
            i <= n,
            nodes@ == old(nodes)@ + map.keys().take(i as int),
        decreases n - i,
    {
        nodes.push(*map.key_at(i));
        i += 1;
        assert(nodes@ =~= old(nodes)@ + map.keys().take(i as int));
    }
    assert(map.keys().take(n as int) =~= map.keys());
}

} // verus!

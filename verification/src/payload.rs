//! The reference payload that clients receive, and the parts of it that are
//! computed from a raw snapshot alone.

use vstd::prelude::*;
use crate::entities::RemoteBookmark;
use crate::entities::WorkspaceLocalBookmark;
use crate::entities::WorkspaceRemoteBookmark;
use crate::ids::HgId;
use crate::listmap::ListMap;

verus! {

/// The references of a workspace as clients see them. Every category is
/// optional so that a category which was not asked for can be left out.
#[derive(Debug)]
pub struct ReferencesData {
    pub version: u64,
    pub heads: Option<Vec<HgId>>,
    pub bookmarks: Option<ListMap<String, HgId>>,
    pub heads_dates: Option<ListMap<HgId, i64>>,
    pub remote_bookmarks: Option<Vec<RemoteBookmark>>,
    pub snapshots: Option<Vec<HgId>>,
    pub timestamp: Option<i64>,
}

/// The bookmark map that a sequence of local bookmarks stands for: each name
/// with the commit of the last bookmark that carries it.
pub open spec fn bookmarks_of(bookmarks: Seq<WorkspaceLocalBookmark>) -> Map<Seq<char>, HgId>
    decreases bookmarks.len(),
{
    if bookmarks.len() == 0 {
        Map::empty()
    } else {
        bookmarks_of(bookmarks.drop_last()).insert(
            bookmarks.last().name@,
            HgId::of_native(bookmarks.last().commit),
        )
    }
}

/// A stored remote bookmark as clients see it.
pub open spec fn presented(bookmark: WorkspaceRemoteBookmark) -> RemoteBookmark {
    RemoteBookmark {
        remote: bookmark.remote,
        name: bookmark.name,
        node: Some(HgId::of_native(bookmark.commit)),
    }
}

/// The stored remote bookmarks as clients see them, in order.
pub open spec fn remote_bookmarks_of(bookmarks: Seq<WorkspaceRemoteBookmark>) -> Seq<
    RemoteBookmark,
> {
    Seq::new(bookmarks.len(), |i: int| presented(bookmarks[i]))
}

/// Builds the bookmark map of a payload.
pub fn cast_bookmarks(bookmarks: &Vec<WorkspaceLocalBookmark>) -> (out: ListMap<String, HgId>)
    ensures
        out@ == bookmarks_of(bookmarks@),
{
    let mut out: ListMap<String, HgId> = ListMap::new();
    let mut i: usize = 0;
    while i < bookmarks.len()
        invariant
            i <= bookmarks@.len(),
            out@ == bookmarks_of(bookmarks@.take(i as int)),
        decreases bookmarks@.len() - i,
    {
        let bookmark = &bookmarks[i];
        out.insert(bookmark.name.clone(), HgId::from_native(bookmark.commit));
        i += 1;
        assert(bookmarks@.take(i as int).drop_last() =~= bookmarks@.take(i - 1));
    }
    assert(bookmarks@.take(i as int) =~= bookmarks@);
    out
}

/// Builds the remote bookmarks of a payload.
pub fn cast_remote_bookmarks(bookmarks: &Vec<WorkspaceRemoteBookmark>) -> (out: Vec<
    RemoteBookmark,
>)
    ensures
        out@ == remote_bookmarks_of(bookmarks@),
{
    let mut out: Vec<RemoteBookmark> = Vec::new();
    let mut i: usize = 0;
    while i < bookmarks.len()
        invariant
            i <= bookmarks@.len(),
            out@ == remote_bookmarks_of(bookmarks@).take(i as int),
        decreases bookmarks@.len() - i,
    {
        let bookmark = &bookmarks[i];
        out.push(
            RemoteBookmark {
                remote: bookmark.remote.clone(),
                name: bookmark.name.clone(),
                node: Some(HgId::from_native(bookmark.commit)),
            },
        );
        i += 1;
        assert(out@ =~= remote_bookmarks_of(bookmarks@).take(i as int));
    }
    assert(out@ =~= remote_bookmarks_of(bookmarks@));
    out
}

} // verus!

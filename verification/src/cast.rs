//! Casting a raw snapshot into the client-facing payload.
//!
//! Every head and every snapshot is resolved to its content-addressed
//! identifier through the commit mapping, and every head is then dated
//! through the derived commit metadata. Both are remote services, so the
//! caster is a state machine: it names the one question it waits for, takes
//! the answer, and either asks the next question, hands out the payload, or
//! fails. Questions are asked strictly one after the other, heads first and
//! in order, and the first failure ends the cast.

use vstd::prelude::*;
use crate::entities::head_commits;
use crate::entities::snapshot_commits;
use crate::entities::RawReferencesData;
use crate::ids::append_hex;
use crate::ids::hex_of;
use crate::ids::HgChangesetId;
use crate::ids::HgId;
use crate::listmap::ListMap;
use crate::payload::bookmarks_of;
use crate::payload::cast_bookmarks;
use crate::payload::cast_remote_bookmarks;
use crate::payload::remote_bookmarks_of;
use crate::payload::ReferencesData;
use crate::store::StorageError;

verus! {

/// Why a cast failed.
#[derive(Clone, Debug, PartialEq, Eq)]
pub enum CastError {
    /// The commit mapping has no entry for this head or snapshot.
    MissingMapping(HgChangesetId),
    /// No commit metadata is on record for this content address.
    MissingInfo(HgId),
    /// A collaborator failed.
    Collaborator(StorageError),
    /// An answer arrived that does not fit the question that was asked.
    UnexpectedReply,
}

impl CastError {
    /// What [`Self::describe`] says: which commit has no content address or
    /// no metadata, by its hexadecimal form, or what the collaborator
    /// reported.
    pub open spec fn description(&self) -> Seq<char> {
        match self {
            CastError::MissingMapping(commit) => "Changeset "@ + hex_of(commit@)
                + " not found in bonsai mapping"@,
            CastError::MissingInfo(address) => "No commit info for changeset "@ + hex_of(
                address@,
            ),
            CastError::Collaborator(e) => e.message@,
            CastError::UnexpectedReply => "Reply does not answer the request"@,
        }
    }

    /// The failure in words.
    pub fn describe(&self) -> (text: String)
        ensures
            text@ == self.description(),
    {
        match self {
            CastError::MissingMapping(commit) => {
                let mut text = String::from_str("Changeset ");
                append_hex(&mut text, &commit.bytes);
                text.append(" not found in bonsai mapping");
                text
            },
            CastError::MissingInfo(address) => {
                let mut text = String::from_str("No commit info for changeset ");
                append_hex(&mut text, &address.bytes);
                text
            },
            CastError::Collaborator(e) => e.message.clone(),
            CastError::UnexpectedReply => String::from_str("Reply does not answer the request"),
        }
    }
}

/// A question that the caster asks of a collaborator.
#[derive(Clone, Copy, Debug, PartialEq, Eq)]
pub enum CastRequest {
    /// What is the content address of this commit?
    Resolve(HgChangesetId),
    /// What is the author date of the commit at this content address?
    AuthorDate(HgId),
}

/// An answer to a [`CastRequest`].
#[derive(Clone, Debug, PartialEq, Eq)]
pub enum CastReply {
    /// The content address of the commit, or `None` where the mapping has no
    /// entry for it.
    Resolved(Option<HgId>),
    /// The author date, in seconds.
    AuthorDate(i64),
    /// The collaborator failed.
    Failed(StorageError),
}

/// How far a cast has come.
pub struct CastProgress {
    /// The content addresses of the heads dated so far.
    pub heads: Seq<HgId>,
    /// The author dates of those heads.
    pub heads_dates: Map<Seq<u8>, i64>,
    /// The content addresses of the snapshots resolved so far.
    pub snapshots: Seq<HgId>,
    /// The content address of the head that is being dated.
    pub pending: Option<HgId>,
}

/// The progress of a cast that has asked nothing yet.
pub open spec fn cast_initial() -> CastProgress {
    CastProgress {
        heads: Seq::empty(),
        heads_dates: Map::empty(),
        snapshots: Seq::empty(),
        pending: None,
    }
}

/// Whether every head is dated and every snapshot resolved.
pub open spec fn cast_complete(raw: RawReferencesData, p: CastProgress) -> bool {
    &&& p.pending is None
    &&& p.heads.len() >= raw.heads@.len()
    &&& p.snapshots.len() >= raw.snapshots@.len()
}

/// The question that a cast at progress `p` waits for.
pub open spec fn cast_awaiting(raw: RawReferencesData, p: CastProgress) -> CastRequest {
    match p.pending {
        Some(address) => CastRequest::AuthorDate(address),
        None => if p.heads.len() < raw.heads@.len() {
            CastRequest::Resolve(raw.heads@[p.heads.len() as int].commit)
        } else {
            CastRequest::Resolve(raw.snapshots@[p.snapshots.len() as int].commit)
        },
    }
}

/// The progress after `reply` arrives at progress `p`, or the failure that
/// the reply amounts to.
pub open spec fn cast_next(raw: RawReferencesData, p: CastProgress, reply: CastReply) -> Result<
    CastProgress,
    CastError,
> {
    match (cast_awaiting(raw, p), reply) {
        (_, CastReply::Failed(e)) => Err(CastError::Collaborator(e)),
        (CastRequest::Resolve(commit), CastReply::Resolved(None)) => Err(
            CastError::MissingMapping(commit),
        ),
        (CastRequest::Resolve(_), CastReply::Resolved(Some(address))) => if p.heads.len()
            < raw.heads@.len() {
            Ok(CastProgress { pending: Some(address), ..p })
        } else {
            Ok(CastProgress { snapshots: p.snapshots.push(address), ..p })
        },
        (CastRequest::AuthorDate(address), CastReply::AuthorDate(date)) => Ok(
            CastProgress {
                heads: p.heads.push(address),
                heads_dates: p.heads_dates.insert(address@, date),
                pending: None,
                ..p
            },
        ),
        _ => Err(CastError::UnexpectedReply),
    }
}

/// Whether `payload` presents `raw` at the given version, with the heads and
/// snapshots as the completed progress `p` resolved them.
pub open spec fn is_payload(
    payload: ReferencesData,
    raw: RawReferencesData,
    version: u64,
    timestamp: i64,
    p: CastProgress,
) -> bool {
    &&& payload.version == version
    &&& payload.timestamp == Some(timestamp)
    &&& payload.heads matches Some(heads) && heads@ == p.heads
    &&& payload.heads_dates matches Some(dates) && dates@ == p.heads_dates
    &&& payload.bookmarks matches Some(bookmarks) && bookmarks@ == bookmarks_of(
        raw.local_bookmarks@,
    )
    &&& payload.remote_bookmarks matches Some(remote) && remote@ == remote_bookmarks_of(
        raw.remote_bookmarks@,
    )
    &&& payload.snapshots matches Some(snapshots) && snapshots@ == p.snapshots
}

/// A cast under way: the snapshot being cast and what has been resolved of
/// it. A caster always waits for an answer; one that needs no further answer
/// has already turned into its payload.
#[derive(Debug)]
pub struct ReferenceCaster {
    raw: RawReferencesData,
    version: u64,
    timestamp: i64,
    heads: Vec<HgId>,
    heads_dates: ListMap<HgId, i64>,
    snapshots: Vec<HgId>,
    pending: Option<HgId>,
}

/// What a caster turns into when it starts or takes an answer.
#[derive(Debug)]
pub enum CastStep {
    /// The cast goes on: ask the question, and hand the answer to the caster.
    Ask(ReferenceCaster, CastRequest),
    /// The cast is complete.
    Done(ReferencesData),
    /// The cast failed; nothing of the payload is handed out.
    Failed(CastError),
}

impl ReferenceCaster {
    #[verifier::type_invariant]
    spec fn well_formed(&self) -> bool {
        &&& self.heads@.len() <= self.raw.heads@.len()
        &&& self.snapshots@.len() <= self.raw.snapshots@.len()
        &&& self.pending is Some ==> self.heads@.len() < self.raw.heads@.len()
        &&& self.snapshots@.len() > 0 ==> self.heads@.len() == self.raw.heads@.len()
        &&& !cast_complete(self.raw, self.progress())
    }

    /// The snapshot being cast.
    pub closed spec fn raw(&self) -> RawReferencesData {
        self.raw
    }

    /// The version that the payload will carry.
    pub closed spec fn version(&self) -> u64 {
        self.version
    }

    /// The timestamp that the payload will carry.
    pub closed spec fn timestamp(&self) -> i64 {
        self.timestamp
    }

    /// How far the cast has come.
    pub closed spec fn progress(&self) -> CastProgress {
        CastProgress {
            heads: self.heads@,
            heads_dates: self.heads_dates@,
            snapshots: self.snapshots@,
            pending: self.pending,
        }
    }

    /// Whether `self` is a cast of `raw` for `version` and `timestamp` that
    /// has come as far as `p`.
    pub open spec fn is_at(
        &self,
        raw: RawReferencesData,
        version: u64,
        timestamp: i64,
        p: CastProgress,
    ) -> bool {
        &&& self.raw() == raw
        &&& self.version() == version
        &&& self.timestamp() == timestamp
        &&& self.progress() == p
    }

    /// The question that the caster waits for.
    pub fn awaiting(&self) -> (request: CastRequest)
        ensures
            request == cast_awaiting(self.raw(), self.progress()),
            !cast_complete(self.raw(), self.progress()),
    {
        proof {
            use_type_invariant(self);
        }
        match self.pending {
            Some(address) => CastRequest::AuthorDate(address),
            None => if self.heads.len() < self.raw.heads.len() {
                CastRequest::Resolve(self.raw.heads[self.heads.len()].commit)
            } else {
                CastRequest::Resolve(self.raw.snapshots[self.snapshots.len()].commit)
            },
        }
    }

    /// Starts the cast of `raw` for a workspace at `latest_version`, last
    /// changed at `version_timestamp`.
    pub fn start(raw: RawReferencesData, latest_version: u64, version_timestamp: i64) -> (step:
        CastStep)
        ensures
            settled(step, raw, latest_version, version_timestamp, cast_initial()),
    {
        let heads_dates: ListMap<HgId, i64> = ListMap::new();
        settle(raw, latest_version, version_timestamp, Vec::new(), heads_dates, Vec::new(), None)
    }

    /// Takes the answer to the question that the caster waits for.
    pub fn step(self, reply: CastReply) -> (step: CastStep)
        ensures
            match cast_next(self.raw(), self.progress(), reply) {
                Ok(p) => settled(step, self.raw(), self.version(), self.timestamp(), p),
                Err(e) => step == CastStep::Failed(e),
            },
    {
        proof {
            use_type_invariant(&self);
        }
        let request = self.awaiting();
        let ReferenceCaster { raw, version, timestamp, heads, heads_dates, snapshots, pending } =
            self;
        let mut heads = heads;
        let mut heads_dates = heads_dates;
        let mut snapshots = snapshots;
        match reply {
            CastReply::Failed(e) => CastStep::Failed(CastError::Collaborator(e)),
            CastReply::Resolved(resolved) => match request {
                CastRequest::Resolve(commit) => match resolved {
                    None => CastStep::Failed(CastError::MissingMapping(commit)),
                    Some(address) => {
                        if heads.len() < raw.heads.len() {
                            settle(
                                raw,
                                version,
                                timestamp,
                                heads,
                                heads_dates,
                                snapshots,
                                Some(address),
                            )
                        } else {
                            snapshots.push(address);
                            settle(raw, version, timestamp, heads, heads_dates, snapshots, None)
                        }
                    },
                },
                CastRequest::AuthorDate(_) => CastStep::Failed(CastError::UnexpectedReply),
            },
            CastReply::AuthorDate(date) => match request {
                CastRequest::AuthorDate(address) => {
                    heads.push(address);
                    heads_dates.insert(address, date);
                    settle(raw, version, timestamp, heads, heads_dates, snapshots, None)
                },
                CastRequest::Resolve(_) => CastStep::Failed(CastError::UnexpectedReply),
            },
        }
    }
}

/// Whether `step` is what a cast that has come as far as `p` turns into: the
/// payload where nothing is left to ask, else a caster at `p` together with
/// its question.
pub open spec fn settled(
    step: CastStep,
    raw: RawReferencesData,
    version: u64,
    timestamp: i64,
    p: CastProgress,
) -> bool {
    if cast_complete(raw, p) {
        step matches CastStep::Done(payload) && is_payload(payload, raw, version, timestamp, p)
    } else {
        step matches CastStep::Ask(caster, request) && caster.is_at(raw, version, timestamp, p)
            && request == cast_awaiting(raw, p)
    }
}

/// Turns the parts of a cast into the payload where nothing is left to ask,
/// and into a caster with its question otherwise.
fn settle(
    raw: RawReferencesData,
    version: u64,
    timestamp: i64,
    heads: Vec<HgId>,
    heads_dates: ListMap<HgId, i64>,
    snapshots: Vec<HgId>,
    pending: Option<HgId>,
) -> (step: CastStep)
    requires
        heads@.len() <= raw.heads@.len(),
        snapshots@.len() <= raw.snapshots@.len(),
        pending is Some ==> heads@.len() < raw.heads@.len(),
        snapshots@.len() > 0 ==> heads@.len() == raw.heads@.len(),
    ensures
        settled(
            step,
            raw,
            version,
            timestamp,
            CastProgress {
                heads: heads@,
                heads_dates: heads_dates@,
                snapshots: snapshots@,
                pending,
            },
        ),
{
    if pending.is_none() && heads.len() == raw.heads.len() && snapshots.len()
        == raw.snapshots.len() {
        let bookmarks = cast_bookmarks(&raw.local_bookmarks);
        let remote_bookmarks = cast_remote_bookmarks(&raw.remote_bookmarks);
        CastStep::Done(
            ReferencesData {
                version,
                heads: Some(heads),
                bookmarks: Some(bookmarks),
                heads_dates: Some(heads_dates),
                remote_bookmarks: Some(remote_bookmarks),
                snapshots: Some(snapshots),
                timestamp: Some(timestamp),
            },
        )
    } else {
        let caster = ReferenceCaster {
            raw,
            version,
            timestamp,
            heads,
            heads_dates,
            snapshots,
            pending,
        };
        let request = caster.awaiting();
        CastStep::Ask(caster, request)
    }
}

/// The content addresses that `mapping` gives to `commits`, in order.
pub open spec fn resolved(commits: Seq<HgChangesetId>, mapping: Map<Seq<u8>, HgId>) -> Seq<HgId> {
    Seq::new(commits.len(), |i: int| mapping[commits[i]@])
}

/// The author dates of `addresses` as `dates` records them.
pub open spec fn dates_of(addresses: Seq<HgId>, dates: Map<Seq<u8>, i64>) -> Map<Seq<u8>, i64>
    decreases addresses.len(),
{
    if addresses.len() == 0 {
        Map::empty()
    } else {
        dates_of(addresses.drop_last(), dates).insert(
            addresses.last()@,
            dates[addresses.last()@],
        )
    }
}

/// The failure that the first head at or after position `i` which cannot be
/// resolved and dated gives rise to, if there is such a head.
pub open spec fn head_failure_from(
    commits: Seq<HgChangesetId>,
    mapping: Map<Seq<u8>, HgId>,
    dates: Map<Seq<u8>, i64>,
    i: int,
) -> Option<CastError>
    decreases commits.len() - i,
{
    if i < 0 || i >= commits.len() {
        None
    } else if !mapping.contains_key(commits[i]@) {
        Some(CastError::MissingMapping(commits[i]))
    } else if !dates.contains_key(mapping[commits[i]@]@) {
        Some(CastError::MissingInfo(mapping[commits[i]@]))
    } else {
        head_failure_from(commits, mapping, dates, i + 1)
    }
}

/// The failure that the first snapshot at or after position `i` which cannot
/// be resolved gives rise to, if there is such a snapshot.
pub open spec fn snapshot_failure_from(
    commits: Seq<HgChangesetId>,
    mapping: Map<Seq<u8>, HgId>,
    i: int,
) -> Option<CastError>
    decreases commits.len() - i,
{
    if i < 0 || i >= commits.len() {
        None
    } else if !mapping.contains_key(commits[i]@) {
        Some(CastError::MissingMapping(commits[i]))
    } else {
        snapshot_failure_from(commits, mapping, i + 1)
    }
}

/// The failure of casting `raw` against the given collaborators, if it fails:
/// that of the first head that cannot be resolved and dated, else that of the
/// first snapshot that cannot be resolved.
pub open spec fn cast_failure(
    raw: RawReferencesData,
    mapping: Map<Seq<u8>, HgId>,
    dates: Map<Seq<u8>, i64>,
) -> Option<CastError> {
    match head_failure_from(head_commits(raw.heads@), mapping, dates, 0) {
        Some(e) => Some(e),
        None => snapshot_failure_from(snapshot_commits(raw.snapshots@), mapping, 0),
    }
}

/// What casting `raw` against the given collaborators resolves.
pub open spec fn cast_resolution(
    raw: RawReferencesData,
    mapping: Map<Seq<u8>, HgId>,
    dates: Map<Seq<u8>, i64>,
) -> CastProgress {
    CastProgress {
        heads: resolved(head_commits(raw.heads@), mapping),
        heads_dates: dates_of(resolved(head_commits(raw.heads@), mapping), dates),
        snapshots: resolved(snapshot_commits(raw.snapshots@), mapping),
        pending: None,
    }
}

/// Whether progress `p` is what answering from the given collaborators leads
/// to after `p.heads.len()` heads and `p.snapshots.len()` snapshots.
spec fn on_track(
    raw: RawReferencesData,
    mapping: Map<Seq<u8>, HgId>,
    dates: Map<Seq<u8>, i64>,
    p: CastProgress,
) -> bool {
    let heads = head_commits(raw.heads@);
    let snapshots = snapshot_commits(raw.snapshots@);
    let n = p.heads.len() as int;
    let m = p.snapshots.len() as int;
    &&& n <= heads.len()
    &&& m <= snapshots.len()
    &&& p.heads == resolved(heads.take(n), mapping)
    &&& p.heads_dates == dates_of(p.heads, dates)
    &&& p.snapshots == resolved(snapshots.take(m), mapping)
    &&& head_failure_from(heads, mapping, dates, 0) == head_failure_from(heads, mapping, dates, n)
    &&& match p.pending {
        Some(address) => n < heads.len() && mapping.contains_key(heads[n]@) && address
            == mapping[heads[n]@],
        None => true,
    }
    &&& m > 0 ==> n == heads.len()
    &&& n == heads.len() ==> snapshot_failure_from(snapshots, mapping, 0)
        == snapshot_failure_from(snapshots, mapping, m)
}

/// The number of answers that a cast at progress `p` still needs.
spec fn answers_left(raw: RawReferencesData, p: CastProgress) -> int {
    2 * (raw.heads@.len() - p.heads.len()) + (raw.snapshots@.len() - p.snapshots.len()) - (
    if p.pending is Some {
        1int
    } else {
        0int
    })
}

/// Casts `raw` into the payload for a workspace at `latest_version`, last
/// changed at `version_timestamp`, with the collaborators' answers taken from
/// two tables: `mapping` holds the content address of each commit that has
/// one, `dates` the author date of each content address.
///
/// The cast fails on the first head that has no content address or whose
/// content address has no date, else on the first snapshot that has no
/// content address; otherwise it yields the payload.
pub fn cast_references_data(
    raw_references_data: RawReferencesData,
    latest_version: u64,
    version_timestamp: i64,
    mapping: &ListMap<HgChangesetId, HgId>,
    dates: &ListMap<HgId, i64>,
) -> (result: Result<ReferencesData, CastError>)
    ensures
        match cast_failure(raw_references_data, mapping@, dates@) {
            Some(e) => result == Err::<ReferencesData, CastError>(e),
            None => result matches Ok(payload) && is_payload(
                payload,
                raw_references_data,
                latest_version,
                version_timestamp,
                cast_resolution(raw_references_data, mapping@, dates@),
            ),
        },
{
    let ghost raw = raw_references_data;
    let ghost heads = head_commits(raw.heads@);
    let ghost snapshots = snapshot_commits(raw.snapshots@);
    let ghost mut p = cast_initial();
    proof {
        assert(p.heads =~= resolved(heads.take(0), mapping@));
        assert(p.snapshots =~= resolved(snapshots.take(0), mapping@));
        assert(heads.take(heads.len() as int) =~= heads);
        assert(snapshots.take(snapshots.len() as int) =~= snapshots);
    }
    let (mut caster, mut request) = match ReferenceCaster::start(
        raw_references_data,
        latest_version,
        version_timestamp,
    ) {
        CastStep::Ask(caster, request) => (caster, request),
        CastStep::Done(payload) => {
            return Ok(payload);
        },
        CastStep::Failed(e) => {
            return Err(e);
        },
    };
    loop
        invariant
            raw == raw_references_data,
            heads == head_commits(raw.heads@),
            snapshots == snapshot_commits(raw.snapshots@),
            caster.is_at(raw, latest_version, version_timestamp, p),
            request == cast_awaiting(raw, p),
            !cast_complete(raw, p),
            on_track(raw, mapping@, dates@, p),
        decreases answers_left(raw, p),
    {
        let ghost n = p.heads.len() as int;
        let ghost m = p.snapshots.len() as int;
        let reply = match request {
            CastRequest::Resolve(commit) => {
                proof {
                    if n < heads.len() {
                        assert(commit == heads[n]);
                    } else {
                        assert(commit == snapshots[m]);
                    }
                }
                match mapping.get(&commit) {
                    Some(address) => CastReply::Resolved(Some(*address)),
                    None => CastReply::Resolved(None),
                }
            },
            CastRequest::AuthorDate(address) => {
                assert(p.pending == Some(address));
                assert(n < heads.len());
                match dates.get(&address) {
                    Some(date) => CastReply::AuthorDate(*date),
                    None => {
                        return Err(CastError::MissingInfo(address));
                    },
                }
            },
        };
        proof {
            if let Ok(q) = cast_next(raw, p, reply) {
                assert(q.snapshots =~= resolved(snapshots.take(q.snapshots.len() as int), mapping@));
                assert(q.heads =~= resolved(heads.take(q.heads.len() as int), mapping@));
                if q.heads.len() > n {
                    assert(q.heads.drop_last() =~= p.heads);
                    assert(snapshots.take(0) =~= Seq::empty());
                }
                assert(heads.take(heads.len() as int) =~= heads);
                assert(snapshots.take(snapshots.len() as int) =~= snapshots);
                assert(on_track(raw, mapping@, dates@, q));
                p = q;
            }
        }
        match caster.step(reply) {
            CastStep::Ask(next, question) => {
                caster = next;
                request = question;
            },
            CastStep::Done(payload) => {
                return Ok(payload);
            },
            CastStep::Failed(e) => {
                return Err(e);
            },
        }
    }
}

} // verus!

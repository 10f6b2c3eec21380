use commit_cloud::cast::cast_references_data;
use commit_cloud::cast::CastError;
use commit_cloud::cast::CastReply;
use commit_cloud::cast::CastRequest;
use commit_cloud::cast::CastStep;
use commit_cloud::cast::ReferenceCaster;
use commit_cloud::entities::RawReferencesData;
use commit_cloud::entities::RemoteBookmark;
use commit_cloud::entities::WorkspaceHead;
use commit_cloud::entities::WorkspaceLocalBookmark;
use commit_cloud::entities::WorkspaceRemoteBookmark;
use commit_cloud::entities::WorkspaceSnapshot;
use commit_cloud::ids::HgChangesetId;
use commit_cloud::ids::HgId;
use commit_cloud::listmap::ListMap;
use commit_cloud::payload::cast_bookmarks;
use commit_cloud::payload::cast_remote_bookmarks;
use commit_cloud::store::StorageError;

fn native(n: u8) -> HgChangesetId {
    HgChangesetId::from_bytes([n; 20])
}

fn address(n: u8) -> HgId {
    HgId::from_bytes([n; 20])
}

fn head(n: u8) -> WorkspaceHead {
    WorkspaceHead { commit: native(n) }
}

fn snapshot(n: u8) -> WorkspaceSnapshot {
    WorkspaceSnapshot { commit: native(n) }
}

fn empty_raw() -> RawReferencesData {
    RawReferencesData {
        heads: vec![],
        local_bookmarks: vec![],
        remote_bookmarks: vec![],
        snapshots: vec![],
    }
}

fn mapping_of(pairs: &[(u8, u8)]) -> ListMap<HgChangesetId, HgId> {
    let mut mapping = ListMap::new();
    for (from, to) in pairs {
        mapping.insert(native(*from), address(*to));
    }
    mapping
}

fn dates_of(pairs: &[(u8, i64)]) -> ListMap<HgId, i64> {
    let mut dates = ListMap::new();
    for (at, date) in pairs {
        dates.insert(address(*at), *date);
    }
    dates
}

#[test]
fn cast_resolves_heads_in_order_and_dates_them() {
    let raw = RawReferencesData { heads: vec![head(1), head(2)], ..empty_raw() };
    let mapping = mapping_of(&[(1, 101), (2, 102)]);
    let dates = dates_of(&[(101, 1_700_000_001), (102, 1_700_000_002)]);
    let payload = cast_references_data(raw, 5, 1_699_999_999, &mapping, &dates).unwrap();
    assert_eq!(payload.heads, Some(vec![address(101), address(102)]));
    let heads_dates = payload.heads_dates.unwrap();
    assert_eq!(heads_dates.len(), 2);
    assert_eq!(heads_dates.get(&address(101)), Some(&1_700_000_001));
    assert_eq!(heads_dates.get(&address(102)), Some(&1_700_000_002));
    assert_eq!(payload.version, 5);
    assert_eq!(payload.timestamp, Some(1_699_999_999));
}

#[test]
fn cast_fails_on_a_head_without_mapping_and_names_it() {
    let raw = RawReferencesData { heads: vec![head(1), head(2), head(3)], ..empty_raw() };
    let mapping = mapping_of(&[(1, 101), (3, 103)]);
    let dates = dates_of(&[(101, 10), (103, 30)]);
    let result = cast_references_data(raw, 1, 0, &mapping, &dates);
    assert_eq!(result.unwrap_err(), CastError::MissingMapping(native(2)));
}

#[test]
fn cast_names_the_first_head_without_mapping() {
    let raw = RawReferencesData { heads: vec![head(4), head(5)], ..empty_raw() };
    let mapping = mapping_of(&[]);
    let dates = dates_of(&[]);
    let result = cast_references_data(raw, 1, 0, &mapping, &dates);
    assert_eq!(result.unwrap_err(), CastError::MissingMapping(native(4)));
}

#[test]
fn cast_fails_on_a_snapshot_without_mapping() {
    let raw = RawReferencesData {
        heads: vec![head(1)],
        snapshots: vec![snapshot(7), snapshot(8)],
        ..empty_raw()
    };
    let mapping = mapping_of(&[(1, 101), (7, 107)]);
    let dates = dates_of(&[(101, 10)]);
    let result = cast_references_data(raw, 1, 0, &mapping, &dates);
    assert_eq!(result.unwrap_err(), CastError::MissingMapping(native(8)));
}

#[test]
fn cast_fails_on_a_head_without_commit_metadata() {
    let raw = RawReferencesData { heads: vec![head(1)], ..empty_raw() };
    let mapping = mapping_of(&[(1, 101)]);
    let dates = dates_of(&[]);
    let result = cast_references_data(raw, 1, 0, &mapping, &dates);
    assert_eq!(result.unwrap_err(), CastError::MissingInfo(address(101)));
}

#[test]
fn cast_of_a_full_snapshot() {
    let raw = RawReferencesData {
        heads: vec![head(1)],
        local_bookmarks: vec![
            WorkspaceLocalBookmark::new("first".to_string(), native(11)),
            WorkspaceLocalBookmark::new("second".to_string(), native(12)),
        ],
        remote_bookmarks: vec![WorkspaceRemoteBookmark::new(
            "origin".to_string(),
            "main".to_string(),
            native(21),
        )],
        snapshots: vec![snapshot(31)],
    };
    let mapping = mapping_of(&[(1, 101), (31, 131)]);
    let dates = dates_of(&[(101, -5)]);
    let payload = cast_references_data(raw, 42, 1234, &mapping, &dates).unwrap();
    assert_eq!(payload.version, 42);
    assert_eq!(payload.timestamp, Some(1234));
    assert_eq!(payload.heads, Some(vec![address(101)]));
    assert_eq!(payload.snapshots, Some(vec![address(131)]));
    let bookmarks = payload.bookmarks.unwrap();
    assert_eq!(bookmarks.len(), 2);
    assert_eq!(bookmarks.get(&"first".to_string()), Some(&address(11)));
    assert_eq!(bookmarks.get(&"second".to_string()), Some(&address(12)));
    assert_eq!(
        payload.remote_bookmarks,
        Some(vec![RemoteBookmark {
            remote: "origin".to_string(),
            name: "main".to_string(),
            node: Some(address(21)),
        }])
    );
    assert_eq!(payload.heads_dates.unwrap().get(&address(101)), Some(&-5));
}

#[test]
fn cast_of_an_empty_snapshot_has_every_category_present_and_empty() {
    let payload = cast_references_data(empty_raw(), 0, 0, &mapping_of(&[]), &dates_of(&[])).unwrap();
    assert_eq!(payload.heads, Some(vec![]));
    assert_eq!(payload.snapshots, Some(vec![]));
    assert_eq!(payload.remote_bookmarks, Some(vec![]));
    assert_eq!(payload.bookmarks.unwrap().len(), 0);
    assert_eq!(payload.heads_dates.unwrap().len(), 0);
    assert_eq!(payload.timestamp, Some(0));
}

#[test]
fn cast_of_repeated_heads_keeps_each_head_and_one_date() {
    let raw = RawReferencesData { heads: vec![head(1), head(1)], ..empty_raw() };
    let mapping = mapping_of(&[(1, 101)]);
    let dates = dates_of(&[(101, 99)]);
    let payload = cast_references_data(raw, 1, 0, &mapping, &dates).unwrap();
    assert_eq!(payload.heads, Some(vec![address(101), address(101)]));
    let heads_dates = payload.heads_dates.unwrap();
    assert_eq!(heads_dates.len(), 1);
    assert_eq!(heads_dates.get(&address(101)), Some(&99));
}

#[test]
fn later_bookmark_of_the_same_name_wins() {
    let bookmarks = vec![
        WorkspaceLocalBookmark::new("a".to_string(), native(1)),
        WorkspaceLocalBookmark::new("b".to_string(), native(2)),
        WorkspaceLocalBookmark::new("a".to_string(), native(3)),
    ];
    let map = cast_bookmarks(&bookmarks);
    assert_eq!(map.len(), 2);
    assert_eq!(map.get(&"a".to_string()), Some(&address(3)));
    assert_eq!(map.get(&"b".to_string()), Some(&address(2)));
}

#[test]
fn remote_bookmarks_are_presented_in_order() {
    let bookmarks = vec![
        WorkspaceRemoteBookmark::new("r1".to_string(), "x".to_string(), native(1)),
        WorkspaceRemoteBookmark::new("r2".to_string(), "y".to_string(), native(2)),
    ];
    let out = cast_remote_bookmarks(&bookmarks);
    assert_eq!(out.len(), 2);
    assert_eq!(out[0].remote, "r1");
    assert_eq!(out[0].name, "x");
    assert_eq!(out[0].node, Some(address(1)));
    assert_eq!(out[1].remote, "r2");
    assert_eq!(out[1].name, "y");
    assert_eq!(out[1].node, Some(address(2)));
}

#[test]
fn caster_asks_one_question_at_a_time_heads_before_snapshots() {
    let raw = RawReferencesData {
        heads: vec![head(1), head(2)],
        snapshots: vec![snapshot(3)],
        ..empty_raw()
    };
    let mut asked: Vec<CastRequest> = Vec::new();
    let mut step = ReferenceCaster::start(raw, 8, 80);
    let payload = loop {
        match step {
            CastStep::Ask(caster, request) => {
                assert_eq!(caster.awaiting(), request);
                asked.push(request);
                let reply = match request {
                    CastRequest::Resolve(commit) => {
                        CastReply::Resolved(Some(HgId::from_bytes([commit.bytes[0] + 100; 20])))
                    }
                    CastRequest::AuthorDate(at) => CastReply::AuthorDate(at.bytes[0] as i64),
                };
                step = caster.step(reply);
            }
            CastStep::Done(payload) => break payload,
            CastStep::Failed(e) => panic!("the cast failed: {:?}", e),
        }
    };
    assert_eq!(
        asked,
        vec![
            CastRequest::Resolve(native(1)),
            CastRequest::AuthorDate(address(101)),
            CastRequest::Resolve(native(2)),
            CastRequest::AuthorDate(address(102)),
            CastRequest::Resolve(native(3)),
        ]
    );
    assert_eq!(payload.heads, Some(vec![address(101), address(102)]));
    assert_eq!(payload.snapshots, Some(vec![address(103)]));
    assert_eq!(payload.heads_dates.unwrap().get(&address(102)), Some(&102));
}

#[test]
fn caster_with_nothing_to_resolve_is_done_at_once() {
    let raw = RawReferencesData {
        local_bookmarks: vec![WorkspaceLocalBookmark::new("a".to_string(), native(1))],
        ..empty_raw()
    };
    match ReferenceCaster::start(raw, 2, 3) {
        CastStep::Done(payload) => {
            assert_eq!(payload.version, 2);
            assert_eq!(payload.bookmarks.unwrap().get(&"a".to_string()), Some(&address(1)));
        }
        other => panic!("expected the payload, got {:?}", other),
    }
}

#[test]
fn caster_stops_at_a_missing_mapping() {
    let raw = RawReferencesData { heads: vec![head(1), head(2)], ..empty_raw() };
    let caster = match ReferenceCaster::start(raw, 1, 1) {
        CastStep::Ask(caster, request) => {
            assert_eq!(request, CastRequest::Resolve(native(1)));
            caster
        }
        other => panic!("expected a question, got {:?}", other),
    };
    match caster.step(CastReply::Resolved(None)) {
        CastStep::Failed(e) => assert_eq!(e, CastError::MissingMapping(native(1))),
        other => panic!("expected a failure, got {:?}", other),
    }
}

#[test]
fn caster_passes_a_collaborator_failure_on() {
    let raw = RawReferencesData { heads: vec![head(1)], ..empty_raw() };
    let caster = match ReferenceCaster::start(raw, 1, 1) {
        CastStep::Ask(caster, _) => caster,
        other => panic!("expected a question, got {:?}", other),
    };
    let failure = StorageError { message: "mapping unavailable".to_string() };
    match caster.step(CastReply::Failed(failure.clone())) {
        CastStep::Failed(e) => assert_eq!(e, CastError::Collaborator(failure)),
        other => panic!("expected a failure, got {:?}", other),
    }
}

#[test]
fn caster_refuses_an_answer_to_another_question() {
    let raw = RawReferencesData { heads: vec![head(1)], ..empty_raw() };
    let caster = match ReferenceCaster::start(raw, 1, 1) {
        CastStep::Ask(caster, _) => caster,
        other => panic!("expected a question, got {:?}", other),
    };
    match caster.step(CastReply::AuthorDate(5)) {
        CastStep::Failed(e) => assert_eq!(e, CastError::UnexpectedReply),
        other => panic!("expected a failure, got {:?}", other),
    }
    let raw = RawReferencesData { heads: vec![head(1)], ..empty_raw() };
    let caster = match ReferenceCaster::start(raw, 1, 1) {
        CastStep::Ask(caster, _) => caster,
        other => panic!("expected a question, got {:?}", other),
    };
    let caster = match caster.step(CastReply::Resolved(Some(address(9)))) {
        CastStep::Ask(caster, request) => {
            assert_eq!(request, CastRequest::AuthorDate(address(9)));
            caster
        }
        other => panic!("expected a question, got {:?}", other),
    };
    match caster.step(CastReply::Resolved(Some(address(9)))) {
        CastStep::Failed(e) => assert_eq!(e, CastError::UnexpectedReply),
        other => panic!("expected a failure, got {:?}", other),
    }
}

#[test]
fn identifiers_are_written_in_lower_case_hexadecimal() {
    let mut bytes = [0u8; 20];
    for (i, byte) in bytes.iter_mut().enumerate() {
        *byte = (i as u8) * 13 + 7;
    }
    let expected = "0714212e3b4855626f7c8996a3b0bdcad7e4f1fe";
    assert_eq!(HgChangesetId::from_bytes(bytes).to_hex(), expected);
    assert_eq!(HgId::from_bytes(bytes).to_hex(), expected);
    assert_eq!(HgId::from_bytes([0xab; 20]).to_hex(), "ab".repeat(20));
    assert_eq!(HgChangesetId::from_bytes([0x0f; 20]).to_hex(), "0f".repeat(20));
    assert_eq!(HgChangesetId::from_bytes([0xf0; 20]).to_hex(), "f0".repeat(20));
}

#[test]
fn cast_errors_name_the_commit_in_words() {
    assert_eq!(
        CastError::MissingMapping(native(0x1a)).describe(),
        format!("Changeset {} not found in bonsai mapping", "1a".repeat(20))
    );
    assert_eq!(
        CastError::MissingInfo(address(0xff)).describe(),
        format!("No commit info for changeset {}", "ff".repeat(20))
    );
    assert_eq!(
        CastError::Collaborator(StorageError { message: "timeout".to_string() }).describe(),
        "timeout"
    );
    assert_eq!(CastError::UnexpectedReply.describe(), "Reply does not answer the request");
}

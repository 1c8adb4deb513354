use buffr_permissions::store::{decode_decision, decode_rows};
use buffr_permissions::{schema, Capability, Decision, PermError, PermissionRow, Permissions};
use rusqlite::Connection;
use std::path::PathBuf;
use std::time::{Duration, Instant, SystemTime, UNIX_EPOCH};

fn unix_now() -> i64 {
    SystemTime::now().duration_since(UNIX_EPOCH).unwrap().as_secs() as i64
}

fn shared(name: &str) -> PathBuf {
    PathBuf::from(format!("file:{name}?mode=memory&cache=shared"))
}

#[test]
fn open_in_memory_runs_migrations() {
    let mut p = Permissions::open_in_memory().unwrap();
    assert!(p.all().unwrap().is_empty());
    assert_eq!(schema::latest_version(), 1);
}

#[test]
fn set_then_get_round_trip() {
    let mut p = Permissions::open_in_memory().unwrap();
    p.set("https://a.example", Capability::Camera, Decision::Allow)
        .unwrap();
    let d = p.get("https://a.example", Capability::Camera).unwrap();
    assert_eq!(d, Some(Decision::Allow));
}

#[test]
fn get_unknown_returns_none() {
    let mut p = Permissions::open_in_memory().unwrap();
    assert!(p
        .get("https://nope.example", Capability::Camera)
        .unwrap()
        .is_none());
}

#[test]
fn set_twice_second_wins() {
    let mut p = Permissions::open_in_memory().unwrap();
    p.set("https://a.example", Capability::Camera, Decision::Allow)
        .unwrap();
    p.set("https://a.example", Capability::Camera, Decision::Deny)
        .unwrap();
    assert_eq!(
        p.get("https://a.example", Capability::Camera).unwrap(),
        Some(Decision::Deny)
    );
    assert_eq!(p.all().unwrap().len(), 1);
}

#[test]
fn forget_existing_returns_true_missing_returns_false() {
    let mut p = Permissions::open_in_memory().unwrap();
    p.set("https://a.example", Capability::Microphone, Decision::Allow)
        .unwrap();
    assert!(p.forget("https://a.example", Capability::Microphone).unwrap());
    assert!(!p.forget("https://a.example", Capability::Microphone).unwrap());
    assert!(p
        .get("https://a.example", Capability::Microphone)
        .unwrap()
        .is_none());
}

#[test]
fn forget_origin_removes_all_capabilities() {
    let mut p = Permissions::open_in_memory().unwrap();
    p.set("https://a.example", Capability::Camera, Decision::Allow)
        .unwrap();
    p.set("https://a.example", Capability::Microphone, Decision::Allow)
        .unwrap();
    p.set("https://b.example", Capability::Notifications, Decision::Deny)
        .unwrap();
    let n = p.forget_origin("https://a.example").unwrap();
    assert_eq!(n, 2);
    // Other origin untouched.
    assert_eq!(
        p.get("https://b.example", Capability::Notifications).unwrap(),
        Some(Decision::Deny)
    );
}

#[test]
fn clear_returns_count() {
    let mut p = Permissions::open_in_memory().unwrap();
    p.set("https://a", Capability::Camera, Decision::Allow).unwrap();
    p.set("https://b", Capability::Geolocation, Decision::Deny).unwrap();
    assert_eq!(p.clear().unwrap(), 2);
    assert!(p.all().unwrap().is_empty());
}

#[test]
fn all_returns_set_at_desc_with_stable_secondary_order() {
    let mut p = Permissions::open_in_memory().unwrap();
    p.set("https://a", Capability::Camera, Decision::Allow).unwrap();
    let start = Instant::now();
    while start.elapsed() < Duration::from_millis(1100) {
        std::hint::spin_loop();
    }
    p.set("https://b", Capability::Microphone, Decision::Deny).unwrap();
    let all = p.all().unwrap();
    assert_eq!(all.len(), 2);
    assert_eq!(all[0].origin, "https://b");
    assert_eq!(all[1].origin, "https://a");
}

#[test]
fn other_capability_round_trip_through_store() {
    let mut p = Permissions::open_in_memory().unwrap();
    p.set("https://a.example", Capability::Other(2048), Decision::Deny)
        .unwrap();
    let row = p.get("https://a.example", Capability::Other(2048)).unwrap();
    assert_eq!(row, Some(Decision::Deny));
}

#[test]
fn rows_come_newest_first_then_by_origin_and_capability() {
    let mut p = Permissions::open_in_memory().unwrap();
    let o = "https://b";
    p.record(o, Capability::Other(9), Decision::Deny, 10).unwrap();
    p.record(o, Capability::Camera, Decision::Allow, 10).unwrap();
    p.record("https://\u{e9}", Capability::Midi, Decision::Deny, 10).unwrap();
    p.record("https://a", Capability::Midi, Decision::Deny, 10).unwrap();
    p.record("https://z", Capability::Clipboard, Decision::Allow, 11).unwrap();
    p.record("https://a", Capability::Geolocation, Decision::Allow, -5).unwrap();
    let row = |origin: &str, capability, decision, set_at| PermissionRow {
        origin: origin.to_string(),
        capability,
        decision,
        set_at,
    };
    assert_eq!(
        p.all().unwrap(),
        vec![
            row("https://z", Capability::Clipboard, Decision::Allow, 11),
            row("https://a", Capability::Midi, Decision::Deny, 10),
            row("https://b", Capability::Camera, Decision::Allow, 10),
            row("https://b", Capability::Other(9), Decision::Deny, 10),
            row("https://\u{e9}", Capability::Midi, Decision::Deny, 10),
            row("https://a", Capability::Geolocation, Decision::Allow, -5),
        ]
    );
}

#[test]
fn recording_again_moves_the_row_to_its_new_time() {
    let mut p = Permissions::open_in_memory().unwrap();
    p.record("https://a", Capability::Camera, Decision::Allow, 1).unwrap();
    p.record("https://b", Capability::Camera, Decision::Allow, 2).unwrap();
    p.record("https://a", Capability::Camera, Decision::Deny, 3).unwrap();
    let all = p.all().unwrap();
    assert_eq!(all.len(), 2);
    assert_eq!((all[0].origin.as_str(), all[0].decision, all[0].set_at), ("https://a", Decision::Deny, 3));
    assert_eq!((all[1].origin.as_str(), all[1].set_at), ("https://b", 2));
}

#[test]
fn set_stamps_the_wall_clock() {
    let mut p = Permissions::open_in_memory().unwrap();
    let before = unix_now();
    p.set("https://a", Capability::Camera, Decision::Allow).unwrap();
    let after = unix_now();
    let at = p.all().unwrap()[0].set_at;
    assert!(before <= at && at <= after);
}

#[test]
fn operations_leave_other_rows_alone() {
    let mut p = Permissions::open_in_memory().unwrap();
    p.set("https://a", Capability::Camera, Decision::Allow).unwrap();
    p.set("https://a", Capability::Other(1), Decision::Deny).unwrap();
    p.set("https://a.b", Capability::Camera, Decision::Deny).unwrap();
    assert!(p.forget("https://a", Capability::Camera).unwrap());
    assert_eq!(p.get("https://a", Capability::Other(1)).unwrap(), Some(Decision::Deny));
    assert_eq!(p.get("https://a", Capability::Other(10)).unwrap(), None);
    assert_eq!(p.forget_origin("https://a").unwrap(), 1);
    assert_eq!(p.forget_origin("https://a").unwrap(), 0);
    assert_eq!(p.get("https://a.b", Capability::Camera).unwrap(), Some(Decision::Deny));
    assert_eq!(p.clear().unwrap(), 1);
    assert_eq!(p.clear().unwrap(), 0);
}

#[test]
fn lookups_give_the_last_decision_not_forgotten() {
    let mut p = Permissions::open_in_memory().unwrap();
    let (a, b) = ("https://a", "https://b");
    p.record(a, Capability::Camera, Decision::Allow, 1).unwrap();
    p.record(a, Capability::Midi, Decision::Allow, 2).unwrap();
    p.record(b, Capability::Camera, Decision::Deny, 3).unwrap();
    p.record(a, Capability::Camera, Decision::Deny, 4).unwrap();
    assert!(p.forget(a, Capability::Midi).unwrap());
    assert_eq!(p.all().unwrap().len(), 2);
    assert_eq!(p.get(a, Capability::Camera).unwrap(), Some(Decision::Deny));
    assert_eq!(p.get(a, Capability::Midi).unwrap(), None);
    assert_eq!(p.forget_origin(a).unwrap(), 1);
    assert_eq!(p.get(a, Capability::Camera).unwrap(), None);
    assert_eq!(p.get(b, Capability::Camera).unwrap(), Some(Decision::Deny));
    assert_eq!(p.clear().unwrap(), 1);
    p.record(b, Capability::Midi, Decision::Allow, 5).unwrap();
    assert_eq!(p.get(b, Capability::Camera).unwrap(), None);
    assert_eq!(p.get(b, Capability::Midi).unwrap(), Some(Decision::Allow));
}

#[test]
fn a_failed_statement_converts_to_a_query_error() {
    let e = PermError::from(rusqlite::Error::QueryReturnedNoRows);
    assert!(matches!(e, PermError::Query { source: rusqlite::Error::QueryReturnedNoRows }));
}

#[test]
fn reopening_lists_the_same_rows() {
    let path = shared("reopening_lists");
    let _peer = Connection::open(&path).unwrap();
    let before = {
        let mut p = Permissions::open(&path).unwrap();
        assert!(p.all().unwrap().is_empty());
        p.record("https://a", Capability::Camera, Decision::Allow, 7).unwrap();
        p.record("https://a", Capability::Other(64), Decision::Deny, 9).unwrap();
        p.record("https://b", Capability::Midi, Decision::Deny, 9).unwrap();
        p.forget("https://b", Capability::Midi).unwrap();
        p.all().unwrap()
    };
    assert_eq!(before.len(), 2);
    assert_eq!(Permissions::open(&path).unwrap().all().unwrap(), before);
}

#[test]
fn forget_undoes_a_set() {
    let mut p = Permissions::open_in_memory().unwrap();
    p.record("https://a", Capability::Midi, Decision::Deny, 4).unwrap();
    let before = p.all().unwrap();
    p.record("https://a", Capability::Camera, Decision::Allow, 5).unwrap();
    assert!(p.forget("https://a", Capability::Camera).unwrap());
    assert_eq!(p.all().unwrap(), before);
}

#[test]
fn origins_are_plain_text() {
    let mut p = Permissions::open_in_memory().unwrap();
    let odd = "x' OR '1'='1\u{0}tail \u{1F980}";
    p.set(odd, Capability::Camera, Decision::Allow).unwrap();
    p.set("", Capability::Camera, Decision::Deny).unwrap();
    assert_eq!(p.get(odd, Capability::Camera).unwrap(), Some(Decision::Allow));
    assert_eq!(p.get("x' OR '1'='1", Capability::Camera).unwrap(), None);
    assert_eq!(p.get("", Capability::Camera).unwrap(), Some(Decision::Deny));
    assert!(p.all().unwrap().iter().any(|r| r.origin == odd));
    assert_eq!(p.forget_origin(odd).unwrap(), 1);
}

#[test]
fn in_memory_stores_are_apart() {
    let mut p = Permissions::open_in_memory().unwrap();
    let mut q = Permissions::open_in_memory().unwrap();
    p.set("https://a", Capability::Camera, Decision::Allow).unwrap();
    assert_eq!(q.get("https://a", Capability::Camera).unwrap(), None);
}

#[test]
fn open_takes_a_path() {
    // In memory, and in a temporary file that SQLite deletes on closing.
    for path in [":memory:", ""] {
        let mut p = Permissions::open(&PathBuf::from(path)).unwrap();
        p.set("https://a", Capability::Camera, Decision::Allow).unwrap();
        assert_eq!(p.get("https://a", Capability::Camera).unwrap(), Some(Decision::Allow));
    }
}

#[test]
fn open_reports_a_path_that_cannot_be_opened() {
    let r = Permissions::open(&PathBuf::from("/nonexistent-directory/permissions.sqlite"));
    assert!(matches!(r, Err(PermError::Open { .. })));
}

#[test]
fn open_creates_the_schema_and_notes_the_version() {
    let path = shared("creates_the_schema");
    let peer = Connection::open(&path).unwrap();
    let _p = Permissions::open(&path).unwrap();
    let versions: i64 = peer
        .query_row("SELECT group_concat(version) = '1' FROM schema_version", [], |r| r.get(0))
        .unwrap();
    assert_eq!(versions, 1);
    let named: i64 = peer
        .query_row(
            "SELECT count(*) FROM sqlite_master WHERE name IN \
             ('permissions', 'idx_permissions_set_at', 'schema_version')",
            [],
            |r| r.get(0),
        )
        .unwrap();
    assert_eq!(named, 3);
}

#[test]
fn opening_again_keeps_rows_and_applies_nothing() {
    let path = shared("opening_again");
    let peer = Connection::open(&path).unwrap();
    {
        let mut p = Permissions::open(&path).unwrap();
        p.record("https://a", Capability::Camera, Decision::Allow, 7).unwrap();
    }
    let mut p = Permissions::open(&path).unwrap();
    assert_eq!(p.get("https://a", Capability::Camera).unwrap(), Some(Decision::Allow));
    assert_eq!(p.all().unwrap()[0].set_at, 7);
    let versions: i64 = peer
        .query_row("SELECT count(*) FROM schema_version", [], |r| r.get(0))
        .unwrap();
    assert_eq!(versions, 1);
}

#[test]
fn a_newer_database_is_left_as_it_is() {
    let path = shared("newer_database");
    let peer = Connection::open(&path).unwrap();
    peer.execute_batch("CREATE TABLE schema_version (version INTEGER PRIMARY KEY); INSERT INTO schema_version VALUES (5);")
        .unwrap();
    let mut p = Permissions::open(&path).unwrap();
    assert!(matches!(p.all(), Err(PermError::Query { .. })));
    let versions: i64 = peer
        .query_row("SELECT count(*) FROM schema_version", [], |r| r.get(0))
        .unwrap();
    assert_eq!(versions, 1);
}

#[test]
fn a_failed_migration_leaves_nothing_behind() {
    let path = shared("failed_migration");
    let peer = Connection::open(&path).unwrap();
    peer.execute_batch("CREATE TABLE permissions (origin TEXT);").unwrap();
    let r = Permissions::open(&path);
    assert!(matches!(r, Err(PermError::Migrate { version: 1, .. })));
    let versions: i64 = peer
        .query_row("SELECT count(*) FROM schema_version", [], |r| r.get(0))
        .unwrap();
    assert_eq!(versions, 0);
}

#[test]
fn bookkeeping_failures_carry_version_zero() {
    let path = shared("bookkeeping");
    let peer = Connection::open(&path).unwrap();
    peer.execute_batch("CREATE TABLE schema_version (other TEXT);").unwrap();
    let r = Permissions::open(&path);
    assert!(matches!(r, Err(PermError::Migrate { version: 0, .. })));
}

#[test]
fn statements_on_a_broken_table_are_query_errors() {
    let path = shared("broken_table");
    let peer = Connection::open(&path).unwrap();
    let mut p = Permissions::open(&path).unwrap();
    peer.execute_batch("DROP TABLE permissions;").unwrap();
    let camera = Capability::Camera;
    assert!(matches!(p.get("https://a", camera), Err(PermError::Query { .. })));
    assert!(matches!(p.set("https://a", camera, Decision::Allow), Err(PermError::Query { .. })));
    assert!(matches!(p.forget("https://a", camera), Err(PermError::Query { .. })));
    assert!(matches!(p.forget_origin("https://a"), Err(PermError::Query { .. })));
    assert!(matches!(p.clear(), Err(PermError::Query { .. })));
    assert!(matches!(p.all(), Err(PermError::Query { .. })));
}

#[test]
fn unreadable_rows_are_reported() {
    let path = shared("unreadable_rows");
    let peer = Connection::open(&path).unwrap();
    let mut p = Permissions::open(&path).unwrap();
    peer.execute_batch("INSERT INTO permissions VALUES ('https://a', 'camera', 'maybe', 1);")
        .unwrap();
    match p.get("https://a", Capability::Camera).unwrap_err() {
        PermError::UnknownDecision { decision } => assert_eq!(decision, "maybe"),
        other => panic!("expected UnknownDecision, got {other:?}"),
    }
    assert!(matches!(p.all(), Err(PermError::UnknownDecision { .. })));
    peer.execute_batch("INSERT INTO permissions VALUES ('https://b', 'teleport', 'allow', 2);")
        .unwrap();
    match p.all().unwrap_err() {
        PermError::UnknownCapability { capability } => assert_eq!(capability, "teleport"),
        other => panic!("expected UnknownCapability, got {other:?}"),
    }
    assert_eq!(p.clear().unwrap(), 2);
}

#[test]
fn a_store_of_its_own_rows_is_always_readable() {
    let mut p = Permissions::open_in_memory().unwrap();
    for bit in [0, 1, 2048, u32::MAX] {
        p.set("https://a", Capability::Other(bit), Decision::Deny).unwrap();
    }
    p.forget("https://a", Capability::Other(1)).unwrap();
    let all = p.all().unwrap();
    assert_eq!(all.len(), 3);
    for row in &all {
        assert_eq!(p.get(&row.origin, row.capability).unwrap(), Some(row.decision));
    }
}

#[test]
fn lookups_decode() {
    assert_eq!(decode_decision(None).unwrap(), None);
    assert_eq!(decode_decision(Some("deny".to_string())).unwrap(), Some(Decision::Deny));
    assert!(matches!(
        decode_decision(Some("Deny".to_string())),
        Err(PermError::UnknownDecision { decision }) if decision == "Deny"
    ));
}

#[test]
fn listings_decode_up_to_the_first_bad_row() {
    let raw = |o: &str, c: &str, d: &str, t| (o.to_string(), c.to_string(), d.to_string(), t);
    assert!(decode_rows(vec![]).unwrap().is_empty());
    let good = decode_rows(vec![raw("https://a", "other:007", "allow", -1)]).unwrap();
    assert_eq!(
        good,
        vec![PermissionRow {
            origin: "https://a".to_string(),
            capability: Capability::Other(7),
            decision: Decision::Allow,
            set_at: -1,
        }]
    );
    assert!(matches!(
        decode_rows(vec![
            raw("o", "midi", "deny", 1),
            raw("o", "camera", "x", 2),
            raw("o", "y", "deny", 3),
        ]),
        Err(PermError::UnknownDecision { decision }) if decision == "x"
    ));
    assert!(matches!(
        decode_rows(vec![raw("o", "y", "x", 1)]),
        Err(PermError::UnknownCapability { capability }) if capability == "y"
    ));
}

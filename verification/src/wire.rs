//! What the store asks of the database, word for word, and what it makes of the
//! replies.
//!
//! Each law speaks of what a call adds to the transcript and of what it returns.
//! The statements stand here as the database gets them.

use crate::capability;
use crate::capability::Capability;
use crate::clock;
use crate::decision::Decision;
use crate::error::PermError;
use crate::model;
use crate::notation;
use crate::schema;
use crate::sqlite;
use crate::sqlite::RawRow;
use crate::store;
use crate::store::{PermissionRow, Permissions};
use std::path::PathBuf;
use std::time::SystemTime;
use vstd::prelude::*;

verus! {

/// Whether `steps` has the request `request` at place `i`, and it succeeded.
pub open spec fn went_well(steps: Seq<model::Step>, i: int, request: model::Request) -> bool {
    &&& 0 <= i < steps.len()
    &&& steps[i].request == request
    &&& steps[i].reply is Ok
}

/// Whether `after` is what `before` becomes by just the one request `request`.
pub open spec fn adds(before: Permissions, after: Permissions, request: model::Request) -> bool {
    &&& after.transcript().len() == before.transcript().len() + 1
    &&& after.transcript().drop_last() == before.transcript()
    &&& after.transcript().last().request == request
    &&& sqlite::same_connection(before.connection(), after.connection())
}

/// Whether a stored row is readable as `row`.
pub open spec fn shows(stored: model::StoredRow, row: PermissionRow) -> bool {
    &&& row.origin@ == stored.origin
    &&& notation::names(stored.capability, row.capability)
    &&& notation::says(stored.decision, row.decision)
    &&& row.set_at == stored.set_at
}

/// Whether a text names no capability.
pub open spec fn names_nothing(s: Seq<char>) -> bool {
    forall|c: Capability| !#[trigger] notation::names(s, c)
}

/// Whether `e` says what is wrong with a stored row: its capability or, where
/// that is in order, its decision.
pub open spec fn objects_to(stored: model::StoredRow, e: PermError) -> bool {
    match e {
        PermError::UnknownCapability { capability } => {
            &&& capability@ == stored.capability
            &&& names_nothing(stored.capability)
        },
        PermError::UnknownDecision { decision } => {
            &&& decision@ == stored.decision
            &&& !names_nothing(stored.capability)
            &&& stored.decision != "allow"@
            &&& stored.decision != "deny"@
        },
        _ => false,
    }
}

/// Whether a stored row can be read.
pub open spec fn is_legible(stored: model::StoredRow) -> bool {
    &&& !names_nothing(stored.capability)
    &&& stored.decision == "allow"@ || stored.decision == "deny"@
}

/// Whether `r` is what stored rows come to: all of them, in their order, or what
/// is wrong with the first that cannot be read.
pub open spec fn reads_rows(
    stored: Seq<model::StoredRow>,
    r: Result<Vec<PermissionRow>, PermError>,
) -> bool {
    match r {
        Ok(rows) => {
            &&& rows@.len() == stored.len()
            &&& forall|i: int| 0 <= i < stored.len() ==> shows(#[trigger] stored[i], rows@[i])
        },
        Err(e) => exists|j: int|
            {
                &&& 0 <= j < stored.len()
                &&& objects_to(#[trigger] stored[j], e)
                &&& forall|i: int| 0 <= i < j ==> is_legible(#[trigger] stored[i])
            },
    }
}

/// Whether `r` is what a stored text, or none, comes to.
pub open spec fn reads_decision(
    found: Option<Seq<char>>,
    r: Result<Option<Decision>, PermError>,
) -> bool {
    match found {
        None => r == Ok::<Option<Decision>, PermError>(None),
        Some(s) => if s == "allow"@ {
            r == Ok::<Option<Decision>, PermError>(Some(Decision::Allow))
        } else if s == "deny"@ {
            r == Ok::<Option<Decision>, PermError>(Some(Decision::Deny))
        } else {
            r matches Err(PermError::UnknownDecision { decision }) && decision@ == s
        },
    }
}

/// A stored text is read as the decision it says.
pub proof fn found_texts_are_read(found: Option<String>, r: Result<Option<Decision>, PermError>)
    requires
        call_ensures(store::decode_decision, (found,), r),
    ensures
        reads_decision(
            match found {
                Some(s) => Some(s@),
                None => None,
            },
            r,
        ),
{
    reveal_strlit("allow");
    reveal_strlit("deny");
    assert("allow"@.len() != "deny"@.len());
}

/// Decoding rows is reading them.
proof fn lemma_rows_are_read(
    stored: Seq<model::StoredRow>,
    r: Result<Vec<PermissionRow>, PermError>,
)
    requires
        store::is_decoded_list(stored, r),
    ensures
        reads_rows(stored, r),
{
    match r {
        Ok(rows) => {
            assert forall|i: int| 0 <= i < stored.len() implies shows(
                #[trigger] stored[i],
                rows@[i],
            ) by {
                assert(store::is_decoded_row(stored[i], rows@[i]));
                notation::lemma_named(stored[i].capability, rows@[i].capability);
            }
        },
        Err(e) => {
            let j = choose|j: int|
                {
                    &&& 0 <= j < stored.len()
                    &&& store::is_complaint(#[trigger] stored[j], e)
                    &&& forall|i: int| 0 <= i < j ==> store::is_readable(#[trigger] stored[i])
                };
            lemma_complaint(stored[j], e);
            assert forall|i: int| 0 <= i < j implies is_legible(#[trigger] stored[i]) by {
                assert(store::is_readable(stored[i]));
                let c = capability::capability_of(stored[i].capability)->0;
                notation::lemma_named(stored[i].capability, c);
            }
        },
    }
}

/// A complaint is an objection.
proof fn lemma_complaint(stored: model::StoredRow, e: PermError)
    requires
        store::is_complaint(stored, e),
    ensures
        objects_to(stored, e),
{
    assert forall|c: Capability| #[trigger] notation::names(stored.capability, c) implies Some(c)
        == capability::capability_of(stored.capability) by {
        notation::lemma_named(stored.capability, c);
    }
    if let Some(c) = capability::capability_of(stored.capability) {
        notation::lemma_named(stored.capability, c);
    }
}

/// Raw rows are read one by one, up to the first that cannot be.
pub proof fn raw_rows_are_read(raw: Vec<RawRow>, r: Result<Vec<PermissionRow>, PermError>)
    requires
        call_ensures(store::decode_rows, (raw,), r),
    ensures
        reads_rows(
            Seq::new(
                raw@.len(),
                |i: int|
                    model::StoredRow {
                        origin: raw@[i].0@,
                        capability: raw@[i].1@,
                        decision: raw@[i].2@,
                        set_at: raw@[i].3,
                    },
            ),
            r,
        ),
{
    let rows = Seq::new(
        raw@.len(),
        |i: int|
            model::StoredRow {
                origin: raw@[i].0@,
                capability: raw@[i].1@,
                decision: raw@[i].2@,
                set_at: raw@[i].3,
            },
    );
    assert(rows =~= sqlite::stored(raw@));
    lemma_rows_are_read(rows, r);
}

/// A lookup asks for the one decision, and returns what the reply says.
pub proof fn get_asks_for_one_decision(
    store: &mut Permissions,
    origin: &str,
    capability: Capability,
    key: String,
    r: Result<Option<Decision>, PermError>,
)
    requires
        call_ensures(Permissions::get, (store, origin, capability), r),
        call_ensures(Capability::as_storage_key, (&capability,), key),
    ensures
        adds(
            *old(store),
            *final(store),
            model::Request::Lookup {
                sql: "SELECT decision FROM permissions WHERE origin = ?1 AND capability = ?2"@,
                params: seq![model::Cell::Text(origin@), model::Cell::Text(key@)],
            },
        ),
        match final(store).transcript().last().reply {
            Ok(model::Answer::Text(found)) => reads_decision(found, r),
            Ok(_) => false,
            Err(source) => r == Err::<Option<Decision>, PermError>(PermError::Query { source }),
        },
{
    reveal_strlit("allow");
    reveal_strlit("deny");
    assert("allow"@.len() != "deny"@.len());
    assert(final(store).transcript().drop_last() =~= old(store).transcript());
}

/// Whether `after` is `before` after the statement that inserts or updates the
/// decision under `key`, with outcome `r`.
pub open spec fn upserts(
    before: Permissions,
    after: Permissions,
    origin: Seq<char>,
    key: Seq<char>,
    decision: Decision,
    now: i64,
    r: Result<(), PermError>,
) -> bool {
    &&& adds(
        before,
        after,
        model::Request::Change {
            sql: "INSERT INTO permissions (origin, capability, decision, set_at) VALUES (?1, ?2, ?3, ?4) ON CONFLICT(origin, capability) DO UPDATE SET decision = excluded.decision, set_at = excluded.set_at"@,
            params: seq![
                model::Cell::Text(origin),
                model::Cell::Text(key),
                model::Cell::Text(
                    match decision {
                        Decision::Allow => "allow"@,
                        Decision::Deny => "deny"@,
                    },
                ),
                model::Cell::Integer(now),
            ],
        },
    )
    &&& match after.transcript().last().reply {
        Ok(_) => {
            &&& r is Ok
            &&& after.rows().contains_key((origin, key))
            &&& notation::says(after.rows()[(origin, key)].0, decision)
            &&& after.rows()[(origin, key)].1 == now
        },
        Err(source) => r == Err::<(), PermError>(PermError::Query { source }),
    }
}

/// Recording a decision stores it as it is given, at the time given.
pub proof fn record_stores_what_is_given(
    store: &mut Permissions,
    origin: &str,
    capability: Capability,
    decision: Decision,
    now: i64,
    key: String,
    r: Result<(), PermError>,
)
    requires
        call_ensures(Permissions::record, (store, origin, capability, decision, now), r),
        call_ensures(Capability::as_storage_key, (&capability,), key),
    ensures
        upserts(*old(store), *final(store), origin@, key@, decision, now, r),
{
    assert(final(store).transcript().drop_last() =~= old(store).transcript());
}

/// Setting a decision stores it as it is given, at the time of a reading of the
/// clock.
pub proof fn set_stores_what_is_given(
    store: &mut Permissions,
    origin: &str,
    capability: Capability,
    decision: Decision,
    key: String,
    r: Result<(), PermError>,
)
    requires
        call_ensures(Permissions::set, (store, origin, capability, decision), r),
        call_ensures(Capability::as_storage_key, (&capability,), key),
    ensures
        exists|reading: SystemTime, now: i64| #[trigger]
            notation::is_time_of(reading, now) && upserts(
                *old(store),
                *final(store),
                origin@,
                key@,
                decision,
                now,
                r,
            ),
{
    let reading = choose|reading: SystemTime|
        store::is_recorded(
            *old(store),
            *final(store),
            origin@,
            capability,
            decision,
            #[trigger] clock::stored_time(reading),
            r,
        );
    notation::lemma_stored_time(reading);
    assert(final(store).transcript().drop_last() =~= old(store).transcript());
}

/// Forgetting a decision deletes the one row, and tells whether there was one.
pub proof fn forget_deletes_one_decision(
    store: &mut Permissions,
    origin: &str,
    capability: Capability,
    key: String,
    r: Result<bool, PermError>,
)
    requires
        call_ensures(Permissions::forget, (store, origin, capability), r),
        call_ensures(Capability::as_storage_key, (&capability,), key),
    ensures
        adds(
            *old(store),
            *final(store),
            model::Request::Change {
                sql: "DELETE FROM permissions WHERE origin = ?1 AND capability = ?2"@,
                params: seq![model::Cell::Text(origin@), model::Cell::Text(key@)],
            },
        ),
        match final(store).transcript().last().reply {
            Ok(model::Answer::Count(n)) => r == Ok::<bool, PermError>(n != 0),
            Ok(_) => false,
            Err(source) => r == Err::<bool, PermError>(PermError::Query { source }),
        },
{
    assert(final(store).transcript().drop_last() =~= old(store).transcript());
}

/// Forgetting an origin deletes its rows, and returns their number.
pub proof fn forget_origin_deletes_one_origin(
    store: &mut Permissions,
    origin: &str,
    r: Result<usize, PermError>,
)
    requires
        call_ensures(Permissions::forget_origin, (store, origin), r),
    ensures
        adds(
            *old(store),
            *final(store),
            model::Request::Change {
                sql: "DELETE FROM permissions WHERE origin = ?1"@,
                params: seq![model::Cell::Text(origin@)],
            },
        ),
        match final(store).transcript().last().reply {
            Ok(model::Answer::Count(n)) => r == Ok::<usize, PermError>(n),
            Ok(_) => false,
            Err(source) => r == Err::<usize, PermError>(PermError::Query { source }),
        },
{
    assert(final(store).transcript().drop_last() =~= old(store).transcript());
}

/// A wipe deletes every row, and returns their number.
pub proof fn clear_deletes_everything(store: &mut Permissions, r: Result<usize, PermError>)
    requires
        call_ensures(Permissions::clear, (store,), r),
    ensures
        adds(
            *old(store),
            *final(store),
            model::Request::Change { sql: "DELETE FROM permissions"@, params: seq![] },
        ),
        match final(store).transcript().last().reply {
            Ok(model::Answer::Count(n)) => r == Ok::<usize, PermError>(n),
            Ok(_) => false,
            Err(source) => r == Err::<usize, PermError>(PermError::Query { source }),
        },
{
    assert(final(store).transcript().drop_last() =~= old(store).transcript());
}

/// A listing asks for every row, newest first, and reads them all.
pub proof fn all_asks_for_every_row(
    store: &mut Permissions,
    r: Result<Vec<PermissionRow>, PermError>,
)
    requires
        call_ensures(Permissions::all, (store,), r),
    ensures
        adds(
            *old(store),
            *final(store),
            model::Request::Listing {
                sql: "SELECT origin, capability, decision, set_at FROM permissions ORDER BY set_at DESC, origin ASC, capability ASC"@,
            },
        ),
        match final(store).transcript().last().reply {
            Ok(model::Answer::Rows(stored)) => reads_rows(stored, r),
            Ok(_) => false,
            Err(source) => r == Err::<Vec<PermissionRow>, PermError>(PermError::Query { source }),
        },
{
    assert(final(store).transcript().drop_last() =~= old(store).transcript());
    if let Ok(model::Answer::Rows(stored)) = final(store).transcript().last().reply {
        lemma_rows_are_read(stored, r);
    }
}

/// A store that was opened has write-ahead logging, normal synchronisation and
/// foreign keys switched on, before anything else was asked of it.
pub proof fn opened_stores_are_tuned(path: &PathBuf, store: Permissions)
    requires
        ({
            ||| call_ensures(Permissions::open, (path,), Ok::<Permissions, PermError>(store))
            ||| call_ensures(Permissions::open_in_memory, (), Ok::<Permissions, PermError>(store))
        }),
    ensures
        went_well(
            store.transcript(),
            0,
            model::Request::Setting { name: "journal_mode"@, value: "WAL"@ },
        ),
        went_well(
            store.transcript(),
            1,
            model::Request::Setting { name: "synchronous"@, value: "NORMAL"@ },
        ),
        went_well(
            store.transcript(),
            2,
            model::Request::Setting { name: "foreign_keys"@, value: "ON"@ },
        ),
{
    let settings = store.transcript().take(3);
    assert forall|i: int| 0 <= i < 3 implies store.transcript()[i].request == store::tuning_plan()[i]
        && store.transcript()[i].reply is Ok by {
        assert(schema::requests(settings)[i] == settings[i].request);
        assert(settings[i].reply is Ok);
    }
}

/// Everything that opening a database can ask of it, in order: the settings,
/// the table of versions and the newest version in it, and the one migration.
pub open spec fn opening() -> Seq<model::Request> {
    seq![
        model::Request::Setting { name: "journal_mode"@, value: "WAL"@ },
        model::Request::Setting { name: "synchronous"@, value: "NORMAL"@ },
        model::Request::Setting { name: "foreign_keys"@, value: "ON"@ },
        model::Request::Script {
            sql: "CREATE TABLE IF NOT EXISTS schema_version (version INTEGER PRIMARY KEY);"@,
        },
        model::Request::Number { sql: "SELECT COALESCE(MAX(version), 0) FROM schema_version"@ },
        model::Request::Begin,
        model::Request::Script {
            sql: "
    CREATE TABLE IF NOT EXISTS permissions (
      origin     TEXT NOT NULL,
      capability TEXT NOT NULL,
      decision   TEXT NOT NULL,
      set_at     INTEGER NOT NULL,
      PRIMARY KEY (origin, capability)
    );
    CREATE INDEX IF NOT EXISTS idx_permissions_set_at
      ON permissions(set_at DESC);
    "@,
        },
        model::Request::Change {
            sql: "INSERT INTO schema_version(version) VALUES (?1)"@,
            params: seq![model::Cell::Integer(1)],
        },
        model::Request::Commit,
    ]
}

/// Whether the first `n` of `steps` are the first `n` of the opening, and all of
/// them succeeded.
pub open spec fn opens_well(steps: Seq<model::Step>, n: int) -> bool {
    &&& n <= steps.len()
    &&& forall|i: int| #![trigger steps[i]]
        0 <= i < n ==> steps[i].request == opening()[i] && steps[i].reply is Ok
}

/// Whether `steps` tell of a database at version 1 or later.
pub open spec fn is_current(steps: Seq<model::Step>) -> bool {
    steps[4].reply matches Ok(model::Answer::Number(version)) && version >= 1
}

/// Opening asks for the settings, the version and, on a database that has not
/// seen it, the one migration in a transaction; nothing else. It keeps every
/// decision, and notes the migration where it ran.
pub proof fn opened_stores_are_migrated(path: &PathBuf, store: Permissions)
    requires
        ({
            ||| call_ensures(Permissions::open, (path,), Ok::<Permissions, PermError>(store))
            ||| call_ensures(Permissions::open_in_memory, (), Ok::<Permissions, PermError>(store))
        }),
    ensures
        store.transcript().len() == (if is_current(store.transcript()) {
            5int
        } else {
            9int
        }),
        opens_well(store.transcript(), store.transcript().len() as int),
        store.rows() == sqlite::rows_at_open(store.connection()),
        store.versions() == (if is_current(store.transcript()) {
            sqlite::versions_at_open(store.connection())
        } else {
            sqlite::versions_at_open(store.connection()).insert(1)
        }),
        store.accountable() == sqlite::exclusive(store.connection()),
{
    let t = store.transcript();
    let upgrade = t.skip(3);
    let current = schema::current_version(upgrade);
    opened_stores_are_tuned(path, store);
    lemma_upgrade(upgrade);
    assert forall|i: int| #![trigger t[i]] 0 <= i < t.len() implies t[i].request == opening()[i]
        && t[i].reply is Ok by {
        if i >= 3 {
            assert(t[i] == upgrade[i - 3]);
        }
    }
    assert(t[4] == upgrade[1]);
    assert(store.versions() =~= (if current >= 1 {
        sqlite::versions_at_open(store.connection())
    } else {
        sqlite::versions_at_open(store.connection()).insert(1)
    }));
}

/// A finished upgrade is the rest of the opening.
proof fn lemma_upgrade(upgrade: Seq<model::Step>)
    requires
        schema::is_upgrade(upgrade, Ok(())),
    ensures
        upgrade.len() == (if schema::current_version(upgrade) >= 1 {
            2int
        } else {
            6int
        }),
        forall|i: int| #![trigger upgrade[i]]
            0 <= i < upgrade.len() ==> upgrade[i].request == opening()[i + 3] && upgrade[i].reply is Ok,
{
    let current = schema::current_version(upgrade);
    reveal_with_fuel(schema::pending_plan, 2);
    assert(schema::requests(upgrade).len() == upgrade.len());
    assert forall|i: int| #![trigger upgrade[i]] 0 <= i < upgrade.len() implies upgrade[i].request
        == opening()[i + 3] && upgrade[i].reply is Ok by {
        assert(schema::requests(upgrade)[i] == upgrade[i].request);
    }
}

/// Whether `steps` are an opening that failed with `e`. A setting that failed is
/// an [`PermError::Open`]; the version table or the version a
/// [`PermError::Migrate`] to version 0; the migration one to version 1, and the
/// transaction is rolled back where it had begun.
pub open spec fn opens_badly(steps: Seq<model::Step>, k: int, e: PermError) -> bool {
    &&& 0 <= k <= 8
    &&& k < steps.len()
    &&& opens_well(steps, k)
    &&& steps[k].request == opening()[k]
    &&& k > 4 ==> (steps[4].reply matches Ok(model::Answer::Number(version)) && version < 1)
    &&& if k <= 5 {
        steps.len() == k + 1
    } else {
        steps.len() == k + 2 && steps[k + 1].request is Rollback
    }
    &&& steps[k].reply is Err
    &&& if k <= 2 {
        e == (PermError::Open { source: steps[k].reply->Err_0 })
    } else {
        e == (PermError::Migrate {
            source: steps[k].reply->Err_0,
            version: if k <= 4 {
                0
            } else {
                1
            },
        })
    }
}

/// Whether a connection is one on which opening failed with `e`, and which holds
/// what it held before unless what was begun could not be undone.
pub open spec fn failed_on(conn: rusqlite::Connection, e: PermError) -> bool {
    &&& exists|k: int| #[trigger] opens_badly(sqlite::transcript(conn), k, e)
    &&& sqlite::progress(conn).certain ==> sqlite::progress(conn).tables == sqlite::tables_at_open(
        conn,
    )
}

/// A file is opened at its path, for reading and writing (2) and to be created
/// where there is none (4). Where opening fails, it does so with the error of
/// the first request that failed, and leaves the database as it was unless what
/// was begun could not be undone.
pub proof fn open_uses_the_path(path: &PathBuf, r: Result<Permissions, PermError>)
    requires
        call_ensures(Permissions::open, (path,), r),
    ensures
        match r {
            Ok(store) => sqlite::opened_on(store.connection(), path, 6),
            Err(e) => {
                ||| e matches PermError::Open { source } && sqlite::refused(path, 6, source)
                ||| exists|conn: rusqlite::Connection| #[trigger]
                    sqlite::opened_on(conn, path, 6) && failed_on(conn, e)
            },
        },
{
    if let Err(e) = r {
        if !(e matches PermError::Open { source } && sqlite::refused(path, 6, source)) {
            let conn = choose|conn: rusqlite::Connection|
                {
                    &&& #[trigger] sqlite::opened_on(conn, path, 6)
                    &&& store::is_setup(sqlite::transcript(conn), Err::<(), PermError>(e))
                    &&& sqlite::progress(conn).certain ==> sqlite::progress(conn).tables
                        == sqlite::tables_at_open(conn)
                };
            lemma_failed_setup(sqlite::transcript(conn), e);
        }
    }
}

/// A store in memory starts without decisions, on a database of its own, at
/// version 1. Where opening it fails, it does so with the error of the first
/// request that failed.
pub proof fn memory_starts_empty(r: Result<Permissions, PermError>)
    requires
        call_ensures(Permissions::open_in_memory, (), r),
    ensures
        match r {
            Ok(store) => {
                &&& store.transcript().len() == 9
                &&& store.rows() == Map::<model::Key, model::Entry>::empty()
                &&& store.versions() == set![1i64]
                &&& store.accountable()
            },
            Err(e) => {
                ||| e matches PermError::Open { source } && sqlite::memory_refused(source)
                ||| exists|conn: rusqlite::Connection| #[trigger]
                    sqlite::private_and_empty(conn) && failed_on(conn, e)
            },
        },
{
    match r {
        Ok(store) => {
            let t = store.transcript();
            reveal_with_fuel(schema::pending_plan, 2);
            assert(schema::requests(t).len() == t.len());
            assert(store.versions() =~= set![1i64]);
        },
        Err(e) => {
            if !(e matches PermError::Open { source } && sqlite::memory_refused(source)) {
                let conn = choose|conn: rusqlite::Connection|
                    {
                        &&& #[trigger] sqlite::private_and_empty(conn)
                        &&& store::is_setup(sqlite::transcript(conn), Err::<(), PermError>(e))
                        &&& sqlite::progress(conn).certain ==> sqlite::progress(conn).tables
                            == sqlite::tables_at_open(conn)
                    };
                lemma_failed_setup(sqlite::transcript(conn), e);
            }
        },
    }
}

/// A setup that failed is an opening that did.
proof fn lemma_failed_setup(t: Seq<model::Step>, e: PermError)
    requires
        store::is_setup(t, Err::<(), PermError>(e)),
    ensures
        exists|k: int| #[trigger] opens_badly(t, k, e),
{
    match e {
        PermError::Open { source } => {
            let k = choose|k: int| #[trigger] schema::stopped(t, store::tuning_plan(), k, source);
            assert forall|i: int| #![trigger t[i]] 0 <= i <= k implies t[i].request == opening()[i] by {
                assert(schema::requests(t)[i] == store::tuning_plan().take(k + 1)[i]);
            }
            assert forall|i: int| #![trigger t[i]] 0 <= i < k implies t[i].reply is Ok by {
                assert(t.take(k)[i].reply is Ok);
            }
            assert(opens_badly(t, k, e));
        },
        PermError::Migrate { source, version } => {
            let settings = t.take(3);
            let upgrade = t.skip(3);
            assert forall|i: int| #![trigger t[i]] 0 <= i < 3 implies t[i].request == opening()[i]
                && t[i].reply is Ok by {
                assert(schema::requests(settings)[i] == store::tuning_plan()[i]);
                assert(settings[i].reply is Ok);
            }
            if version == 0 {
                let plan = schema::schema_plan(0, 0);
                let k = if schema::stopped(upgrade, plan, 0, source) {
                    0int
                } else {
                    1int
                };
                assert forall|i: int| #![trigger t[i]] 3 <= i <= 3 + k implies t[i].request
                    == opening()[i] by {
                    assert(schema::requests(upgrade)[i - 3] == plan.take(k + 1)[i - 3]);
                }
                assert forall|i: int| #![trigger t[i]] 3 <= i < 3 + k implies t[i].reply is Ok by {
                    assert(upgrade.take(k)[i - 3].reply is Ok);
                }
                assert(t[3 + k] == upgrade[k]);
                assert(opens_badly(t, 3 + k, e));
            } else {
                let current = schema::current_version(upgrade);
                let done = schema::schema_plan(current, 0);
                let steps = upgrade.skip(2);
                let plan = schema::migration_plan(schema::scripts()[0], 1);
                assert(schema::pending_plan(current, 0) =~= seq![]);
                assert(done.len() == 2);
                let k = choose|k: int| #[trigger] schema::broke_off(steps, plan, k, source);
                assert forall|i: int| #![trigger t[i]] 3 <= i < 5 implies t[i].request
                    == opening()[i] && t[i].reply is Ok by {
                    assert(schema::requests(upgrade.take(2))[i - 3] == done[i - 3]);
                    assert(upgrade.take(2)[i - 3].reply is Ok);
                }
                assert forall|i: int| #![trigger t[i]] 5 <= i <= 5 + k implies t[i].request
                    == opening()[i] by {
                    assert(schema::requests(steps).take(k + 1)[i - 5] == plan.take(k + 1)[i - 5]);
                }
                assert forall|i: int| #![trigger t[i]] 5 <= i < 5 + k implies t[i].reply is Ok by {
                    assert(steps.take(k)[i - 5].reply is Ok);
                }
                assert(t[4] == upgrade[1]);
                assert(t[5 + k] == steps[k]);
                assert(k > 0 ==> t[6 + k] == steps[k + 1]);
                assert(opens_badly(t, 5 + k, e));
            }
        },
        _ => {},
    }
}

} // verus!

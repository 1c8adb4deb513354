//! The permissions store.

use crate::capability;
use crate::capability::Capability;
use crate::clock;
use crate::clock::current_unix_time;
use crate::decision;
use crate::decision::Decision;
use crate::error::PermError;
use crate::model;
use crate::model::SqlValue;
use crate::schema;
use crate::sqlite;
use crate::sqlite::RawRow;
use std::path::PathBuf;
use std::time::SystemTime;
use vstd::prelude::*;

verus! {

/// The flags a database file is opened with: read and write, and create it
/// where it does not exist (`SQLITE_OPEN_READWRITE` and `SQLITE_OPEN_CREATE`).
pub const OPEN_FLAGS: i32 = 6;

/// One row in the permissions table.
#[derive(Debug, Clone, PartialEq, Eq)]
pub struct PermissionRow {
    pub origin: String,
    pub capability: Capability,
    pub decision: Decision,
    /// Wall-clock unix-epoch seconds at which the row was last inserted or
    /// updated. Useful for "show recent decisions" UIs.
    pub set_at: i64,
}

/// SQLite-backed per-origin permissions store.
pub struct Permissions {
    conn: rusqlite::Connection,
}

impl Permissions {
    /// The connection to the database.
    pub closed spec fn connection(self) -> rusqlite::Connection {
        self.conn
    }

    /// What was asked of the database since it was opened, with the replies.
    pub open spec fn transcript(self) -> Seq<model::Step> {
        sqlite::transcript(self.connection())
    }

    /// The latest reply.
    pub open spec fn reply(self) -> Result<model::Answer, rusqlite::Error> {
        self.transcript().last().reply
    }

    /// The decisions in the store, by the transcript.
    pub open spec fn rows(self) -> Map<model::Key, model::Entry> {
        sqlite::progress(self.connection()).tables.permissions
    }

    /// The applied migrations, by the transcript.
    pub open spec fn versions(self) -> Set<i64> {
        sqlite::progress(self.connection()).tables.versions
    }

    /// Whether the decisions in the database are the ones that the transcript
    /// accounts for: nothing else writes to it. An in-memory store is.
    pub open spec fn accountable(self) -> bool {
        sqlite::accountable(self.connection())
    }

    /// Whether `self` is `before` after one more request, which left the
    /// migrations alone.
    pub open spec fn asked(self, before: Permissions, request: model::Request) -> bool {
        &&& sqlite::one_more(before.connection(), self.connection(), request, self.reply())
        &&& self.versions() == before.versions()
        &&& self.accountable() == before.accountable()
    }
}

/// The settings of a connection, in the order in which they are made.
pub open spec fn tuning_plan() -> Seq<model::Request> {
    seq![
        model::Request::Setting { name: "journal_mode"@, value: "WAL"@ },
        model::Request::Setting { name: "synchronous"@, value: "NORMAL"@ },
        model::Request::Setting { name: "foreign_keys"@, value: "ON"@ },
    ]
}

/// Whether `steps` are what tuning a connection asks for, with outcome `r`.
pub open spec fn is_tuning(steps: Seq<model::Step>, r: Result<(), PermError>) -> bool {
    match r {
        Ok(_) => schema::requests(steps) == tuning_plan() && schema::all_ok(steps),
        Err(PermError::Open { source }) => exists|k: int| #[trigger]
            schema::stopped(steps, tuning_plan(), k, source),
        Err(_) => false,
    }
}

/// Whether `steps` are what making a new connection ready asks for, with
/// outcome `r`: the settings, then the migrations.
pub open spec fn is_setup(steps: Seq<model::Step>, r: Result<(), PermError>) -> bool {
    if r matches Err(PermError::Open { source }) {
        is_tuning(steps, r)
    } else {
        &&& steps.len() >= 3
        &&& is_tuning(steps.take(3), Ok(()))
        &&& schema::is_upgrade(steps.skip(3), r)
    }
}

/// Whether a store is as opening it leaves it: set up, with the migrations noted
/// that were pending, and with the decisions that it found.
pub open spec fn is_ready(store: Permissions) -> bool {
    let current = schema::current_version(store.transcript().skip(3));
    let found = sqlite::tables_at_open(store.connection());
    &&& is_setup(store.transcript(), Ok(()))
    &&& sqlite::progress(store.connection()) == schema::with_versions(
        model::replay(found, Seq::empty()),
        current,
        schema::latest(),
    )
    &&& store.rows() == found.permissions
    &&& store.accountable() == sqlite::exclusive(store.connection())
    &&& store.accountable() ==> model::is_newest(current, found.versions)
}

/// Whether `r` is what a lookup with this reply comes to.
pub open spec fn is_get_result(
    reply: Result<model::Answer, rusqlite::Error>,
    r: Result<Option<Decision>, PermError>,
) -> bool {
    match reply {
        Ok(model::Answer::Text(found)) => is_decoded_decision(found, r),
        Ok(_) => false,
        Err(source) => r == Err::<Option<Decision>, PermError>(PermError::Query { source }),
    }
}

/// Whether `r` is what a found text, or none, stands for.
pub open spec fn is_decoded_decision(
    found: Option<Seq<char>>,
    r: Result<Option<Decision>, PermError>,
) -> bool {
    match found {
        None => r == Ok::<Option<Decision>, PermError>(None),
        Some(s) => match decision::decision_of(s) {
            Some(d) => r == Ok::<Option<Decision>, PermError>(Some(d)),
            None => r matches Err(PermError::UnknownDecision { decision }) && decision@ == s,
        },
    }
}

/// Whether `row` is what a stored row stands for.
pub open spec fn is_decoded_row(stored: model::StoredRow, row: PermissionRow) -> bool {
    &&& row.origin@ == stored.origin
    &&& Some(row.capability) == capability::capability_of(stored.capability)
    &&& Some(row.decision) == decision::decision_of(stored.decision)
    &&& row.set_at == stored.set_at
}

/// Whether a stored row stands for a permission.
pub open spec fn is_readable(stored: model::StoredRow) -> bool {
    &&& capability::capability_of(stored.capability) is Some
    &&& decision::decision_of(stored.decision) is Some
}

/// Whether `e` says what is wrong with a stored row: its capability, or else
/// its decision.
pub open spec fn is_complaint(stored: model::StoredRow, e: PermError) -> bool {
    if capability::capability_of(stored.capability) is None {
        e matches PermError::UnknownCapability { capability } && capability@ == stored.capability
    } else {
        &&& decision::decision_of(stored.decision) is None
        &&& e matches PermError::UnknownDecision { decision } && decision@ == stored.decision
    }
}

/// Whether `r` is what a list of stored rows comes to: every row decoded, or the
/// complaint about the first that stands for nothing.
pub open spec fn is_decoded_list(
    stored: Seq<model::StoredRow>,
    r: Result<Vec<PermissionRow>, PermError>,
) -> bool {
    match r {
        Ok(rows) => {
            &&& rows@.len() == stored.len()
            &&& forall|i: int|
                0 <= i < stored.len() ==> is_decoded_row(#[trigger] stored[i], rows@[i])
        },
        Err(e) => exists|j: int|
            {
                &&& 0 <= j < stored.len()
                &&& is_complaint(#[trigger] stored[j], e)
                &&& forall|i: int| 0 <= i < j ==> is_readable(#[trigger] stored[i])
            },
    }
}

/// The key of an origin and a capability.
pub open spec fn key_of(origin: Seq<char>, capability: Capability) -> model::Key {
    (origin, capability.key())
}

/// The request that records a decision at time `now`.
pub open spec fn recording(
    origin: Seq<char>,
    capability: Capability,
    decision: Decision,
    now: i64,
) -> model::Request {
    model::Request::Change {
        sql: model::RECORD@,
        params: seq![
            model::Cell::Text(origin),
            model::Cell::Text(capability.key()),
            model::Cell::Text(decision.text()),
            model::Cell::Integer(now),
        ],
    }
}

/// Whether `after` is `before` after recording a decision at time `now`, with
/// outcome `r`.
pub open spec fn is_recorded(
    before: Permissions,
    after: Permissions,
    origin: Seq<char>,
    capability: Capability,
    decision: Decision,
    now: i64,
    r: Result<(), PermError>,
) -> bool {
    &&& after.asked(before, recording(origin, capability, decision, now))
    &&& match r {
        Ok(_) => {
            &&& after.reply() is Ok
            &&& after.rows() == before.rows().insert(
                key_of(origin, capability),
                (decision.text(), now),
            )
        },
        Err(e) => is_refused(before, after, e),
    }
}

/// Whether `after` is `before` after looking up a decision, with outcome `r`.
pub open spec fn is_looked_up(
    before: Permissions,
    after: Permissions,
    origin: Seq<char>,
    capability: Capability,
    r: Result<Option<Decision>, PermError>,
) -> bool {
    let key = key_of(origin, capability);
    &&& after.asked(
        before,
        model::Request::Lookup {
            sql: model::FIND@,
            params: seq![model::Cell::Text(origin), model::Cell::Text(capability.key())],
        },
    )
    &&& is_get_result(after.reply(), r)
    &&& after.rows() == before.rows()
    &&& before.accountable() ==> match r {
        Ok(None) => !before.rows().contains_key(key),
        Ok(Some(d)) => before.rows().contains_key(key) && before.rows()[key].0 == d.text(),
        Err(PermError::UnknownDecision { decision }) => {
            &&& before.rows().contains_key(key)
            &&& before.rows()[key].0 == decision@
            &&& decision::decision_of(decision@) is None
        },
        Err(_) => after.reply() is Err,
    }
}

/// Whether `after` is `before` after forgetting a decision, with outcome `r`.
pub open spec fn is_forgotten(
    before: Permissions,
    after: Permissions,
    origin: Seq<char>,
    capability: Capability,
    r: Result<bool, PermError>,
) -> bool {
    let key = key_of(origin, capability);
    &&& after.asked(
        before,
        model::Request::Change {
            sql: model::FORGET@,
            params: seq![model::Cell::Text(origin), model::Cell::Text(capability.key())],
        },
    )
    &&& match r {
        Ok(deleted) => {
            &&& after.reply() matches Ok(model::Answer::Count(n)) && deleted == (n > 0)
            &&& after.rows() == before.rows().remove(key)
            &&& before.accountable() ==> deleted == before.rows().contains_key(key)
        },
        Err(e) => is_refused(before, after, e),
    }
}

/// Whether `after` is `before` after forgetting an origin, with outcome `r`.
pub open spec fn is_origin_forgotten(
    before: Permissions,
    after: Permissions,
    origin: Seq<char>,
    r: Result<usize, PermError>,
) -> bool {
    let gone = model::of_origin(before.rows(), origin);
    &&& after.asked(
        before,
        model::Request::Change {
            sql: model::FORGET_ORIGIN@,
            params: seq![model::Cell::Text(origin)],
        },
    )
    &&& match r {
        Ok(n) => {
            &&& after.reply() == Ok::<model::Answer, rusqlite::Error>(model::Answer::Count(n))
            &&& after.rows() == model::without_origin(before.rows(), origin)
            &&& before.accountable() ==> n == gone.len() as usize
        },
        Err(e) => is_refused(before, after, e),
    }
}

/// Whether `after` is `before` after wiping every row, with outcome `r`.
pub open spec fn is_cleared(
    before: Permissions,
    after: Permissions,
    r: Result<usize, PermError>,
) -> bool {
    let gone = before.rows().dom();
    &&& after.asked(before, model::Request::Change { sql: model::CLEAR@, params: seq![] })
    &&& match r {
        Ok(n) => {
            &&& after.reply() == Ok::<model::Answer, rusqlite::Error>(model::Answer::Count(n))
            &&& after.rows() == Map::<model::Key, model::Entry>::empty()
            &&& before.accountable() ==> n == gone.len() as usize
        },
        Err(e) => is_refused(before, after, e),
    }
}

/// Whether `after` is `before` after listing every row, with outcome `r`.
pub open spec fn is_listed(
    before: Permissions,
    after: Permissions,
    r: Result<Vec<PermissionRow>, PermError>,
) -> bool {
    &&& after.asked(before, model::Request::Listing { sql: model::LIST@ })
    &&& after.rows() == before.rows()
    &&& match after.reply() {
        Ok(model::Answer::Rows(stored)) => {
            &&& is_decoded_list(stored, r)
            &&& before.accountable() ==> model::is_listing(stored, before.rows())
        },
        Ok(_) => false,
        Err(source) => r == Err::<Vec<PermissionRow>, PermError>(PermError::Query { source }),
    }
}

/// Whether `e` is the failure of the latest request, which changed nothing.
pub open spec fn is_refused(before: Permissions, after: Permissions, e: PermError) -> bool {
    &&& e matches PermError::Query { source } && after.reply() == Err::<
        model::Answer,
        rusqlite::Error,
    >(source)
    &&& after.rows() == before.rows()
}

/// Reads the decision that a lookup found.
pub fn decode_decision(found: Option<String>) -> (r: Result<Option<Decision>, PermError>)
    ensures
        is_decoded_decision(
            match found {
                Some(s) => Some(s@),
                None => None,
            },
            r,
        ),
{
    match found {
        None => Ok(None),
        Some(s) => match Decision::from_str(s.as_str()) {
            Ok(d) => Ok(Some(d)),
            Err(e) => Err(e),
        },
    }
}

/// Reads the rows that a listing found, up to the first that stands for nothing.
pub fn decode_rows(rows: Vec<RawRow>) -> (r: Result<Vec<PermissionRow>, PermError>)
    ensures
        is_decoded_list(sqlite::stored(rows@), r),
{
    let mut out: Vec<PermissionRow> = Vec::new();
    let ghost stored = sqlite::stored(rows@);
    let mut i: usize = 0;
    while i < rows.len()
        invariant
            i <= rows.len(),
            stored == sqlite::stored(rows@),
            out@.len() == i,
            forall|j: int| 0 <= j < i ==> is_decoded_row(#[trigger] stored[j], out@[j]),
        decreases rows.len() - i,
    {
        let row: &RawRow = &rows[i];
        let capability = match Capability::from_storage_key(row.1.as_str()) {
            Ok(c) => c,
            Err(e) => {
                assert(is_complaint(stored[i as int], e));
                return Err(e);
            },
        };
        let decision = match Decision::from_str(row.2.as_str()) {
            Ok(d) => d,
            Err(e) => {
                assert(is_complaint(stored[i as int], e));
                return Err(e);
            },
        };
        out.push(PermissionRow { origin: row.0.clone(), capability, decision, set_at: row.3 });
        assert(is_decoded_row(stored[i as int], out@[i as int]));
        i += 1;
    }
    Ok(out)
}

impl Permissions {
    /// Makes the settings of a connection.
    fn tune(conn: &mut rusqlite::Connection) -> (r: Result<(), PermError>)
        ensures
            schema::continues(*old(conn), *final(conn)),
            is_tuning(schema::added(*old(conn), *final(conn)), r),
            sqlite::progress(*final(conn)) == sqlite::progress(*old(conn)),
    {
        let ghost c0 = *conn;
        let first = sqlite::set_pragma(conn, "journal_mode", "WAL");
        let ghost c1 = *conn;
        let ghost s0 = model::Step { request: tuning_plan()[0], reply: sqlite::done(first) };
        proof {
            schema::lemma_one_added(c0, c1, s0.request, s0.reply);
            assert(schema::requests(seq![s0]) =~= tuning_plan().take(1));
        }
        if let Err(source) = first {
            let failed = Err(PermError::Open { source });
            assert(schema::stopped(seq![s0], tuning_plan(), 0, failed->Err_0->Open_source));
            return failed;
        }
        let second = sqlite::set_pragma(conn, "synchronous", "NORMAL");
        let ghost c2 = *conn;
        let ghost s1 = model::Step { request: tuning_plan()[1], reply: sqlite::done(second) };
        proof {
            schema::lemma_one_added(c1, c2, s1.request, s1.reply);
            schema::lemma_added_twice(c0, c1, c2);
            assert(seq![s0] + seq![s1] =~= seq![s0, s1]);
            assert(schema::requests(seq![s0, s1]) =~= tuning_plan().take(2));
        }
        if let Err(source) = second {
            let failed = Err(PermError::Open { source });
            assert(schema::stopped(seq![s0, s1], tuning_plan(), 1, failed->Err_0->Open_source));
            return failed;
        }
        let third = sqlite::set_pragma(conn, "foreign_keys", "ON");
        let ghost s2 = model::Step { request: tuning_plan()[2], reply: sqlite::done(third) };
        proof {
            schema::lemma_one_added(c2, *conn, s2.request, s2.reply);
            schema::lemma_added_twice(c0, c2, *conn);
            assert(seq![s0, s1] + seq![s2] =~= seq![s0, s1, s2]);
            assert(schema::requests(seq![s0, s1, s2]) =~= tuning_plan());
            assert(tuning_plan().take(3) =~= tuning_plan());
        }
        if let Err(source) = third {
            let failed = Err(PermError::Open { source });
            assert(schema::stopped(seq![s0, s1, s2], tuning_plan(), 2, failed->Err_0->Open_source));
            return failed;
        }
        Ok(())
    }

    /// Makes a new connection ready: its settings, then any pending migrations.
    fn prepare(conn: &mut rusqlite::Connection) -> (r: Result<(), PermError>)
        requires
            sqlite::transcript(*old(conn)) == Seq::<model::Step>::empty(),
        ensures
            sqlite::same_connection(*old(conn), *final(conn)),
            is_setup(sqlite::transcript(*final(conn)), r),
            r is Ok ==> schema::upgrades(
                sqlite::progress(*old(conn)),
                sqlite::progress(*final(conn)),
                schema::current_version(sqlite::transcript(*final(conn)).skip(3)),
                r,
            ),
            r is Err && sqlite::progress(*final(conn)).certain ==> sqlite::progress(*final(conn)).tables
                == sqlite::tables_at_open(*final(conn)),
            r is Ok && sqlite::exclusive(*old(conn)) ==> model::is_newest(
                schema::current_version(sqlite::transcript(*final(conn)).skip(3)),
                sqlite::versions_at_open(*old(conn)),
            ),
    {
        let ghost c0 = *conn;
        let tuned = Self::tune(conn);
        let ghost c1 = *conn;
        let ghost settings = schema::added(c0, c1);
        assert(settings =~= sqlite::transcript(c1));
        if tuned.is_err() {
            return tuned;
        }
        let r = schema::apply(conn);
        proof {
            let upgrade = schema::added(c1, *conn);
            schema::lemma_added_twice(c0, c1, *conn);
            assert(schema::requests(settings).len() == settings.len());
            assert(sqlite::transcript(*conn) =~= settings + upgrade);
            assert(sqlite::transcript(*conn).take(3) =~= settings);
            assert(sqlite::transcript(*conn).skip(3) =~= upgrade);
            if r is Ok {
                assert(schema::requests(upgrade).len() == upgrade.len());
            }
            if r is Err {
                let current = schema::current_version(upgrade);
                assert(schema::with_versions(sqlite::progress(c1), current, 0)
                    =~= sqlite::progress(c1));
            }
        }
        r
    }

    /// Opens or creates the SQLite database at `path` and runs any pending
    /// schema migrations.
    pub fn open(path: &PathBuf) -> (r: Result<Self, PermError>)
        ensures
            match r {
                Ok(store) => {
                    &&& sqlite::opened_on(store.connection(), path, OPEN_FLAGS)
                    &&& is_ready(store)
                    &&& store.rows().dom().finite()
                },
                Err(e) => {
                    ||| e matches PermError::Open { source } && sqlite::refused(
                        path,
                        OPEN_FLAGS,
                        source,
                    )
                    ||| exists|conn: rusqlite::Connection|
                        {
                            &&& #[trigger] sqlite::opened_on(conn, path, OPEN_FLAGS)
                            &&& is_setup(sqlite::transcript(conn), Err::<(), PermError>(e))
                            &&& sqlite::progress(conn).certain ==> sqlite::progress(conn).tables
                                == sqlite::tables_at_open(conn)
                        }
                },
            },
    {
        let mut conn = match sqlite::open_file(path, OPEN_FLAGS) {
            Ok(conn) => conn,
            Err(source) => {
                return Err(PermError::Open { source });
            },
        };
        match Self::prepare(&mut conn) {
            Ok(_) => Ok(Permissions { conn }),
            Err(e) => {
                assert(sqlite::opened_on(conn, path, OPEN_FLAGS));
                Err(e)
            },
        }
    }

    /// In-memory database, for tests and short-lived ephemeral profiles
    /// (private windows).
    pub fn open_in_memory() -> (r: Result<Self, PermError>)
        ensures
            match r {
                Ok(store) => {
                    &&& schema::requests(store.transcript()) == tuning_plan() + schema::schema_plan(
                        0,
                        schema::scripts().len(),
                    )
                    &&& schema::all_ok(store.transcript())
                    &&& is_ready(store)
                    &&& sqlite::private_and_empty(store.connection())
                    &&& store.rows() == Map::<model::Key, model::Entry>::empty()
                    &&& store.accountable()
                },
                Err(e) => {
                    ||| e matches PermError::Open { source } && sqlite::memory_refused(source)
                    ||| exists|conn: rusqlite::Connection|
                        {
                            &&& #[trigger] sqlite::private_and_empty(conn)
                            &&& is_setup(sqlite::transcript(conn), Err::<(), PermError>(e))
                            &&& sqlite::progress(conn).certain ==> sqlite::progress(conn).tables
                                == sqlite::tables_at_open(conn)
                        }
                },
            },
    {
        let mut conn = match sqlite::open_memory() {
            Ok(conn) => conn,
            Err(source) => {
                return Err(PermError::Open { source });
            },
        };
        match Self::prepare(&mut conn) {
            Ok(_) => {
                let ghost steps = sqlite::transcript(conn);
                let store = Permissions { conn };
                proof {
                    assert(steps =~= steps.take(3) + steps.skip(3));
                    assert(schema::requests(steps) =~= schema::requests(steps.take(3))
                        + schema::requests(steps.skip(3)));
                }
                Ok(store)
            },
            Err(e) => {
                assert(sqlite::private_and_empty(conn));
                Err(e)
            },
        }
    }

    /// Looks up the stored decision for `(origin, capability)`. `None` means
    /// "not yet decided, prompt the user".
    pub fn get(&mut self, origin: &str, capability: Capability) -> (r: Result<
        Option<Decision>,
        PermError,
    >)
        ensures
            is_looked_up(*old(self), *final(self), origin@, capability, r),
    {
        let key = capability.as_storage_key();
        let ghost before = self.conn;
        let found = sqlite::query_text(&mut self.conn, model::FIND, origin, key.as_str());
        proof {
            schema::lemma_one_added(
                before,
                self.conn,
                model::Request::Lookup {
                    sql: model::FIND@,
                    params: seq![model::Cell::Text(origin@), model::Cell::Text(key@)],
                },
                sqlite::found(found),
            );
        }
        match found {
            Ok(text) => decode_decision(text),
            Err(source) => Err(PermError::Query { source }),
        }
    }

    /// Runs a statement that changes decisions.
    fn change(&mut self, sql: &str, params: &[SqlValue]) -> (r: Result<usize, PermError>)
        requires
            model::known_change(sql@, model::cells(params@)),
            sql@ != model::NOTE_VERSION@,
        ensures
            final(self).asked(
                *old(self),
                model::Request::Change { sql: sql@, params: model::cells(params@) },
            ),
            ({
                let before = sqlite::progress(old(self).connection()).tables;
                let after = sqlite::progress(final(self).connection()).tables;
                let rows = model::rows_changed(before, sql@, model::cells(params@));
                match r {
                    Ok(n) => {
                        &&& final(self).reply() == Ok::<model::Answer, rusqlite::Error>(
                            model::Answer::Count(n),
                        )
                        &&& after == model::after_change(before, sql@, model::cells(params@))
                        &&& old(self).accountable() ==> n == rows as usize
                    },
                    Err(PermError::Query { source }) => {
                        &&& final(self).reply() == Err::<model::Answer, rusqlite::Error>(source)
                        &&& after == before
                    },
                    Err(_) => false,
                }
            }),
    {
        let ghost before = self.conn;
        let changed = sqlite::run_change(&mut self.conn, sql, params);
        proof {
            schema::lemma_one_added(
                before,
                self.conn,
                model::Request::Change { sql: sql@, params: model::cells(params@) },
                sqlite::counted(changed),
            );
        }
        match changed {
            Ok(n) => Ok(n),
            Err(source) => Err(PermError::Query { source }),
        }
    }

    /// Inserts or updates the stored decision, as of time `now`.
    pub fn record(
        &mut self,
        origin: &str,
        capability: Capability,
        decision: Decision,
        now: i64,
    ) -> (r: Result<(), PermError>)
        ensures
            is_recorded(*old(self), *final(self), origin@, capability, decision, now, r),
    {
        let params = vec![
            SqlValue::Text(origin.to_owned()),
            SqlValue::Text(capability.as_storage_key()),
            SqlValue::Text(decision.as_str().to_owned()),
            SqlValue::Integer(now),
        ];
        proof {
            model::lemma_changes_differ();
            let request = recording(origin@, capability, decision, now);
            assert(model::cells(params@) =~= request->Change_params);
        }
        match self.change(model::RECORD, params.as_slice()) {
            Ok(_) => Ok(()),
            Err(e) => Err(e),
        }
    }

    /// Inserts or updates the stored decision, as of now.
    pub fn set(&mut self, origin: &str, capability: Capability, decision: Decision) -> (r: Result<
        (),
        PermError,
    >)
        ensures
            exists|reading: SystemTime|
                is_recorded(
                    *old(self),
                    *final(self),
                    origin@,
                    capability,
                    decision,
                    #[trigger] clock::stored_time(reading),
                    r,
                ),
    {
        self.record(origin, capability, decision, current_unix_time())
    }

    /// Drops the stored decision for `(origin, capability)`. Returns `true` iff
    /// a row was deleted.
    pub fn forget(&mut self, origin: &str, capability: Capability) -> (r: Result<bool, PermError>)
        ensures
            is_forgotten(*old(self), *final(self), origin@, capability, r),
    {
        let params = vec![
            SqlValue::Text(origin.to_owned()),
            SqlValue::Text(capability.as_storage_key()),
        ];
        proof {
            model::lemma_changes_differ();
            assert(model::cells(params@) =~= seq![
                model::Cell::Text(origin@),
                model::Cell::Text(capability.key()),
            ]);
            let rows = self.rows();
            let key = key_of(origin@, capability);
            if rows.contains_key(key) {
                assert(rows.dom().difference(rows.remove(key).dom()) =~= set![key]);
            } else {
                assert(rows.dom().difference(rows.remove(key).dom()) =~= Set::empty());
            }
        }
        match self.change(model::FORGET, params.as_slice()) {
            Ok(n) => Ok(n > 0),
            Err(e) => Err(e),
        }
    }

    /// Drops every stored decision for `origin`. Returns the number of rows
    /// deleted.
    pub fn forget_origin(&mut self, origin: &str) -> (r: Result<usize, PermError>)
        ensures
            is_origin_forgotten(*old(self), *final(self), origin@, r),
    {
        let params = vec![SqlValue::Text(origin.to_owned())];
        proof {
            model::lemma_changes_differ();
            assert(model::cells(params@) =~= seq![model::Cell::Text(origin@)]);
            let rows = self.rows();
            assert(rows.dom().difference(model::without_origin(rows, origin@).dom())
                =~= model::of_origin(rows, origin@));
        }
        self.change(model::FORGET_ORIGIN, params.as_slice())
    }

    /// Wipes every row. Returns the count.
    pub fn clear(&mut self) -> (r: Result<usize, PermError>)
        ensures
            is_cleared(*old(self), *final(self), r),
    {
        let params: Vec<SqlValue> = Vec::new();
        proof {
            model::lemma_changes_differ();
            assert(model::cells(params@) =~= Seq::<model::Cell>::empty());
            let rows = self.rows();
            assert(rows.dom().difference(Map::<model::Key, model::Entry>::empty().dom())
                =~= rows.dom());
        }
        self.change(model::CLEAR, params.as_slice())
    }

    /// Snapshot of every row, ordered most-recently-set first, then by origin
    /// and capability.
    pub fn all(&mut self) -> (r: Result<Vec<PermissionRow>, PermError>)
        ensures
            is_listed(*old(self), *final(self), r),
    {
        let ghost before = self.conn;
        let listed = sqlite::query_rows(&mut self.conn, model::LIST);
        proof {
            schema::lemma_one_added(
                before,
                self.conn,
                model::Request::Listing { sql: model::LIST@ },
                sqlite::listed(listed),
            );
        }
        match listed {
            Ok(rows) => decode_rows(rows),
            Err(source) => Err(PermError::Query { source }),
        }
    }
}

} // verus!

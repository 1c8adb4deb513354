//! The calls into `rusqlite`.
//!
//! Each function here hands one request to a connection and is believed, not
//! proved, to do what its contract says. Every contract records the request and
//! its reply in the connection's transcript. What a reply says about the rows
//! is claimed only of an *exclusive* connection: one whose database nothing else
//! changes while it is open, and whose two tables, where they exist, are as the
//! scripts in [`crate::model`] declare them, with every value of its column's
//! declared type, text in UTF-8, and no trigger or further constraint on them.

use crate::model;
use crate::model::SqlValue;
use rusqlite::OptionalExtension;
use std::path::PathBuf;
use vstd::prelude::*;

verus! {

/// A connection of `rusqlite`.
#[verifier::external_type_specification]
#[verifier::external_body]
pub struct ExConnection(rusqlite::Connection);

/// A transaction of `rusqlite`.
#[verifier::external_type_specification]
#[verifier::external_body]
pub struct ExTransaction<'conn>(rusqlite::Transaction<'conn>);

/// A file system path.
#[verifier::external_type_specification]
#[verifier::external_body]
pub struct ExPath(PathBuf);

/// What was asked of a connection since it was opened, with the replies.
pub uninterp spec fn transcript(conn: rusqlite::Connection) -> Seq<model::Step>;

/// Whether a connection is exclusive, as the module's description has it.
pub uninterp spec fn exclusive(conn: rusqlite::Connection) -> bool;

/// Whether a connection was opened on this path with these flags.
pub uninterp spec fn opened_on(conn: rusqlite::Connection, path: &PathBuf, flags: i32) -> bool;

/// Whether opening this path with these flags can be refused with this error.
pub uninterp spec fn refused(path: &PathBuf, flags: i32, e: rusqlite::Error) -> bool;

/// Whether opening a database in memory can be refused with this error.
pub uninterp spec fn memory_refused(e: rusqlite::Error) -> bool;

/// The applied migrations that a connection found when it was opened.
pub uninterp spec fn versions_at_open(conn: rusqlite::Connection) -> Set<i64>;

/// The decisions that a connection found when it was opened.
pub uninterp spec fn rows_at_open(conn: rusqlite::Connection) -> Map<model::Key, model::Entry>;

/// The transcript of a transaction's connection, up to now.
pub uninterp spec fn tx_transcript(tx: rusqlite::Transaction<'_>) -> Seq<model::Step>;

/// The transcript that the connection is left with once the transaction is over.
pub uninterp spec fn tx_outcome(tx: rusqlite::Transaction<'_>) -> Seq<model::Step>;

/// The rows of both tables when the connection was opened.
pub open spec fn tables_at_open(conn: rusqlite::Connection) -> model::Tables {
    model::Tables { versions: versions_at_open(conn), permissions: rows_at_open(conn) }
}

/// Whether a connection has a database to itself that held nothing when it was
/// opened.
pub open spec fn private_and_empty(conn: rusqlite::Connection) -> bool {
    &&& exclusive(conn)
    &&& versions_at_open(conn) == Set::<i64>::empty()
    &&& rows_at_open(conn) == Map::<model::Key, model::Entry>::empty()
}

/// How the rows stand, by the connection's transcript.
pub open spec fn progress(conn: rusqlite::Connection) -> model::Progress {
    model::replay(tables_at_open(conn), transcript(conn))
}

/// Whether the rows are the ones that the transcript accounts for.
pub open spec fn accountable(conn: rusqlite::Connection) -> bool {
    exclusive(conn) && progress(conn).certain
}

/// Whether two states are of one connection, apart from what was asked of it.
pub open spec fn same_connection(a: rusqlite::Connection, b: rusqlite::Connection) -> bool {
    &&& exclusive(a) == exclusive(b)
    &&& versions_at_open(a) == versions_at_open(b)
    &&& rows_at_open(a) == rows_at_open(b)
    &&& forall|path: &PathBuf, flags: i32| #[trigger] opened_on(b, path, flags) == opened_on(a, path, flags)
}

/// Whether `b` is `a` after one more step.
pub open spec fn one_more(
    a: rusqlite::Connection,
    b: rusqlite::Connection,
    request: model::Request,
    reply: Result<model::Answer, rusqlite::Error>,
) -> bool {
    &&& same_connection(a, b)
    &&& transcript(b) == transcript(a).push(model::Step { request, reply })
}

/// The reply of a request that has nothing to hand back.
pub open spec fn done(r: Result<(), rusqlite::Error>) -> Result<model::Answer, rusqlite::Error> {
    match r {
        Ok(_) => Ok(model::Answer::Done),
        Err(e) => Err(e),
    }
}

/// The reply of a request that changes rows.
pub open spec fn counted(r: Result<usize, rusqlite::Error>) -> Result<model::Answer, rusqlite::Error> {
    match r {
        Ok(n) => Ok(model::Answer::Count(n)),
        Err(e) => Err(e),
    }
}

/// The reply of a request for a number.
pub open spec fn numbered(r: Result<i64, rusqlite::Error>) -> Result<model::Answer, rusqlite::Error> {
    match r {
        Ok(n) => Ok(model::Answer::Number(n)),
        Err(e) => Err(e),
    }
}

/// The reply of a request for a text.
pub open spec fn found(r: Result<Option<String>, rusqlite::Error>) -> Result<
    model::Answer,
    rusqlite::Error,
> {
    match r {
        Ok(Some(s)) => Ok(model::Answer::Text(Some(s@))),
        Ok(None) => Ok(model::Answer::Text(None)),
        Err(e) => Err(e),
    }
}

/// A row as it comes out of the database: origin, capability, decision, time.
pub type RawRow = (String, String, String, i64);

/// Rows as the model sees them.
pub open spec fn stored(rows: Seq<RawRow>) -> Seq<model::StoredRow> {
    rows.map_values(
        |r: RawRow|
            model::StoredRow { origin: r.0@, capability: r.1@, decision: r.2@, set_at: r.3 },
    )
}

/// The reply of a request for every row.
pub open spec fn listed(r: Result<Vec<RawRow>, rusqlite::Error>) -> Result<
    model::Answer,
    rusqlite::Error,
> {
    match r {
        Ok(rows) => Ok(model::Answer::Rows(stored(rows@))),
        Err(e) => Err(e),
    }
}

/// `rusqlite::Connection::open_with_flags`. Nothing is promised of what the
/// file holds or who else has it open, only that what it holds is finite and
/// that nothing was asked of the new connection yet. An error is one that this
/// path and these flags were refused with.
#[verifier::external_body]
pub(crate) fn open_file(path: &PathBuf, flags: i32) -> (r: Result<rusqlite::Connection, rusqlite::Error>)
    ensures
        match r {
            Ok(conn) => {
                &&& opened_on(conn, path, flags)
                &&& transcript(conn) == Seq::<model::Step>::empty()
                &&& rows_at_open(conn).dom().finite()
            },
            Err(e) => refused(path, flags, e),
        },
{
    rusqlite::Connection::open_with_flags(path, rusqlite::OpenFlags::from_bits_retain(flags))
}

/// `rusqlite::Connection::open_in_memory`. The new database is empty, and no
/// other connection can reach it. An error is one that it was refused with.
#[verifier::external_body]
pub(crate) fn open_memory() -> (r: Result<rusqlite::Connection, rusqlite::Error>)
    ensures
        match r {
            Ok(conn) => {
                &&& exclusive(conn)
                &&& transcript(conn) == Seq::<model::Step>::empty()
                &&& versions_at_open(conn) == Set::<i64>::empty()
                &&& rows_at_open(conn) == Map::<model::Key, model::Entry>::empty()
            },
            Err(e) => memory_refused(e),
        },
{
    rusqlite::Connection::open_in_memory()
}

/// `rusqlite::Connection::pragma_update`, without a schema name. The settings
/// touch no row.
#[verifier::external_body]
pub(crate) fn set_pragma(conn: &mut rusqlite::Connection, name: &str, value: &str) -> (r: Result<
    (),
    rusqlite::Error,
>)
    requires
        model::known_setting(name@, value@),
    ensures
        one_more(
            *old(conn),
            *final(conn),
            model::Request::Setting { name: name@, value: value@ },
            done(r),
        ),
{
    conn.pragma_update(None, name, value)
}

/// `rusqlite::Connection::execute_batch`. The scripts create what is missing
/// and touch no row.
#[verifier::external_body]
pub(crate) fn run_script(conn: &mut rusqlite::Connection, sql: &str) -> (r: Result<(), rusqlite::Error>)
    requires
        model::known_script(sql@),
    ensures
        one_more(*old(conn), *final(conn), model::Request::Script { sql: sql@ }, done(r)),
{
    conn.execute_batch(sql)
}

/// `rusqlite::Connection::execute`. On an exclusive connection a statement that
/// succeeds does to the rows what [`model::after_change`] says, one that fails
/// does nothing, and the count is the number of rows that were inserted, updated
/// or deleted, cut to a `usize`.
#[verifier::external_body]
pub(crate) fn run_change(conn: &mut rusqlite::Connection, sql: &str, params: &[SqlValue]) -> (r: Result<
    usize,
    rusqlite::Error,
>)
    requires
        model::known_change(sql@, model::cells(params@)),
    ensures
        one_more(
            *old(conn),
            *final(conn),
            model::Request::Change { sql: sql@, params: model::cells(params@) },
            counted(r),
        ),
        accountable(*old(conn)) ==> {
            let rows = model::rows_changed(progress(*old(conn)).tables, sql@, model::cells(params@));
            r matches Ok(n) ==> n == rows as usize
        },
{
    conn.execute(sql, rusqlite::params_from_iter(params.iter().map(|p| match p {
        SqlValue::Text(s) => rusqlite::types::Value::Text(s.clone()),
        SqlValue::Integer(n) => rusqlite::types::Value::Integer(*n),
    })))
}

/// `rusqlite::Connection::query_row` for a number. On an exclusive connection
/// it is the newest applied migration.
#[verifier::external_body]
pub(crate) fn query_number(conn: &mut rusqlite::Connection, sql: &str) -> (r: Result<
    i64,
    rusqlite::Error,
>)
    requires
        sql@ == model::NEWEST_VERSION@,
    ensures
        one_more(*old(conn), *final(conn), model::Request::Number { sql: sql@ }, numbered(r)),
        accountable(*old(conn)) ==> (r matches Ok(n) ==> model::is_newest(
            n,
            progress(*old(conn)).tables.versions,
        )),
{
    conn.query_row(sql, [], |row| row.get(0))
}

/// `rusqlite::Connection::query_row` for a text, with
/// `rusqlite::OptionalExtension::optional` on its result. On an exclusive
/// connection it finds the decision stored for the origin and the capability,
/// and finds none exactly where none is stored.
#[verifier::external_body]
pub(crate) fn query_text(conn: &mut rusqlite::Connection, sql: &str, origin: &str, capability: &str) -> (r:
    Result<Option<String>, rusqlite::Error>)
    requires
        sql@ == model::FIND@,
    ensures
        one_more(
            *old(conn),
            *final(conn),
            model::Request::Lookup {
                sql: sql@,
                params: seq![model::Cell::Text(origin@), model::Cell::Text(capability@)],
            },
            found(r),
        ),
        accountable(*old(conn)) ==> {
            let rows = progress(*old(conn)).tables.permissions;
            let key = (origin@, capability@);
            match r {
                Ok(Some(s)) => rows.contains_key(key) && rows[key].0 == s@,
                Ok(None) => !rows.contains_key(key),
                Err(_) => true,
            }
        },
{
    conn.query_row(sql, (origin, capability), |row| row.get(0)).optional()
}

/// `rusqlite::Connection::prepare`, then `rusqlite::Statement::query_map` with
/// every row collected. On an exclusive connection these are the rows of the
/// table, each once, in the order that the statement asks for.
#[verifier::external_body]
pub(crate) fn query_rows(conn: &mut rusqlite::Connection, sql: &str) -> (r: Result<
    Vec<RawRow>,
    rusqlite::Error,
>)
    requires
        sql@ == model::LIST@,
    ensures
        one_more(*old(conn), *final(conn), model::Request::Listing { sql: sql@ }, listed(r)),
        accountable(*old(conn)) ==> (r matches Ok(rows) ==> model::is_listing(
            stored(rows@),
            progress(*old(conn)).tables.permissions,
        )),
{
    conn.prepare(sql)?
        .query_map([], |row| Ok((row.get(0)?, row.get(1)?, row.get(2)?, row.get(3)?)))?
        .collect()
}

/// `rusqlite::Connection::transaction`. The connection is lent to the
/// transaction; what it is left with is the transaction's outcome.
#[verifier::external_body]
pub(crate) fn begin(conn: &mut rusqlite::Connection) -> (r: Result<
    rusqlite::Transaction<'_>,
    rusqlite::Error,
>)
    ensures
        same_connection(*old(conn), *final(conn)),
        match r {
            Ok(tx) => {
                &&& tx_transcript(tx) == transcript(*old(conn)).push(
                    model::Step { request: model::Request::Begin, reply: Ok(model::Answer::Done) },
                )
                &&& transcript(*final(conn)) == tx_outcome(tx)
            },
            Err(e) => transcript(*final(conn)) == transcript(*old(conn)).push(
                model::Step { request: model::Request::Begin, reply: Err(e) },
            ),
        },
{
    conn.transaction()
}

/// Whether the latest request within a transaction succeeded.
pub open spec fn going_well(steps: Seq<model::Step>) -> bool {
    steps.len() > 0 && steps.last().reply is Ok
}

/// `rusqlite::Connection::execute_batch`, reached through a transaction. After a
/// failure SQLite may have ended the transaction, so none may have come before.
#[verifier::external_body]
pub(crate) fn tx_run_script(tx: &mut rusqlite::Transaction<'_>, sql: &str) -> (r: Result<
    (),
    rusqlite::Error,
>)
    requires
        model::known_script(sql@),
        going_well(tx_transcript(*old(tx))),
    ensures
        tx_transcript(*final(tx)) == tx_transcript(*old(tx)).push(
            model::Step { request: model::Request::Script { sql: sql@ }, reply: done(r) },
        ),
        tx_outcome(*final(tx)) == tx_outcome(*old(tx)),
{
    tx.execute_batch(sql)
}

/// `rusqlite::Connection::execute`, reached through a transaction, with one
/// number to bind. As for a script, no failure may have come before.
#[verifier::external_body]
pub(crate) fn tx_run_change(tx: &mut rusqlite::Transaction<'_>, sql: &str, number: i64) -> (r: Result<
    usize,
    rusqlite::Error,
>)
    requires
        model::known_change(sql@, seq![model::Cell::Integer(number)]),
        going_well(tx_transcript(*old(tx))),
    ensures
        tx_transcript(*final(tx)) == tx_transcript(*old(tx)).push(
            model::Step {
                request: model::Request::Change {
                    sql: sql@,
                    params: seq![model::Cell::Integer(number)],
                },
                reply: counted(r),
            },
        ),
        tx_outcome(*final(tx)) == tx_outcome(*old(tx)),
{
    tx.execute(sql, [number])
}

/// `rusqlite::Transaction::commit`. Where it succeeds the rows stay as the
/// transaction left them. Where it fails the transaction is dropped, which undoes
/// it; whether that succeeded is not reported.
#[verifier::external_body]
pub(crate) fn commit(tx: rusqlite::Transaction<'_>) -> (r: Result<(), rusqlite::Error>)
    requires
        going_well(tx_transcript(tx)),
    ensures
        match r {
            Ok(_) => tx_outcome(tx) == tx_transcript(tx).push(
                model::Step { request: model::Request::Commit, reply: Ok(model::Answer::Done) },
            ),
            Err(e) => exists|undone: Result<(), rusqlite::Error>|
                tx_outcome(tx) == tx_transcript(tx).push(
                    model::Step { request: model::Request::Commit, reply: Err(e) },
                ).push(model::Step { request: model::Request::Rollback, reply: #[trigger] done(undone) }),
        },
{
    tx.commit()
}

/// `rusqlite::Transaction::finish`, which does to a transaction that was not
/// committed what dropping it does: it undoes it. Where it succeeds the rows
/// are those from before the transaction; where it fails nothing is claimed of
/// them.
#[verifier::external_body]
pub(crate) fn roll_back(tx: rusqlite::Transaction<'_>) -> (r: Result<(), rusqlite::Error>)
    ensures
        tx_outcome(tx) == tx_transcript(tx).push(
            model::Step { request: model::Request::Rollback, reply: done(r) },
        ),
{
    tx.finish()
}

} // verus!

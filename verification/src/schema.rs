//! SQLite schema and forward-only migrations for [`crate::Permissions`].
//!
//! A `schema_version` table holds one row per applied migration, monotonically
//! increasing. Append new migrations to [`migrations`]; never rewrite an old
//! entry.

use crate::error::PermError;
use crate::model;
use crate::sqlite;
use vstd::prelude::*;

verus! {

/// Forward-only migrations. Index `i` here corresponds to schema version
/// `i + 1`.
pub open spec fn scripts() -> Seq<Seq<char>> {
    seq![model::CREATE_PERMISSIONS@]
}

/// The newest version there is a migration to.
pub open spec fn latest() -> int {
    scripts().len() as int
}

/// What is asked of a connection, in order.
pub open spec fn requests(steps: Seq<model::Step>) -> Seq<model::Request> {
    steps.map_values(|s: model::Step| s.request)
}

/// Whether every request succeeded.
pub open spec fn all_ok(steps: Seq<model::Step>) -> bool {
    forall|i: int| 0 <= i < steps.len() ==> (#[trigger] steps[i]).reply is Ok
}

/// The steps that took a connection from `a` to `b`.
pub open spec fn added(a: rusqlite::Connection, b: rusqlite::Connection) -> Seq<model::Step> {
    sqlite::transcript(b).skip(sqlite::transcript(a).len() as int)
}

/// Whether `b` is the connection `a` after further steps.
pub open spec fn continues(a: rusqlite::Connection, b: rusqlite::Connection) -> bool {
    &&& sqlite::same_connection(a, b)
    &&& sqlite::transcript(a).is_prefix_of(sqlite::transcript(b))
}

/// What applying one migration asks for: its script and the note that it was
/// applied, in one transaction.
pub open spec fn migration_plan(sql: Seq<char>, version: i64) -> Seq<model::Request> {
    seq![
        model::Request::Begin,
        model::Request::Script { sql },
        model::Request::Change {
            sql: model::NOTE_VERSION@,
            params: seq![model::Cell::Integer(version)],
        },
        model::Request::Commit,
    ]
}

/// Whether `steps` are an attempt at `plan` that broke off when its request
/// number `k` failed with `e`, and was undone if its transaction had begun.
pub open spec fn broke_off(
    steps: Seq<model::Step>,
    plan: Seq<model::Request>,
    k: int,
    e: rusqlite::Error,
) -> bool {
    let undone = !(plan[k] is Begin);
    &&& 0 <= k < plan.len()
    &&& steps.len() == k + (if undone { 2int } else { 1int })
    &&& requests(steps).take(k + 1) == plan.take(k + 1)
    &&& all_ok(steps.take(k))
    &&& steps[k].reply == Err::<model::Answer, rusqlite::Error>(e)
    &&& undone ==> steps[k + 1].request is Rollback
}

/// Whether `steps` are what applying one migration asks for, with outcome `r`.
pub open spec fn is_migration(
    steps: Seq<model::Step>,
    sql: Seq<char>,
    version: i64,
    r: Result<(), rusqlite::Error>,
) -> bool {
    let plan = migration_plan(sql, version);
    match r {
        Ok(_) => requests(steps) == plan && all_ok(steps),
        Err(e) => exists|k: int| #[trigger] broke_off(steps, plan, k, e),
    }
}

/// `progress` with one more migration noted.
pub open spec fn with_version(progress: model::Progress, version: i64) -> model::Progress {
    model::Progress {
        tables: model::Tables {
            versions: progress.tables.versions.insert(version),
            ..progress.tables
        },
        ..progress
    }
}

/// What a transcript gains by `steps` is `steps`.
proof fn lemma_gain(before: Seq<model::Step>, steps: Seq<model::Step>)
    ensures
        before.is_prefix_of(before + steps),
        (before + steps).skip(before.len() as int) == steps,
{
    assert((before + steps).skip(before.len() as int) =~= steps);
}

/// A migration that broke off at its request number `k` left `steps`.
proof fn lemma_broke_off(
    before: Seq<model::Step>,
    steps: Seq<model::Step>,
    sql: Seq<char>,
    version: i64,
    k: int,
    e: rusqlite::Error,
)
    requires
        broke_off(steps, migration_plan(sql, version), k, e),
    ensures
        before.is_prefix_of(before + steps),
        is_migration((before + steps).skip(before.len() as int), sql, version, Err(e)),
{
    lemma_gain(before, steps);
    let r: Result<(), rusqlite::Error> = Err(e);
    assert(broke_off(steps, migration_plan(sql, version), k, r->Err_0));
}

/// Applies one migration in a transaction of its own.
fn migrate(conn: &mut rusqlite::Connection, sql: &str, version: i64) -> (r: Result<(), rusqlite::Error>)
    requires
        model::known_script(sql@),
    ensures
        continues(*old(conn), *final(conn)),
        is_migration(added(*old(conn), *final(conn)), sql@, version, r),
        sqlite::progress(*old(conn)).fallback is None ==> match r {
            Ok(_) => sqlite::progress(*final(conn)) == with_version(
                sqlite::progress(*old(conn)),
                version,
            ),
            Err(_) => sqlite::progress(*final(conn)).certain ==> sqlite::progress(*final(conn))
                == sqlite::progress(*old(conn)),
        },
{
    let ghost start = sqlite::tables_at_open(*conn);
    let ghost t0 = sqlite::transcript(*conn);
    let ghost plan = migration_plan(sql@, version);
    let begun = sqlite::begin(conn);
    let mut tx = match begun {
        Ok(tx) => tx,
        Err(e) => {
            proof {
                let s0 = model::Step { request: model::Request::Begin, reply: Err(e) };
                assert(t0.push(s0) =~= t0 + seq![s0]);
                assert(requests(seq![s0]).take(1) =~= plan.take(1));
                lemma_broke_off(t0, seq![s0], sql@, version, 0, e);
                model::lemma_replay_push(start, t0, s0);
            }
            return Err(e);
        },
    };
    let ghost s0 = model::Step { request: model::Request::Begin, reply: Ok(model::Answer::Done) };
    let ghost t1 = t0.push(s0);
    proof {
        model::lemma_replay_push(start, t0, s0);
    }
    let ran = sqlite::tx_run_script(&mut tx, sql);
    let ghost s1 = model::Step {
        request: model::Request::Script { sql: sql@ },
        reply: sqlite::done(ran),
    };
    let ghost t2 = t1.push(s1);
    proof {
        model::lemma_replay_push(start, t1, s1);
    }
    match ran {
        Ok(_) => {},
        Err(e) => {
            let undone = sqlite::roll_back(tx);
            proof {
                let s2 = model::Step {
                    request: model::Request::Rollback,
                    reply: sqlite::done(undone),
                };
                assert(t2.push(s2) =~= t0 + seq![s0, s1, s2]);
                assert(requests(seq![s0, s1, s2]).take(2) =~= plan.take(2));
                lemma_broke_off(t0, seq![s0, s1, s2], sql@, version, 1, e);
                model::lemma_replay_push(start, t2, s2);
            }
            return Err(e);
        },
    }
    let noted = sqlite::tx_run_change(&mut tx, model::NOTE_VERSION, version);
    let ghost s2 = model::Step {
        request: model::Request::Change {
            sql: model::NOTE_VERSION@,
            params: seq![model::Cell::Integer(version)],
        },
        reply: sqlite::counted(noted),
    };
    let ghost t3 = t2.push(s2);
    proof {
        model::lemma_replay_push(start, t2, s2);
    }
    match noted {
        Ok(_) => {},
        Err(e) => {
            let undone = sqlite::roll_back(tx);
            proof {
                let s3 = model::Step {
                    request: model::Request::Rollback,
                    reply: sqlite::done(undone),
                };
                assert(t3.push(s3) =~= t0 + seq![s0, s1, s2, s3]);
                assert(requests(seq![s0, s1, s2, s3]).take(3) =~= plan.take(3));
                lemma_broke_off(t0, seq![s0, s1, s2, s3], sql@, version, 2, e);
                model::lemma_replay_push(start, t3, s3);
            }
            return Err(e);
        },
    }
    let kept = sqlite::commit(tx);
    proof {
        let reply = sqlite::done(kept);
        let s3 = model::Step { request: model::Request::Commit, reply };
        model::lemma_replay_push(start, t3, s3);
        if kept is Err {
            let undone = choose|undone: Result<(), rusqlite::Error>|
                sqlite::tx_outcome(tx) == t3.push(s3).push(
                    model::Step {
                        request: model::Request::Rollback,
                        reply: #[trigger] sqlite::done(undone),
                    },
                );
            let s4 = model::Step { request: model::Request::Rollback, reply: sqlite::done(undone) };
            let steps = seq![s0, s1, s2, s3, s4];
            assert(t3.push(s3).push(s4) =~= t0 + steps);
            assert(requests(steps).take(4) =~= plan.take(4));
            lemma_broke_off(t0, steps, sql@, version, 3, kept->Err_0);
            model::lemma_replay_push(start, t3.push(s3), s4);
        } else {
            let steps = seq![s0, s1, s2, s3];
            assert(t3.push(s3) =~= t0 + steps);
            assert(requests(steps) =~= plan);
            lemma_gain(t0, steps);
        }
    }
    kept
}

/// What the migrations up to version `n` ask for, on a database whose newest
/// applied migration is `current`: those it has not seen, oldest first.
pub open spec fn pending_plan(current: i64, n: nat) -> Seq<model::Request>
    decreases n,
{
    if n == 0 {
        seq![]
    } else if n <= current {
        pending_plan(current, (n - 1) as nat)
    } else {
        pending_plan(current, (n - 1) as nat) + migration_plan(scripts()[n - 1], n as i64)
    }
}

/// What bringing a database up to version `n` asks for.
pub open spec fn schema_plan(current: i64, n: nat) -> Seq<model::Request> {
    seq![
        model::Request::Script { sql: model::CREATE_VERSIONS@ },
        model::Request::Number { sql: model::NEWEST_VERSION@ },
    ] + pending_plan(current, n)
}

/// The newest applied migration, as the reply to the second step has it.
pub open spec fn current_version(steps: Seq<model::Step>) -> i64 {
    steps[1].reply->Ok_0->Number_0
}

/// Whether the reply to the second step is that `current` is the newest applied
/// migration.
pub open spec fn reports_version(steps: Seq<model::Step>, current: i64) -> bool {
    steps[1].reply == Ok::<model::Answer, rusqlite::Error>(model::Answer::Number(current))
}

/// Whether `steps` are what bringing a database up to date asks for, with
/// outcome `r`.
pub open spec fn is_upgrade(steps: Seq<model::Step>, r: Result<(), PermError>) -> bool {
    let current = current_version(steps);
    match r {
        Ok(_) => {
            &&& reports_version(steps, current)
            &&& requests(steps) == schema_plan(current, scripts().len())
            &&& all_ok(steps)
        },
        Err(PermError::Migrate { source, version }) => if version == 0 {
            ||| stopped(steps, schema_plan(0, 0), 0, source)
            ||| stopped(steps, schema_plan(0, 0), 1, source)
        } else {
            let done = schema_plan(current, (version - 1) as nat);
            &&& reports_version(steps, current)
            &&& current < version
            &&& 0 < version <= scripts().len()
            &&& done.len() <= steps.len()
            &&& requests(steps.take(done.len() as int)) == done
            &&& all_ok(steps.take(done.len() as int))
            &&& is_migration(
                steps.skip(done.len() as int),
                scripts()[version - 1],
                version,
                Err(source),
            )
        },
        Err(_) => false,
    }
}

/// Whether `steps` are the start of `plan`, up to its request number `k`, which
/// failed with `e`.
pub open spec fn stopped(
    steps: Seq<model::Step>,
    plan: Seq<model::Request>,
    k: int,
    e: rusqlite::Error,
) -> bool {
    &&& 0 <= k < plan.len()
    &&& steps.len() == k + 1
    &&& requests(steps) == plan.take(k + 1)
    &&& all_ok(steps.take(k))
    &&& steps[k].reply == Err::<model::Answer, rusqlite::Error>(e)
}

/// `progress` once every migration after `current` and up to `n` is noted.
pub open spec fn with_versions(progress: model::Progress, current: i64, n: int) -> model::Progress {
    model::Progress {
        tables: model::Tables {
            versions: progress.tables.versions.union(Set::new(|v: i64| current < v <= n && 0 < v)),
            ..progress.tables
        },
        ..progress
    }
}

/// Whether the newest applied migration could be asked for.
pub open spec fn knows_current(steps: Seq<model::Step>) -> bool {
    steps.len() >= 2 && steps[1].reply is Ok
}

/// What bringing a database up to date does to its rows: it notes the
/// migrations that it applied. One that failed leaves nothing behind, unless it
/// could not be undone.
pub open spec fn upgrades(
    before: model::Progress,
    after: model::Progress,
    current: i64,
    r: Result<(), PermError>,
) -> bool {
    match r {
        Ok(_) => after == with_versions(before, current, latest()),
        Err(PermError::Migrate { source, version }) => after.certain ==> after == (if version == 0 {
            before
        } else {
            with_versions(before, current, version - 1)
        }),
        Err(_) => false,
    }
}

/// The migrations, oldest first.
fn migrations() -> (r: Vec<&'static str>)
    ensures
        r@.len() == scripts().len(),
        forall|i: int| 0 <= i < r@.len() ==> (#[trigger] r@[i])@ == scripts()[i],
{
    vec![model::CREATE_PERMISSIONS]
}

/// Highest version this crate knows about. Public for diagnostics.
pub fn latest_version() -> (v: i64)
    ensures
        v == latest(),
        v == 1,
{
    migrations().len() as i64
}

/// Steps in two stretches are the steps of the whole.
pub(crate) proof fn lemma_added_twice(a: rusqlite::Connection, b: rusqlite::Connection, c: rusqlite::Connection)
    requires
        continues(a, b),
        continues(b, c),
    ensures
        continues(a, c),
        added(a, c) == added(a, b) + added(b, c),
{
    let (x, y, z) = (sqlite::transcript(a), sqlite::transcript(b), sqlite::transcript(c));
    assert forall|i: int| 0 <= i < x.len() implies x[i] == z[i] by {
        assert(x[i] == y.take(x.len() as int)[i]);
        assert(y[i] == z.take(y.len() as int)[i]);
    }
    assert(x =~= z.take(x.len() as int));
    assert forall|i: int| x.len() <= i < y.len() implies y[i] == z[i] by {
        assert(y[i] == z.take(y.len() as int)[i]);
    }
    assert(added(a, c) =~= added(a, b) + added(b, c));
}

/// One step more is one step added.
pub(crate) proof fn lemma_one_added(
    a: rusqlite::Connection,
    b: rusqlite::Connection,
    request: model::Request,
    reply: Result<model::Answer, rusqlite::Error>,
)
    requires
        sqlite::one_more(a, b, request, reply),
    ensures
        continues(a, b),
        added(a, b) == seq![model::Step { request, reply }],
        sqlite::progress(b) == model::advance(
            sqlite::progress(a),
            model::Step { request, reply },
        ),
{
    let step = model::Step { request, reply };
    let before = sqlite::transcript(a);
    assert(before.push(step) =~= before + seq![step]);
    lemma_gain(before, seq![step]);
    model::lemma_replay_push(sqlite::tables_at_open(a), before, step);
}

/// Runs all pending migrations.
pub(crate) fn apply(conn: &mut rusqlite::Connection) -> (r: Result<(), PermError>)
    ensures
        continues(*old(conn), *final(conn)),
        is_upgrade(added(*old(conn), *final(conn)), r),
        sqlite::progress(*old(conn)).fallback is None ==> upgrades(
            sqlite::progress(*old(conn)),
            sqlite::progress(*final(conn)),
            current_version(added(*old(conn), *final(conn))),
            r,
        ),
        sqlite::accountable(*old(conn)) && knows_current(added(*old(conn), *final(conn)))
            ==> model::is_newest(
            current_version(added(*old(conn), *final(conn))),
            sqlite::progress(*old(conn)).tables.versions,
        ),
{
    let ghost first = *conn;
    let created = sqlite::run_script(conn, model::CREATE_VERSIONS);
    let ghost second = *conn;
    let ghost s0 = model::Step {
        request: model::Request::Script { sql: model::CREATE_VERSIONS@ },
        reply: sqlite::done(created),
    };
    proof {
        lemma_one_added(first, second, s0.request, s0.reply);
        assert(requests(seq![s0]) =~= schema_plan(0, 0).take(1));
    }
    match created {
        Ok(_) => {},
        Err(source) => {
            assert(stopped(seq![s0], schema_plan(0, 0), 0, source));
            return Err(PermError::Migrate { source, version: 0 });
        },
    }
    let newest = sqlite::query_number(conn, model::NEWEST_VERSION);
    let ghost s1 = model::Step {
        request: model::Request::Number { sql: model::NEWEST_VERSION@ },
        reply: sqlite::numbered(newest),
    };
    proof {
        lemma_one_added(second, *conn, s1.request, s1.reply);
        lemma_added_twice(first, second, *conn);
        assert(seq![s0] + seq![s1] =~= seq![s0, s1]);
        assert(requests(seq![s0, s1]) =~= schema_plan(0, 0).take(2));
    }
    let current: i64 = match newest {
        Ok(n) => n,
        Err(source) => {
            assert(stopped(seq![s0, s1], schema_plan(0, 0), 1, source));
            return Err(PermError::Migrate { source, version: 0 });
        },
    };
    let pending = migrations();
    let mut idx: usize = 0;
    proof {
        assert(requests(seq![s0, s1]) =~= schema_plan(current, 0));
        assert(with_versions(sqlite::progress(first), current, 0) =~= sqlite::progress(first));
    }
    while idx < pending.len()
        invariant
            first == *old(conn),
            pending@.len() == scripts().len(),
            forall|i: int| 0 <= i < pending@.len() ==> (#[trigger] pending@[i])@ == scripts()[i],
            idx <= pending.len(),
            continues(first, *conn),
            added(first, *conn).len() >= 2,
            reports_version(added(first, *conn), current),
            requests(added(first, *conn)) == schema_plan(current, idx as nat),
            all_ok(added(first, *conn)),
            sqlite::progress(first).fallback is None ==> sqlite::progress(*conn) == with_versions(
                sqlite::progress(first),
                current,
                idx as int,
            ),
            sqlite::accountable(first) ==> model::is_newest(
                current,
                sqlite::progress(first).tables.versions,
            ),
        decreases pending.len() - idx,
    {
        let version: i64 = idx as i64 + 1;
        let ghost before = *conn;
        let ghost so_far = added(first, before);
        if version > current {
            let outcome = migrate(conn, pending[idx], version);
            let ghost steps = added(before, *conn);
            proof {
                lemma_added_twice(first, before, *conn);
                assert((so_far + steps).take(so_far.len() as int) =~= so_far);
                assert((so_far + steps).skip(so_far.len() as int) =~= steps);
                assert(requests(so_far + steps) =~= requests(so_far) + requests(steps));
                assert(schema_plan(current, (idx + 1) as nat) =~= schema_plan(current, idx as nat)
                    + migration_plan(scripts()[idx as int], version));
                assert(with_versions(sqlite::progress(first), current, idx + 1) =~= with_version(
                    with_versions(sqlite::progress(first), current, idx as int),
                    version,
                ));
            }
            match outcome {
                Ok(_) => {},
                Err(source) => {
                    return Err(PermError::Migrate { source, version });
                },
            }
        } else {
            assert(with_versions(sqlite::progress(first), current, idx + 1) =~= with_versions(
                sqlite::progress(first),
                current,
                idx as int,
            ));
        }
        idx += 1;
    }
    Ok(())
}

} // verus!

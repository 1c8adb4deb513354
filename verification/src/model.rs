//! The statements the store runs, and what each of them means.
//!
//! A database is modelled by the rows of its two tables. A connection is
//! modelled by the rows it was opened on and by its transcript: every request
//! made of it, with the reply. Replaying the transcript gives the rows as they
//! stand.

use vstd::prelude::*;

verus! {

/// Creates the table of applied migrations.
pub const CREATE_VERSIONS: &'static str = "CREATE TABLE IF NOT EXISTS schema_version (version INTEGER PRIMARY KEY);";

/// The newest applied migration, 0 where there is none.
pub const NEWEST_VERSION: &'static str = "SELECT COALESCE(MAX(version), 0) FROM schema_version";

/// Notes a migration as applied.
pub const NOTE_VERSION: &'static str = "INSERT INTO schema_version(version) VALUES (?1)";

/// Creates the table of decisions. One row per (origin, capability); `decision`
/// is `allow` or `deny`; `set_at` is unix-epoch seconds.
pub const CREATE_PERMISSIONS: &'static str = "
    CREATE TABLE IF NOT EXISTS permissions (
      origin     TEXT NOT NULL,
      capability TEXT NOT NULL,
      decision   TEXT NOT NULL,
      set_at     INTEGER NOT NULL,
      PRIMARY KEY (origin, capability)
    );
    CREATE INDEX IF NOT EXISTS idx_permissions_set_at
      ON permissions(set_at DESC);
    ";

/// Looks up the decision for an origin and a capability.
pub const FIND: &'static str = "SELECT decision FROM permissions WHERE origin = ?1 AND capability = ?2";

/// Inserts a decision, or replaces the one that is there.
pub const RECORD: &'static str = "INSERT INTO permissions (origin, capability, decision, set_at) VALUES (?1, ?2, ?3, ?4) ON CONFLICT(origin, capability) DO UPDATE SET decision = excluded.decision, set_at = excluded.set_at";

/// Deletes the decision for an origin and a capability.
pub const FORGET: &'static str = "DELETE FROM permissions WHERE origin = ?1 AND capability = ?2";

/// Deletes every decision for an origin.
pub const FORGET_ORIGIN: &'static str = "DELETE FROM permissions WHERE origin = ?1";

/// Deletes every decision.
pub const CLEAR: &'static str = "DELETE FROM permissions";

/// Every row, the most recently set first.
pub const LIST: &'static str = "SELECT origin, capability, decision, set_at FROM permissions ORDER BY set_at DESC, origin ASC, capability ASC";

/// A value bound to a parameter of a statement.
pub enum SqlValue {
    Text(String),
    Integer(i64),
}

/// A [`SqlValue`] as the model sees it.
pub enum Cell {
    Text(Seq<char>),
    Integer(i64),
}

impl View for SqlValue {
    type V = Cell;

    open spec fn view(&self) -> Cell {
        match self {
            SqlValue::Text(s) => Cell::Text(s@),
            SqlValue::Integer(n) => Cell::Integer(*n),
        }
    }
}

/// A list of parameters as the model sees it.
pub open spec fn cells(params: Seq<SqlValue>) -> Seq<Cell> {
    params.map_values(|p: SqlValue| p@)
}

/// The primary key of the `permissions` table: origin, then capability key.
pub type Key = (Seq<char>, Seq<char>);

/// The other two columns: the decision's text, then the time it was set.
pub type Entry = (Seq<char>, i64);

/// The rows of both tables. A table that does not exist counts as empty.
#[verifier::ext_equal]
pub struct Tables {
    pub versions: Set<i64>,
    pub permissions: Map<Key, Entry>,
}

/// A row of the `permissions` table.
pub struct StoredRow {
    pub origin: Seq<char>,
    pub capability: Seq<char>,
    pub decision: Seq<char>,
    pub set_at: i64,
}

impl StoredRow {
    pub open spec fn key(self) -> Key {
        (self.origin, self.capability)
    }

    pub open spec fn entry(self) -> Entry {
        (self.decision, self.set_at)
    }
}

/// Something asked of a connection.
pub enum Request {
    /// Give a setting of the connection a value.
    Setting { name: Seq<char>, value: Seq<char> },
    /// Run a script.
    Script { sql: Seq<char> },
    /// Run one statement that changes rows.
    Change { sql: Seq<char>, params: Seq<Cell> },
    /// Ask for the text in the first column of the first row found.
    Lookup { sql: Seq<char>, params: Seq<Cell> },
    /// Ask for the number in the first column of the first row.
    Number { sql: Seq<char> },
    /// Ask for every row.
    Listing { sql: Seq<char> },
    /// Start a transaction.
    Begin,
    /// End the transaction and keep what it did.
    Commit,
    /// End the transaction and undo what it did.
    Rollback,
}

/// What came back.
pub enum Answer {
    Done,
    Count(usize),
    Text(Option<Seq<char>>),
    Number(i64),
    Rows(Seq<StoredRow>),
}

/// One request with its reply.
pub struct Step {
    pub request: Request,
    pub reply: Result<Answer, rusqlite::Error>,
}

/// The statements that change rows, each with parameters of the right kinds.
pub open spec fn known_change(sql: Seq<char>, params: Seq<Cell>) -> bool {
    ||| sql == NOTE_VERSION@ && params.len() == 1 && params[0] is Integer
    ||| sql == RECORD@ && params.len() == 4 && params[0] is Text && params[1] is Text && params[2] is Text
        && params[3] is Integer
    ||| sql == FORGET@ && params.len() == 2 && params[0] is Text && params[1] is Text
    ||| sql == FORGET_ORIGIN@ && params.len() == 1 && params[0] is Text
    ||| sql == CLEAR@ && params.len() == 0
}

/// The scripts. They create what is missing and leave every row as it was.
pub open spec fn known_script(sql: Seq<char>) -> bool {
    sql == CREATE_VERSIONS@ || sql == CREATE_PERMISSIONS@
}

/// The settings. None of them touches a row.
pub open spec fn known_setting(name: Seq<char>, value: Seq<char>) -> bool {
    ||| name == "journal_mode"@ && value == "WAL"@
    ||| name == "synchronous"@ && value == "NORMAL"@
    ||| name == "foreign_keys"@ && value == "ON"@
}

/// `rows` without any decision for `origin`.
pub open spec fn without_origin(rows: Map<Key, Entry>, origin: Seq<char>) -> Map<Key, Entry> {
    rows.remove_keys(of_origin(rows, origin))
}

/// The keys in `rows` that belong to `origin`.
pub open spec fn of_origin(rows: Map<Key, Entry>, origin: Seq<char>) -> Set<Key> {
    rows.dom().filter(|k: Key| k.0 == origin)
}

/// The tables after a statement that changes rows.
pub open spec fn after_change(t: Tables, sql: Seq<char>, params: Seq<Cell>) -> Tables {
    if sql == NOTE_VERSION@ {
        Tables { versions: t.versions.insert(params[0]->Integer_0), ..t }
    } else if sql == RECORD@ {
        Tables {
            permissions: t.permissions.insert(
                (params[0]->Text_0, params[1]->Text_0),
                (params[2]->Text_0, params[3]->Integer_0),
            ),
            ..t
        }
    } else if sql == FORGET@ {
        Tables { permissions: t.permissions.remove((params[0]->Text_0, params[1]->Text_0)), ..t }
    } else if sql == FORGET_ORIGIN@ {
        Tables { permissions: without_origin(t.permissions, params[0]->Text_0), ..t }
    } else if sql == CLEAR@ {
        Tables { permissions: Map::empty(), ..t }
    } else {
        t
    }
}

/// How many rows a statement inserts, updates or deletes.
pub open spec fn rows_changed(t: Tables, sql: Seq<char>, params: Seq<Cell>) -> nat {
    if sql == NOTE_VERSION@ || sql == RECORD@ {
        1
    } else {
        t.permissions.dom().difference(after_change(t, sql, params).permissions.dom()).len()
    }
}

/// Whether `n` is the largest of `versions`, or 0 where there is none.
pub open spec fn is_newest(n: i64, versions: Set<i64>) -> bool {
    if versions.is_empty() {
        n == 0
    } else {
        versions.contains(n) && forall|v: i64| versions.contains(v) ==> v <= n
    }
}

/// Whether text `a` comes before text `b`, character by character.
pub open spec fn text_before(a: Seq<char>, b: Seq<char>) -> bool {
    exists|n: int|
        {
            &&& 0 <= n <= a.len()
            &&& n < b.len()
            &&& #[trigger] a.take(n) == b.take(n)
            &&& n == a.len() || (a[n] as int) < (b[n] as int)
        }
}

/// Whether row `a` is listed before row `b`: set later, or at the same time
/// for an earlier origin, or for the same origin and an earlier capability.
pub open spec fn listed_before(a: StoredRow, b: StoredRow) -> bool {
    ||| a.set_at > b.set_at
    ||| a.set_at == b.set_at && text_before(a.origin, b.origin)
    ||| a.set_at == b.set_at && a.origin == b.origin && text_before(a.capability, b.capability)
}

/// Whether `list` holds the rows of `table`, each once, in listing order.
pub open spec fn is_listing(list: Seq<StoredRow>, table: Map<Key, Entry>) -> bool {
    &&& forall|i: int, j: int| 0 <= i < j < list.len() ==> listed_before(#[trigger] list[i], #[trigger] list[j])
    &&& forall|i: int|
        0 <= i < list.len() ==> table.contains_key((#[trigger] list[i]).key()) && table[list[i].key()]
            == list[i].entry()
    &&& forall|k: Key| #[trigger]
        table.contains_key(k) ==> exists|i: int| 0 <= i < list.len() && (#[trigger] list[i]).key() == k
}

/// The rows as a transcript leaves them and, inside a transaction, the rows to
/// fall back to. `certain` is lost when a transaction could not be undone: the
/// rows are then not accounted for.
#[verifier::ext_equal]
pub struct Progress {
    pub tables: Tables,
    pub fallback: Option<Tables>,
    pub certain: bool,
}

/// The rows after one more step. A statement that failed changes nothing.
pub open spec fn advance(p: Progress, step: Step) -> Progress {
    match (step.request, step.reply) {
        (Request::Change { sql, params }, Ok(_)) => Progress {
            tables: after_change(p.tables, sql, params),
            ..p
        },
        (Request::Begin, Ok(_)) => Progress { fallback: Some(p.tables), ..p },
        (Request::Commit, Ok(_)) => Progress { fallback: None, ..p },
        (Request::Rollback, Ok(_)) => match p.fallback {
            Some(tables) => Progress { tables, fallback: None, ..p },
            None => p,
        },
        (Request::Rollback, Err(_)) => Progress { certain: false, ..p },
        _ => p,
    }
}

/// The rows after a transcript that started from `start`.
pub open spec fn replay(start: Tables, steps: Seq<Step>) -> Progress
    decreases steps.len(),
{
    if steps.len() == 0 {
        Progress { tables: start, fallback: None, certain: true }
    } else {
        advance(replay(start, steps.drop_last()), steps.last())
    }
}

/// Replaying one step more is advancing by that step.
pub proof fn lemma_replay_push(start: Tables, steps: Seq<Step>, step: Step)
    ensures
        replay(start, steps.push(step)) == advance(replay(start, steps), step),
{
    assert(steps.push(step).drop_last() =~= steps);
}

/// The statements that change rows differ in their texts.
pub proof fn lemma_changes_differ()
    ensures
        NOTE_VERSION@ != RECORD@,
        NOTE_VERSION@ != FORGET@,
        NOTE_VERSION@ != FORGET_ORIGIN@,
        NOTE_VERSION@ != CLEAR@,
        RECORD@ != FORGET@,
        RECORD@ != FORGET_ORIGIN@,
        RECORD@ != CLEAR@,
        FORGET@ != FORGET_ORIGIN@,
        FORGET@ != CLEAR@,
        FORGET_ORIGIN@ != CLEAR@,
{
    reveal_strlit("INSERT INTO schema_version(version) VALUES (?1)");
    reveal_strlit("INSERT INTO permissions (origin, capability, decision, set_at) VALUES (?1, ?2, ?3, ?4) ON CONFLICT(origin, capability) DO UPDATE SET decision = excluded.decision, set_at = excluded.set_at");
    reveal_strlit("DELETE FROM permissions WHERE origin = ?1 AND capability = ?2");
    reveal_strlit("DELETE FROM permissions WHERE origin = ?1");
    reveal_strlit("DELETE FROM permissions");
    assert(NOTE_VERSION@.len() == 47 && RECORD@.len() == 187);
    assert(FORGET@.len() == 61 && FORGET_ORIGIN@.len() == 41 && CLEAR@.len() == 23);
}

} // verus!

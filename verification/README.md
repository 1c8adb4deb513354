# buffr-permissions

A verified, SQLite-backed store of per-origin permission decisions.

A page asks for a capability (camera, microphone, ...), the user answers
"always allow" or "always deny", and the store remembers the answer. An absent
row means "ask the user".

```rust
use buffr_permissions::{Capability, Decision, Permissions};

let mut store = Permissions::open(&path)?;
store.set("https://example.com", Capability::Camera, Decision::Allow)?;
let dec = store.get("https://example.com", Capability::Camera)?; // Some(Allow)
store.forget("https://example.com", Capability::Camera)?;        // true
store.forget_origin("https://example.com")?;                     // count
let rows = store.all()?;
let n = store.clear()?;
```

## Layout

- `src/text.rs`, `src/capability.rs`, `src/decision.rs`: the texts that go into
  the database, and how they are read back.
- `src/model.rs`: the SQL statements and what each does to the rows.
- `src/sqlite.rs`: the calls into `rusqlite`. Their contracts are believed, not
  proved.
- `src/schema.rs`: forward-only migrations.
- `src/store.rs`: the store.
- `src/laws.rs`: what holds across calls, such as that a decision that was set
  is the one that is found.
- `app/`: the same store behind a lock, with `serde` and `std::error::Error` on
  its types.

Every operation takes the store by `&mut`: a connection is modelled by the
transcript of what was asked of it, and each request adds to the transcript.
What the replies say about the rows is claimed of a connection that has its
database to itself. An in-memory store always does. A store on a file does as
long as nothing else writes to the file.

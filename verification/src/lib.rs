//! SQLite-backed per-origin permissions store.
//!
//! # Decision precedence
//!
//! At prompt-time the permission handler walks this precedence:
//!
//! 1. Stored [`Decision::Allow`] for `(origin, capability)`: accept at once.
//! 2. Stored [`Decision::Deny`] for `(origin, capability)`: deny at once.
//! 3. No row: prompt the user.
//!
//! [`Decision`] is intentionally two-valued: there is no "ask every time" state
//! in the store. To reset to "ask", call [`Permissions::forget`] or
//! [`Permissions::forget_origin`].
//!
//! # What is proved
//!
//! [`model`] gives every statement the store runs its meaning on the rows.
//! [`sqlite`] holds the calls into `rusqlite`, whose contracts are believed.
//! [`schema`] and [`store`] are verified against them. [`laws`] states what
//! follows across calls, [`notation`] how capabilities, decisions and times are
//! written down, and [`wire`] what each call asks of the database.

pub mod capability;
pub mod clock;
pub mod decision;
pub mod error;
pub mod laws;
pub mod model;
pub mod notation;
pub mod schema;
pub mod sqlite;
pub mod store;
pub mod text;
pub mod wire;

pub use capability::Capability;
pub use decision::Decision;
pub use error::PermError;
pub use store::{PermissionRow, Permissions};

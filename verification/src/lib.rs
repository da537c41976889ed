//! The parts of the Cmonitor hub that have to be right: who may sign in and how
//! the login policy changes, and how browser terminals are relayed to agents.
//!
//! - `store` holds the two tables, `security` the operations on them,
//!   `login_laws` says what each of these does and `policy` what they promise as
//!   a whole;
//! - `registry` knows the open terminals, `terminal` takes their sessions from
//!   event to action, `frames` are what they send, `limits` how long those get
//!   and `channel` where they go, and `terminal_laws` says what each of these
//!   does;
//! - `json`, `names`, `text` and `token` are what the others are written with.

pub mod channel;
pub mod frames;
pub mod json;
pub mod limits;
pub mod login_laws;
pub mod names;
pub mod policy;
pub mod registry;
pub mod security;
pub mod store;
pub mod terminal;
pub mod terminal_laws;
pub mod text;
pub mod token;

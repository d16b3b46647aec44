//! Correlation of decoded Windows audit records: a process-creation lineage
//! forest and a timeline of logon sessions, with the rules of both stated as
//! contracts.
//!
//! A record comes in as an `AuditRecord`: its instant, the number under
//! which it was stored, and its field tree. `pstree` links the processes of
//! one log to their parents; `session_store` files the session events of any
//! number of logs under their keys; `merging` states what an import does not
//! depend on.

pub mod document;
pub mod event_id;
pub mod event_level;
pub mod event_provider;
pub mod filter;
pub mod format;
pub mod listing;
pub mod merging;
pub mod process;
pub mod pstree;
pub mod record;
pub mod sequence;
pub mod session;
pub mod session_event;
pub mod session_id;
pub mod session_store;
pub mod summary;
pub mod text;
pub mod value;

//! Verified core of a small video-game catalog: the records, the rules that
//! assign their ids, the queries and edits made on the whole collection, the
//! policy for a file that cannot be opened, and the error bodies of the HTTP
//! surface.
//!
//! Nothing here touches the disk or the network. A host loads and decodes the
//! stored collection, hands it to these functions as plain values, and writes
//! back whatever collection they return.

pub mod database;
pub mod error_handlers;
pub mod laws;
pub mod storage;

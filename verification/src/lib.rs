//! Verified core of a terminal viewer for a mobile device's live system log.
//!
//! The library owns the pure logic of the log ingestion engine: parsing raw
//! log lines into structured entries, resolving process ids to package names
//! through a cached request/response protocol, queueing finished entries in
//! strict arrival order, and the small decision rules of the surrounding
//! user interface (key mapping, level colors, column layout). All process
//! and terminal I/O lives outside the library and hands it plain values.

pub mod engine;
pub mod format;
pub mod input;
pub mod parse;
pub mod resolve;
pub mod text;

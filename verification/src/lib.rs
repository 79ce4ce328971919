//! Activity synchronization engine for mirroring development activity
//! (commits, issues) from a privacy-sensitive source forge onto a public
//! forge. The library holds the verified core: activity modelling and
//! deduplication, redaction policy, watermark computation, and the
//! per-repository replay planning. The surrounding binary performs the
//! network and process I/O and feeds plain values in and out.

pub mod activity;
pub mod config;
pub mod engine;
pub mod git;
pub mod redact;
pub mod replay;
pub mod source;
pub mod text;
pub mod time;

//! A log gateway: maps HTTP query parameters onto `journalctl` arguments,
//! filters log lines against an allow-list of regular expressions, and
//! batches unexpected lines into periodic mail digests.
pub mod collector;
pub mod patterns;
pub mod query;
pub mod text;

//! Verified core of a media-import engine.
//!
//! The library organises media files into a date-based target tree:
//! files are classified by extension, deduplicated by content hash,
//! given a canonical destination derived from a resolved capture date,
//! and recorded in per-directory manifests.  All decision logic lives
//! here with contracts; the surrounding process performs the actual
//! filesystem work and feeds its observations back in as plain values.

pub mod engine;
pub mod hashing;
pub mod hexfmt;
pub mod manifest;
pub mod metadata;
pub mod scan;
pub mod strutil;

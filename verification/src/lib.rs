//! A key to blob store whose values live in append-only value files and whose
//! index, the manifest, records only where each value lies.
//!
//! This crate holds the rules of the store: how writes are staged and
//! committed, which files a snapshot has to clone, which byte range a
//! superseded value gives back to the file system, and what a sweep of the
//! snapshot directories may delete. Every rule is a function on plain values
//! with a contract. Opening, locking, cloning and punching files, and talking
//! to the manifest, are left to the caller, who reports each outcome back.

pub mod blocks;
pub mod cleanup;
pub mod convert;
pub mod dir;
pub mod error;
pub mod exclusive_file;
pub mod file_id;
pub mod flock;
pub mod handle;
pub mod names;
pub mod ownedtx;
pub mod prefix;
pub mod punch;
pub mod reader;
pub mod snapshot;
pub mod store;
pub mod sys;
pub mod table;
pub mod timestamp;
pub mod value;
pub mod writer;

//! Reconciliation and fetch engine for mirroring a travel-advice publication
//! into a version-controlled archive.
//!
//! The library decides: which feed entries are new since the archive's last
//! synchronisation, whether to resynchronise everything or replay single
//! entries, how a content unit's pages are laid out on disk, how the
//! synchronisation ledger is written into and recovered from commit
//! messages, and when a failing action is retried.  Everything that talks to
//! the network, the browser session, git or the file system is left to the
//! caller, which hands plain values in and performs the steps handed back.
pub mod error;
pub mod text;
pub mod timestamp;
pub mod feed;
pub mod unit;
pub mod pages;
pub mod ledger;
pub mod summary;
pub mod archive;
pub mod retry;
pub mod engine;
pub mod session;

//! The core of a local-first note store.
//!
//! Large files live on the local disk, addressed by the hash of their
//! content, and a catalog follows what is stored where ([`blobs`],
//! [`catalog`], [`scan`]). Structured records are replicated to a remote
//! relational store: pending changes are translated to the store's schema
//! and types and applied one by one, inserts idempotent or overwriting,
//! updates by last writer wins ([`writes`], [`batch`], with [`annotation`],
//! [`naming`], [`params`], [`rows`], [`sql`]). What holds across calls is
//! stated in [`laws`].
//!
//! Nothing here reads a file or talks to a server. The functions say what
//! to write and what to send, and take what was read and what came back.

pub mod annotation;
pub mod avatars;
pub mod batch;
pub mod blobs;
pub mod catalog;
pub mod ids;
pub mod json;
pub mod laws;
pub mod naming;
pub mod oauth;
pub mod params;
pub mod paths;
pub mod remote;
pub mod rows;
pub mod scan;
pub mod seqs;
pub mod sql;
pub mod text;
pub mod types;
pub mod writes;

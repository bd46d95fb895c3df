//! A verified metadata layer for a remote mutable file namespace.
//!
//! The crate keeps an in-memory mirror of remote node metadata keyed by
//! normalized path strings, and supplies the pure decision logic a
//! filesystem protocol handler needs: open-option checking, directory
//! listing bookkeeping, subtree rename/copy rewrites of the cache,
//! extended-property bookkeeping, and file-handle position arithmetic.
//! All calls to the remote store itself happen outside this crate; their
//! outcomes are handed in as plain values.

pub mod api;
pub mod cache;
pub mod fs;
pub mod strmap;
pub mod strutil;

//! Incremental synchronization of a searchable index of starred repositories.
//!
//! The library holds the decisions of a synchronization pass as verified state
//! machines: pagination with early stop, readme resolution with its fallback
//! chain, batched upserts, reconciliation of stale entries and the bookkeeping
//! of index dates. Whoever drives a machine performs the requests it asks for
//! and hands the answers back.
pub mod model;
mod clock;
pub mod fetch;
pub mod readme;
pub mod index;
pub mod sync;
pub mod config;
pub mod cli;
pub mod web;

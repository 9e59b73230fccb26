//! The core of a least-loaded reverse proxy: the registry of live backends,
//! the reconciler that follows the membership feed, the accounting of
//! in-flight load, and the per-request dispatch decisions.
//!
//! Everything in this crate is sequential and free of I/O. A caller that
//! shares a [`registry::Registry`] between tasks does so behind a lock of its
//! own; every operation here takes the exclusive or shared borrow it needs.

pub mod error;
pub mod model;
pub mod registry;
pub mod accountant;
pub mod membership;
pub mod reconciler;
pub mod request;
pub mod dispatch;

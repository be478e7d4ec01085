//! A client-side distributed lock manager over a set of independent key-value
//! nodes. A lock is held once a majority of the nodes has bound the resource
//! to the caller's random key, and for no longer than the validity window:
//! the time to live less the time that the round took and an allowance for
//! clock drift.
//!
//! The library decides; it sends nothing itself. Locking is an
//! [`engine::Attempt`] and releasing an [`engine::Unlocking`]: each names the
//! next [`engine::Action`], and is advanced with the [`engine::Event`] that
//! came of it, until it is over.
//!
//! - [`types`]: the failure kinds and the answers of a single node.
//! - [`sys`]: the clock and the random keys.
//! - [`quorum`]: majorities among the nodes.
//! - [`window`]: the validity window.
//! - [`engine`]: attempts and releases, step by step.
//! - [`redlock`]: the manager and the handle of a held lock.
//! - [`laws`]: what holds of every run of an attempt and of a release.

pub mod types;
pub mod sys;
pub mod quorum;
pub mod window;
pub mod engine;
pub mod redlock;
pub mod laws;

//! A continuous-integration bridge for patch-based development workflows.
//!
//! The library discovers patch series from an upstream patch tracker, drives
//! them through a durable multi-stage work queue, reproduces each series as a
//! git branch, correlates remote CI results with local work items, and
//! prepares structured verdicts for posting back upstream.

pub mod codec;
pub mod config;
pub mod dispatch;
pub mod gitops;
pub mod patchwork;
pub mod runner;
pub mod store;
pub mod text;
pub mod watcher;

//! Verified core of a multi-tenant catalog tracking scheduler.
//!
//! The library owns the decision logic of the tracker: the job registry that
//! keeps at most one recurring job per tenant, the per-tenant job state
//! machine, the two-pass change detector, notification batching with
//! "part i/n" labels, and the rules for advancing per-subscription
//! `last_notified_at` marks. All I/O (the catalog source, the subscription
//! store, the delivery transport) lives outside and hands this library plain
//! values.

pub mod errors;
pub mod item;
pub mod numbers;
pub mod registry;
pub mod scheduler;
pub mod job;
pub mod gate;
pub mod detector;
pub mod batching;
pub mod dispatch;
pub mod catalog;
pub mod notes;
pub mod autocomplete;
pub mod dates;
pub mod text;
pub mod listing;
pub mod ids;

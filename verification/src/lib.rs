//! A small toolkit of concurrency primitives, stated and verified over an
//! explicit sequential model: a multi-producer single-consumer FIFO channel
//! with per-producer ordering, a lock-protected shared counter with explicit
//! contamination on abnormal release, and an orchestrator that launches units
//! of work, joins them, and aggregates their outcomes.

pub mod channel;
pub mod commands;
pub mod counter;
pub mod generics;
pub mod misc;
pub mod words;
pub mod worker;

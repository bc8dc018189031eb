//! Verified core of a two-topic event-ingestion pipeline.
//!
//! Records arrive from a message broker on two independently subscribed
//! topics.  Records from the default topic carry plain text (possibly a JSON
//! greeting); records from the publish topic carry a binary envelope wrapping
//! a typed inner payload.  Every fully decoded record is persisted into a
//! relational store under bounded retry with fixed backoff, and the whole
//! loop honours a cooperative shutdown flag.
//!
//! This crate holds the decision logic of that pipeline: the wire-format
//! codec, the per-record classification and dispatch rules, the retry
//! policy, and the worker's control decisions.  The broker client, the
//! database driver and the signal handler live outside; they feed plain
//! values in and carry plain values out.

pub mod classify;
pub mod codec;
pub mod config;
pub mod events;
pub mod pipeline;
pub mod retry;
pub mod strings;
pub mod worker;

//! Background job system of a small feed reader: a durable job queue with
//! idempotent enqueue and bounded retries, the feed discovery and ingestion
//! pipeline, favicon discovery, and the run-group supervisor's state machine.
pub mod config;
pub mod feed;
pub mod feed_add;
pub mod feed_store;
pub mod handlers;
pub mod html;
pub mod ids;
pub mod job;
pub mod queue;
pub mod reading;
pub mod run_group;
pub mod runner;
pub mod urls;

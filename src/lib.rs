//! Core of an incremental crawler: a rate-limited paginated API client's
//! decisions, a per-account checkpoint planner, an idempotent ingestion
//! store with a job queue, and the cycle controller that ties them together.

pub mod config;
pub mod cycle;
pub mod db;
pub mod error;
pub mod models;
pub mod planner;
pub mod rate_limit;
pub mod twitter_api;

//! A small multi-user voting backend: items that principals recommend and
//! vote on, the sessions that authenticate them, and a loader that batches
//! the reads of one request.
//!
//! - [`tables`] is the mathematical model of the store, with the laws that
//!   its operations obey;
//! - [`database`] is the storage engine that keeps the tables in memory, and
//!   [`statements`] holds the statements that keep them on disk;
//! - [`loader`] answers the reads of one request in batches;
//! - [`auth`] opens sessions and authenticates requests;
//! - [`schema`] holds the operations that the query layer offers;
//! - [`models`], [`errors`] and [`ids`] hold the entities, the failures and
//!   the identifiers that all of them share.
pub mod auth;
pub mod database;
pub mod errors;
pub mod ids;
pub mod loader;
pub mod models;
pub mod schema;
pub mod statements;
pub mod tables;

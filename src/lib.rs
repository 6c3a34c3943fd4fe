//! A Prometheus foreign-data connector: plans range queries against the
//! HTTP API, turns the JSON answers into typed rows, and hands them out one
//! at a time. The same engine serves an identity provider's users,
//! organizations and memberships, the last gathered organization by
//! organization.
pub mod cell;
pub mod cursor;
pub mod json;
pub mod materialize;
pub mod plan;
pub mod registry;
pub mod scan;
pub mod schema;
pub mod setup;
pub mod text;
pub mod time;

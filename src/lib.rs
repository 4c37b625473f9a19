//! Ingestion and query core of a log-analytics server: query validation,
//! time partitioning of durable storage, and stream registry bookkeeping.

pub mod event;
pub mod partition;
pub mod query;
pub mod text;

//! The rules of an event ingestion service: what an event may hold, how a batch of events is
//! stored and classified, when the background worker flushes, and what every request is answered.

pub mod domain;
pub mod headers;
pub mod http;
pub mod http_laws;
pub mod json;
pub mod memory;
pub mod metrics;
pub mod pipeline;
pub mod pipeline_laws;
pub mod postgres;
pub mod postgres_laws;
pub mod storage;
pub mod text;
pub mod trace;
pub mod worker_laws;

//! Analytics proxy core: ingests a raw upstream dataset, holds it in an
//! in-memory store that is only ever replaced wholesale, and computes
//! read-only query views (raw rows, grouped counts, filtered unique names)
//! together with a lifecycle status record.

pub mod dashboard;
pub mod errors;
pub mod record;
pub mod status;
pub mod service;
pub mod store;
pub mod ingest;
pub mod json;
pub mod query;

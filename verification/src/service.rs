//! The service context and the refresh orchestrator.
//!
//! The context owns the two independently locked slots — dataset and
//! status — constructed once at startup and handed by reference into every
//! handler. Refresh coordinates ingestion, the dataset swap and the status
//! stamp; the network fetch itself happens outside the core, which receives
//! its outcome as a plain `Result`.

use vstd::prelude::*;
use crate::errors::ApiError;
use crate::ingest::{ingest_records, ingest_post, spec_hits};
use crate::json::parsed_json;
use crate::status::{StatusTracker, merged, now_millis};
use crate::store::{DatasetStore, snapshot_model};

verus! {

/// The two caches of the service, independently owned and independently
/// locked; no invariant ties one to the other at any instant.
pub struct ServiceContext {
    pub data: DatasetStore,
    pub status: StatusTracker,
}

/// What a successful refresh reports: the new row count and the stamped
/// timestamp.
pub struct RefreshOutcome {
    pub total: usize,
    pub last_updated: u64,
}

/// A fresh context, as at process start: empty store, clear flags, the
/// given start time as the initial timestamp.
pub fn new_context(start: u64) -> (ctx: ServiceContext)
    ensures
        ctx.data.slot is None,
        ctx.status.status.fetched == false,
        ctx.status.status.ready == false,
        ctx.status.status.in_use == false,
        ctx.status.status.last_updated == start,
{
    ServiceContext { data: DatasetStore::new(), status: StatusTracker::new(start) }
}

/// Everything `apply_refresh` does, as a relation between the context
/// before and after the call. A transport failure or a malformed body
/// leaves both caches exactly as they were and reports the error; a valid
/// body replaces the dataset with the projected hits wholesale, stamps the
/// status with `fetched`, `ready` and not `in_use`, and reports the new
/// row count with the stamped timestamp.
pub open spec fn refresh_post(
    pre: ServiceContext,
    post: ServiceContext,
    fetched: Result<String, String>,
    now: u64,
    r: Result<RefreshOutcome, ApiError>,
) -> bool {
    match fetched {
        Err(m) => {
            &&& match r {
                Err(ApiError::Network(t)) => t@ == m@,
                _ => false,
            }
            &&& post == pre
        },
        Ok(body) => match parsed_json(body@) {
            None => {
                &&& r matches Err(e) && e is Parse
                &&& post == pre
            },
            Some(v) => {
                &&& r matches Ok(o) && o.total == spec_hits(v).len() && o.last_updated == now
                &&& post.data.slot matches Some(rows) && ingest_post(v, rows@)
                &&& post.status.status == merged(
                    pre.status.status,
                    Some(true),
                    Some(true),
                    Some(false),
                    now,
                )
            },
        },
    }
}

/// Runs everything after the fetch: ingestion of the body, the wholesale
/// dataset replacement, and the status stamp with the given clock reading.
/// On any failure the context is left untouched and the error returned.
pub fn apply_refresh(
    ctx: &mut ServiceContext,
    fetched: Result<String, String>,
    now: u64,
) -> (r: Result<RefreshOutcome, ApiError>)
    ensures
        refresh_post(*old(ctx), *final(ctx), fetched, now, r),
{
    match fetched {
        Err(m) => Err(ApiError::Network(m)),
        Ok(body) => match ingest_records(body.as_str()) {
            Err(e) => Err(e),
            Ok(rows) => {
                let total = rows.len();
                ctx.data.replace(rows);
                ctx.status.update_at(Some(true), Some(true), Some(false), now);
                Ok(RefreshOutcome { total, last_updated: now })
            },
        },
    }
}

/// As `apply_refresh`, stamping with the wall clock; the clock's reading is
/// outside the core's control.
pub fn refresh_with(ctx: &mut ServiceContext, fetched: Result<String, String>) -> (r: Result<
    RefreshOutcome,
    ApiError,
>)
    ensures
        exists|now: u64| refresh_post(*old(ctx), *final(ctx), fetched, now, r),
{
    let now = now_millis();
    apply_refresh(ctx, fetched, now)
}

/// Law: a failed refresh is non-destructive — it leaves the Dataset
/// Store's contents (and so its row count) and the Status Tracker exactly
/// as they were before the call.
pub proof fn lemma_failed_refresh_preserves(
    pre: ServiceContext,
    post: ServiceContext,
    fetched: Result<String, String>,
    now: u64,
    r: Result<RefreshOutcome, ApiError>,
)
    requires
        refresh_post(pre, post, fetched, now, r),
        r is Err,
    ensures
        post == pre,
        snapshot_model(post.data) == snapshot_model(pre.data),
        post.status.status == pre.status.status,
{
}

/// The lifecycle view: whether data is loaded, the current row count, and
/// the latest timestamp. Reads both slots, with no claim that the two are
/// mutually consistent at a single instant.
pub struct StatusReport {
    pub data_loaded: bool,
    pub total: usize,
    pub last_updated: u64,
}

/// Reads the status view from the two caches.
pub fn status_report(ctx: &ServiceContext) -> (r: StatusReport)
    ensures
        r.data_loaded == (ctx.data.slot is Some),
        r.total == match snapshot_model(ctx.data) {
            Some(rows) => rows.len(),
            None => 0,
        },
        r.last_updated == ctx.status.status.last_updated,
{
    let loaded = ctx.data.is_loaded();
    let total = ctx.data.row_count();
    let status = ctx.status.read();
    StatusReport { data_loaded: loaded, total, last_updated: status.last_updated }
}

} // verus!

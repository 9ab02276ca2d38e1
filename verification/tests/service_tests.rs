use brain_api::errors::ApiError;
use brain_api::service::{apply_refresh, new_context, refresh_with, status_report};
use brain_api::status::{rfc3339_string, TS_MAX_MILLIS};

const BODY: &str = r#"{
    "hits": [
        {"category": "Imports", "name": "A"},
        {"category": "Imports", "name": "A"},
        {"category": "Exports", "name": "B"},
        {"category": null, "name": "C"}
    ]
}"#;

#[test]
fn startup_context_is_empty_and_unflagged() {
    let ctx = new_context(5);
    assert!(matches!(ctx.data.snapshot(), Err(ApiError::NotLoaded)));
    let report = status_report(&ctx);
    assert!(!report.data_loaded);
    assert_eq!(report.total, 0);
    assert_eq!(report.last_updated, 5);
    let s = ctx.status.read();
    assert!(!s.fetched && !s.ready && !s.in_use);
}

#[test]
fn successful_refresh_publishes_dataset_and_stamps_status() {
    let mut ctx = new_context(0);
    let out = apply_refresh(&mut ctx, Ok(BODY.to_owned()), 1000).unwrap();
    assert_eq!(out.total, 4);
    assert_eq!(out.last_updated, 1000);

    let snap = ctx.data.snapshot().unwrap();
    assert_eq!(snap.len(), 4);
    assert_eq!(snap[0].category, Some("Imports".to_owned()));

    let report = status_report(&ctx);
    assert!(report.data_loaded);
    assert_eq!(report.total, 4);
    assert_eq!(report.last_updated, 1000);

    let s = ctx.status.read();
    assert!(s.fetched && s.ready && !s.in_use);
}

#[test]
fn failed_fetch_leaves_both_caches_untouched() {
    let mut ctx = new_context(0);
    apply_refresh(&mut ctx, Ok(BODY.to_owned()), 1000).unwrap();
    let before_rows = ctx.data.snapshot().unwrap();
    let before_status = ctx.status.read();

    let r = apply_refresh(&mut ctx, Err("connection refused".to_owned()), 2000);
    assert!(matches!(r, Err(ApiError::Network(_))));

    let after_rows = ctx.data.snapshot().unwrap();
    assert_eq!(after_rows.len(), before_rows.len());
    for i in 0..after_rows.len() {
        assert_eq!(after_rows[i].category, before_rows[i].category);
        assert_eq!(after_rows[i].name, before_rows[i].name);
    }
    assert_eq!(ctx.status.read(), before_status);
}

#[test]
fn malformed_body_leaves_both_caches_untouched() {
    let mut ctx = new_context(0);
    apply_refresh(&mut ctx, Ok(BODY.to_owned()), 1000).unwrap();
    let r = apply_refresh(&mut ctx, Ok("{broken".to_owned()), 2000);
    assert!(matches!(r, Err(ApiError::Parse(_))));
    assert_eq!(ctx.data.snapshot().unwrap().len(), 4);
    assert_eq!(ctx.status.read().last_updated, 1000);
    assert!(ctx.status.read().fetched);
}

#[test]
fn failed_startup_refresh_serves_defaults() {
    let mut ctx = new_context(7);
    let r = apply_refresh(&mut ctx, Err("no route to host".to_owned()), 9);
    assert!(r.is_err());
    let report = status_report(&ctx);
    assert!(!report.data_loaded);
    assert_eq!(report.total, 0);
    assert_eq!(report.last_updated, 7);
}

#[test]
fn update_merges_only_supplied_flags_and_stamps() {
    let mut ctx = new_context(0);
    ctx.status.update_at(Some(true), None, None, 10);
    let s = ctx.status.read();
    assert!(s.fetched && !s.ready && !s.in_use);
    assert_eq!(s.last_updated, 10);

    ctx.status.update_at(None, Some(true), Some(true), 20);
    let s = ctx.status.read();
    assert!(s.fetched && s.ready && s.in_use);
    assert_eq!(s.last_updated, 20);
}

#[test]
fn last_updated_non_decreasing_over_updates_and_refreshes() {
    let mut ctx = new_context(0);
    let mut last = ctx.status.read().last_updated;
    ctx.status.update_at(Some(true), None, None, 5);
    assert!(ctx.status.read().last_updated >= last);
    last = ctx.status.read().last_updated;
    apply_refresh(&mut ctx, Ok(BODY.to_owned()), 8).unwrap();
    assert!(ctx.status.read().last_updated >= last);
    last = ctx.status.read().last_updated;
    ctx.status.update_at(None, None, Some(true), 8);
    assert!(ctx.status.read().last_updated >= last);
}

#[test]
fn wall_clock_update_merges_flags() {
    let mut ctx = new_context(0);
    ctx.status.update(Some(true), None, Some(true));
    let s = ctx.status.read();
    assert!(s.fetched && !s.ready && s.in_use);
}

#[test]
fn wall_clock_refresh_publishes_dataset() {
    let mut ctx = new_context(0);
    let out = refresh_with(&mut ctx, Ok(BODY.to_owned())).unwrap();
    assert_eq!(out.total, 4);
    assert!(ctx.status.read().ready);
}

#[test]
fn replace_swaps_the_dataset_wholesale() {
    let mut ctx = new_context(0);
    apply_refresh(&mut ctx, Ok(BODY.to_owned()), 1).unwrap();
    let small = r#"{"hits": [{"category": "Exports", "name": "Z"}]}"#;
    apply_refresh(&mut ctx, Ok(small.to_owned()), 2).unwrap();
    let snap = ctx.data.snapshot().unwrap();
    assert_eq!(snap.len(), 1);
    assert_eq!(snap[0].name, Some("Z".to_owned()));
}

#[test]
fn rfc3339_renders_epoch_and_rejects_out_of_range() {
    let s = rfc3339_string(0).unwrap();
    assert_eq!(s, "1970-01-01T00:00:00+00:00");
    let s = rfc3339_string(947638923004).unwrap();
    assert_eq!(s, "2000-01-12T01:02:03.004+00:00");
    assert!(rfc3339_string(TS_MAX_MILLIS + 1).is_none());
}

#[test]
fn not_loaded_error_message() {
    let ctx = new_context(0);
    match ctx.data.snapshot() {
        Err(e) => assert_eq!(e.message(), "Data not loaded yet"),
        Ok(_) => panic!("empty store must not yield a snapshot"),
    }
}

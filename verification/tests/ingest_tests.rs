use brain_api::errors::ApiError;
use brain_api::ingest::ingest_records;

#[test]
fn ingest_projects_five_fields_in_order() {
    let body = r#"{
        "hits": [
            {"country": "Ukraine", "category": "Imports", "currency": "USD",
             "name": "A", "type": "flow", "extra": "dropped"},
            {"category": "Imports", "name": "A"},
            {"category": "Exports", "name": "B", "country": null},
            {"category": null, "name": "C", "type": 7}
        ]
    }"#;
    let rows = ingest_records(body).unwrap();
    assert_eq!(rows.len(), 4);

    assert_eq!(rows[0].country, Some("Ukraine".to_owned()));
    assert_eq!(rows[0].category, Some("Imports".to_owned()));
    assert_eq!(rows[0].currency, Some("USD".to_owned()));
    assert_eq!(rows[0].name, Some("A".to_owned()));
    assert_eq!(rows[0].kind, Some("flow".to_owned()));

    // Missing fields become absent values.
    assert_eq!(rows[1].country, None);
    assert_eq!(rows[1].currency, None);

    // An explicit null stays absent.
    assert_eq!(rows[2].country, None);
    assert_eq!(rows[2].category, Some("Exports".to_owned()));

    // A null category and a non-text field value are both absent.
    assert_eq!(rows[3].category, None);
    assert_eq!(rows[3].kind, None);
    assert_eq!(rows[3].name, Some("C".to_owned()));
}

#[test]
fn ingest_missing_hits_is_empty_not_error() {
    let rows = ingest_records(r#"{"total": 3}"#).unwrap();
    assert_eq!(rows.len(), 0);
}

#[test]
fn ingest_non_array_hits_is_empty() {
    let rows = ingest_records(r#"{"hits": "nope"}"#).unwrap();
    assert_eq!(rows.len(), 0);
}

#[test]
fn ingest_non_object_body_is_empty() {
    let rows = ingest_records("[1, 2, 3]").unwrap();
    assert_eq!(rows.len(), 0);
}

#[test]
fn ingest_malformed_body_is_parse_error() {
    let r = ingest_records("{not json");
    assert!(matches!(r, Err(ApiError::Parse(_))));
    if let Err(e) = r {
        assert!(!e.message().is_empty());
    }
}

#[test]
fn ingest_non_object_hit_yields_all_absent_fields() {
    let rows = ingest_records(r#"{"hits": [42]}"#).unwrap();
    assert_eq!(rows.len(), 1);
    assert_eq!(rows[0].country, None);
    assert_eq!(rows[0].category, None);
    assert_eq!(rows[0].currency, None);
    assert_eq!(rows[0].name, None);
    assert_eq!(rows[0].kind, None);
}

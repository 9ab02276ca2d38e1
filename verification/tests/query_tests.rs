use brain_api::query::{group_by_category, raw_rows, unique_names_where_category};
use brain_api::record::Record;

fn rec(
    country: Option<&str>,
    category: Option<&str>,
    currency: Option<&str>,
    name: Option<&str>,
    kind: Option<&str>,
) -> Record {
    Record {
        country: country.map(|s| s.to_owned()),
        category: category.map(|s| s.to_owned()),
        currency: currency.map(|s| s.to_owned()),
        name: name.map(|s| s.to_owned()),
        kind: kind.map(|s| s.to_owned()),
    }
}

fn example_rows() -> Vec<Record> {
    vec![
        rec(None, Some("Imports"), None, Some("A"), None),
        rec(None, Some("Imports"), None, Some("A"), None),
        rec(None, Some("Exports"), None, Some("B"), None),
        rec(None, None, None, Some("C"), None),
    ]
}

#[test]
fn group_by_category_example() {
    let rows = example_rows();
    let groups = group_by_category(&rows);
    assert_eq!(groups.len(), 2);
    assert_eq!(groups[0].label, "Imports");
    assert_eq!(groups[0].count, 2);
    assert_eq!(groups[1].label, "Exports");
    assert_eq!(groups[1].count, 1);
}

#[test]
fn group_by_category_empty_dataset() {
    let rows: Vec<Record> = vec![];
    let groups = group_by_category(&rows);
    assert_eq!(groups.len(), 0);
}

#[test]
fn group_counts_sum_to_bucketed_rows() {
    let rows = example_rows();
    let groups = group_by_category(&rows);
    let total: usize = groups.iter().map(|g| g.count).sum();
    let bucketed = rows.iter().filter(|r| r.category.is_some()).count();
    assert_eq!(total, bucketed);
    assert_eq!(total, 3);
}

#[test]
fn group_by_category_first_seen_order() {
    let rows = vec![
        rec(None, Some("B"), None, None, None),
        rec(None, Some("A"), None, None, None),
        rec(None, Some("B"), None, None, None),
    ];
    let groups = group_by_category(&rows);
    assert_eq!(groups.len(), 2);
    assert_eq!(groups[0].label, "B");
    assert_eq!(groups[0].count, 2);
    assert_eq!(groups[1].label, "A");
    assert_eq!(groups[1].count, 1);
}

#[test]
fn unique_names_example() {
    let rows = example_rows();
    let imports = unique_names_where_category(&rows, "Imports");
    assert_eq!(imports, vec!["A".to_owned()]);
    let exports = unique_names_where_category(&rows, "Exports");
    assert_eq!(exports, vec!["B".to_owned()]);
}

#[test]
fn unique_names_dedup_keeps_first_occurrence_order() {
    let rows = vec![
        rec(None, Some("X"), None, Some("B"), None),
        rec(None, Some("X"), None, Some("A"), None),
        rec(None, Some("X"), None, Some("B"), None),
        rec(None, Some("X"), None, None, None),
        rec(None, Some("X"), None, Some("C"), None),
    ];
    let names = unique_names_where_category(&rows, "X");
    assert_eq!(names, vec!["B".to_owned(), "A".to_owned(), "C".to_owned()]);
}

#[test]
fn unique_names_match_is_case_sensitive() {
    let rows = vec![rec(None, Some("Imports"), None, Some("A"), None)];
    let names = unique_names_where_category(&rows, "imports");
    assert_eq!(names.len(), 0);
}

#[test]
fn unique_names_empty_result_is_not_an_error() {
    let rows = example_rows();
    let names = unique_names_where_category(&rows, "Nothing");
    assert_eq!(names.len(), 0);
}

#[test]
fn raw_rows_preserves_count_and_fields() {
    let rows = example_rows();
    let raw = raw_rows(&rows);
    assert_eq!(raw.len(), 4);
    let names: Vec<&str> = raw[0].fields.iter().map(|p| p.0.as_str()).collect();
    assert_eq!(names, vec!["country", "category", "currency", "name", "type"]);
    assert_eq!(raw[0].fields[1].1, Some("Imports".to_owned()));
    assert_eq!(raw[0].fields[3].1, Some("A".to_owned()));
    // A null field is carried explicitly, not omitted.
    assert_eq!(raw[3].fields[1].1, None);
    assert_eq!(raw[3].fields.len(), 5);
}

#[test]
fn raw_rows_is_pure() {
    let rows = example_rows();
    let a = raw_rows(&rows);
    let b = raw_rows(&rows);
    assert_eq!(a.len(), b.len());
    for i in 0..a.len() {
        assert_eq!(a[i].fields, b[i].fields);
    }
}

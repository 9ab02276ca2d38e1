use brain_api::dashboard::{Console, DataDandy, ErrorDisplay};

#[test]
fn dashboard_opens_with_defaults() {
    let d = DataDandy::new();
    assert_eq!(d.log, vec!["Welcome to Data Dandy!".to_owned()]);
    assert!(!d.show_console);
    assert_eq!(d.api_selector.selected, 0);
    assert_eq!(
        d.api_selector.options,
        vec![
            "Crude Oil Price".to_owned(),
            "Gold Price".to_owned(),
            "GDP by Country".to_owned(),
        ]
    );
    assert!(!d.fetch_button.loading);
    assert!(d.error.is_none());
}

#[test]
fn console_and_error_display_borrow_their_data() {
    let d = DataDandy::new();
    let console = Console { log: &d.log };
    assert_eq!(console.log.len(), 1);
    let banner = ErrorDisplay { error: d.error.as_deref() };
    assert!(banner.error.is_none());
}

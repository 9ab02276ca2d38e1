//! The dashboard's state: what the desktop front end selects, logs and
//! displays. Rendering lives outside the core; these types carry the data
//! it draws from.

use vstd::prelude::*;

verus! {

/// The endpoint choice: which of the listed options is selected.
pub struct ApiSelector {
    pub selected: usize,
    pub options: Vec<String>,
}

/// The console widget's data: the log lines it shows.
pub struct Console<'a> {
    pub log: &'a [String],
}

/// The error banner's data: the message to show, if any.
pub struct ErrorDisplay<'a> {
    pub error: Option<&'a str>,
}

/// The fetch button's state: whether a fetch is under way.
pub struct FetchButton {
    pub loading: bool,
}

/// The parameter controls; they hold no state.
pub struct ParamControls;

/// The chart widget; it holds no state.
pub struct Chart;

/// The dashboard's whole state.
pub struct DataDandy {
    pub log: Vec<String>,
    pub show_console: bool,
    pub api_selector: ApiSelector,
    pub param_controls: ParamControls,
    pub fetch_button: FetchButton,
    pub error: Option<String>,
    pub chart: Chart,
}

impl DataDandy {
    /// The dashboard as it first opens: a greeting in the log, the console
    /// hidden, the first of three endpoint options selected, the fetch
    /// button idle, and no error shown.
    pub fn new() -> (d: Self)
        ensures
            d.log@.len() == 1 && d.log@[0]@ == "Welcome to Data Dandy!"@,
            d.show_console == false,
            d.api_selector.selected == 0,
            d.api_selector.options@.len() == 3,
            d.api_selector.options@[0]@ == "Crude Oil Price"@,
            d.api_selector.options@[1]@ == "Gold Price"@,
            d.api_selector.options@[2]@ == "GDP by Country"@,
            d.fetch_button.loading == false,
            d.error is None,
    {
        DataDandy {
            log: vec!["Welcome to Data Dandy!".to_owned()],
            show_console: false,
            api_selector: ApiSelector {
                selected: 0,
                options: vec![
                    "Crude Oil Price".to_owned(),
                    "Gold Price".to_owned(),
                    "GDP by Country".to_owned(),
                ],
            },
            param_controls: ParamControls,
            fetch_button: FetchButton { loading: false },
            error: None,
            chart: Chart,
        }
    }
}

} // verus!

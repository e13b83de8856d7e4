//! DatePicker: a date (and time) input.
use vstd::prelude::*;
use crate::signal::Signal;
use crate::web::Handler;

verus! {

/// Props for the DatePicker component.
pub struct DatePickerProps {
    /// A signal holding the chosen date.
    pub value: Option<Signal>,
    pub min_date: Option<String>,
    pub max_date: Option<String>,
    pub disabled: bool,
    pub format: String,
    pub show_time: bool,
    pub on_change: Option<Box<dyn Handler<String>>>,
    pub class: Option<String>,
}

impl Default for DatePickerProps {
    fn default() -> (r: Self)
        ensures
            r.value is None,
            r.min_date is None,
            r.max_date is None,
            !r.disabled,
            r.format@ == "YYYY-MM-DD"@,
            !r.show_time,
            r.on_change is None,
            r.class is None,
    {
        DatePickerProps {
            value: None,
            min_date: None,
            max_date: None,
            disabled: false,
            format: "YYYY-MM-DD".to_owned(),
            show_time: false,
            on_change: None,
            class: None,
        }
    }
}

/// The DatePicker component.
pub struct DatePicker;

} // verus!

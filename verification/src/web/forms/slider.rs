//! Slider: the parts of a range input that do not depend on its numbers.
use vstd::prelude::*;
use crate::web::{class_names, push_extra, spaced, strs, with_extra};

verus! {

/// Slider orientation.
#[derive(Clone, Copy, PartialEq, Eq, Debug, Structural)]
pub enum SliderOrientation {
    Horizontal,
    Vertical,
}

impl Default for SliderOrientation {
    fn default() -> (r: Self)
        ensures
            r == SliderOrientation::Horizontal,
    {
        SliderOrientation::Horizontal
    }
}

impl SliderOrientation {
    /// The orientation class.
    pub open spec fn class_text(self) -> Seq<char> {
        match self {
            SliderOrientation::Horizontal => "domius-slider-horizontal"@,
            SliderOrientation::Vertical => "domius-slider-vertical"@,
        }
    }

    /// The orientation class.
    pub fn as_class(self) -> (r: &'static str)
        ensures
            r@ == self.class_text(),
    {
        match self {
            SliderOrientation::Horizontal => "domius-slider-horizontal",
            SliderOrientation::Vertical => "domius-slider-vertical",
        }
    }
}

/// The Slider component.
pub struct Slider;

/// The base classes of a slider.
pub open spec fn slider_class_list(orientation: SliderOrientation, disabled: bool) -> Seq<Seq<char>> {
    let base = seq!["domius-slider"@, orientation.class_text()];
    if disabled { base.push("domius-slider-disabled"@) } else { base }
}

/// Class names of a slider.
pub fn slider_classes(orientation: SliderOrientation, disabled: bool, class: &Option<String>) -> (r: String)
    ensures
        r@ == spaced(with_extra(slider_class_list(orientation, disabled), *class)),
{
    let mut parts: Vec<String> = Vec::new();
    parts.push("domius-slider".to_owned());
    parts.push(orientation.as_class().to_owned());
    if disabled {
        parts.push("domius-slider-disabled".to_owned());
    }
    assert(strs(parts@) =~= slider_class_list(orientation, disabled));
    push_extra(&mut parts, class);
    class_names(&parts)
}

} // verus!

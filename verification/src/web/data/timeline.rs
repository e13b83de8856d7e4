//! Timeline: a chronological list of events.
use vstd::prelude::*;
use crate::web::{class_names, push_extra, spaced, strs, with_extra};

verus! {

/// A single timeline event.
#[derive(Clone)]
pub struct TimelineEvent {
    pub title: String,
    pub description: Option<String>,
    pub timestamp: Option<String>,
    pub icon: Option<String>,
    pub color: Option<String>,
}

/// Timeline orientation.
#[derive(Clone, Copy, PartialEq, Eq, Debug, Structural)]
pub enum TimelineOrientation {
    Vertical,
    Horizontal,
}

impl Default for TimelineOrientation {
    fn default() -> (r: Self)
        ensures
            r == TimelineOrientation::Vertical,
    {
        TimelineOrientation::Vertical
    }
}

impl TimelineOrientation {
    /// The token of the orientation.
    pub open spec fn token(self) -> Seq<char> {
        match self {
            TimelineOrientation::Vertical => "vertical"@,
            TimelineOrientation::Horizontal => "horizontal"@,
        }
    }

    /// The token of the orientation.
    pub fn as_str(self) -> (r: &'static str)
        ensures
            r@ == self.token(),
    {
        match self {
            TimelineOrientation::Vertical => "vertical",
            TimelineOrientation::Horizontal => "horizontal",
        }
    }
}

/// Props for the Timeline component.
#[derive(Clone)]
pub struct TimelineProps {
    pub events: Vec<TimelineEvent>,
    pub orientation: TimelineOrientation,
    pub alternate: bool,
    pub class: Option<String>,
}

impl Default for TimelineProps {
    fn default() -> (r: Self)
        ensures
            r.events@.len() == 0,
            r.orientation == TimelineOrientation::Vertical,
            !r.alternate,
            r.class is None,
    {
        TimelineProps {
            events: Vec::new(),
            orientation: TimelineOrientation::Vertical,
            alternate: false,
            class: None,
        }
    }
}

/// The Timeline component.
pub struct Timeline;

/// The base classes of a timeline.
pub open spec fn timeline_class_list(orientation: TimelineOrientation, alternate: bool) -> Seq<Seq<char>> {
    let base = seq!["domius-timeline"@, orientation.token()];
    if alternate { base.push("domius-timeline-alternate"@) } else { base }
}

/// Class names of a timeline.
pub fn timeline_classes(orientation: TimelineOrientation, alternate: bool, class: &Option<String>) -> (r: String)
    ensures
        r@ == spaced(with_extra(timeline_class_list(orientation, alternate), *class)),
{
    let mut parts: Vec<String> = Vec::new();
    parts.push("domius-timeline".to_owned());
    parts.push(orientation.as_str().to_owned());
    if alternate {
        parts.push("domius-timeline-alternate".to_owned());
    }
    assert(strs(parts@) =~= timeline_class_list(orientation, alternate));
    push_extra(&mut parts, class);
    class_names(&parts)
}

} // verus!

//! Charts: the chart kinds and the text and size of a chart figure.
use vstd::prelude::*;
use crate::text::{decimal, push_decimal, push_str};
use crate::web::{class_names, push_extra, spaced, strs, with_extra};

verus! {

/// The kind of chart drawn.
#[derive(Clone, Copy, PartialEq, Eq, Debug, Structural)]
pub enum ChartType {
    Line,
    Bar,
    Pie,
    Donut,
    Area,
    Scatter,
    Radar,
    Polar,
}

impl ChartType {
    /// The token that names the kind.
    pub open spec fn token(self) -> Seq<char> {
        match self {
            ChartType::Line => "line"@,
            ChartType::Bar => "bar"@,
            ChartType::Pie => "pie"@,
            ChartType::Donut => "donut"@,
            ChartType::Area => "area"@,
            ChartType::Scatter => "scatter"@,
            ChartType::Radar => "radar"@,
            ChartType::Polar => "polar"@,
        }
    }

    /// The token that names the kind.
    pub fn as_str(self) -> (r: &'static str)
        ensures
            r@ == self.token(),
    {
        match self {
            ChartType::Line => "line",
            ChartType::Bar => "bar",
            ChartType::Pie => "pie",
            ChartType::Donut => "donut",
            ChartType::Area => "area",
            ChartType::Scatter => "scatter",
            ChartType::Radar => "radar",
            ChartType::Polar => "polar",
        }
    }
}

/// The Charts component.
pub struct Charts;

/// Class names of the chart figure.
pub fn chart_classes(class: &Option<String>) -> (r: String)
    ensures
        r@ == spaced(with_extra(seq!["domius-chart"@], *class)),
{
    let mut parts: Vec<String> = Vec::new();
    parts.push("domius-chart".to_owned());
    assert(strs(parts@) =~= seq!["domius-chart"@]);
    push_extra(&mut parts, class);
    class_names(&parts)
}

/// A side of the chart: the given length, else the default, and never 0.
pub fn chart_extent(given: Option<u32>, default: u32) -> (r: u32)
    ensures
        r == (match given {
            Some(v) => if v == 0 { 1 } else { v },
            None => if default == 0 { 1 } else { default },
        }),
{
    let v = match given {
        Some(v) => v,
        None => default,
    };
    if v == 0 { 1 } else { v }
}

/// The accessible name of a chart of `kind` with `points` data points.
pub fn chart_label(kind: ChartType, points: usize) -> (r: String)
    ensures
        r@ == kind.token() + " chart with "@ + decimal(points as nat) + " data points"@,
{
    let mut r = String::new();
    push_str(&mut r, kind.as_str());
    push_str(&mut r, " chart with ");
    push_decimal(&mut r, points);
    push_str(&mut r, " data points");
    r
}

} // verus!

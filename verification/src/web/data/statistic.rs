//! Statistic: a number with its title, affixes and trend.
use vstd::prelude::*;
use crate::web::{class_names, push_extra, spaced, strs, with_extra};

verus! {

/// The trend of a statistic.
#[derive(Clone, Copy, PartialEq, Eq, Debug, Structural)]
pub enum TrendType {
    /// No trend is shown.
    Flat,
    Increase,
    Decrease,
}

impl Default for TrendType {
    fn default() -> (r: Self)
        ensures
            r == TrendType::Flat,
    {
        TrendType::Flat
    }
}

/// Props for a statistic.
#[derive(Clone)]
pub struct StatisticProps {
    /// Statistic title
    pub title: Option<String>,
    /// Statistic value
    pub value: String,
    /// Value prefix (e.g., "$", "€")
    pub prefix: Option<String>,
    /// Value suffix (e.g., "%", "k")
    pub suffix: Option<String>,
    /// CSS class
    pub class: Option<String>,
    /// Trend type
    pub trend: Option<TrendType>,
    /// Trend value (e.g., "12.5%")
    pub trend_value: Option<String>,
    /// Show trend as positive (green) or negative (red)
    pub trend_positive: bool,
    /// Description text
    pub description: Option<String>,
    /// Precision for decimal numbers
    pub precision: Option<u32>,
}

impl Default for StatisticProps {
    fn default() -> (r: Self)
        ensures
            r.title is None,
            r.value@.len() == 0,
            r.prefix is None,
            r.suffix is None,
            r.class is None,
            r.trend is None,
            r.trend_value is None,
            !r.trend_positive,
            r.description is None,
            r.precision is None,
    {
        StatisticProps {
            title: None,
            value: String::new(),
            prefix: None,
            suffix: None,
            class: None,
            trend: None,
            trend_value: None,
            trend_positive: false,
            description: None,
            precision: None,
        }
    }
}

/// Props for a statistic on a card.
#[derive(Clone)]
pub struct StatisticCardProps {
    /// Statistic props
    pub statistic: StatisticProps,
    /// CSS class
    pub class: Option<String>,
    /// Bordered style
    pub bordered: bool,
}

impl Default for StatisticCardProps {
    fn default() -> (r: Self)
        ensures
            r.statistic.title is None,
            r.statistic.value@.len() == 0,
            r.statistic.trend is None,
            r.class is None,
            !r.bordered,
    {
        StatisticCardProps { statistic: StatisticProps::default(), class: None, bordered: false }
    }
}

/// Class names of a statistic.
pub fn statistic_classes(class: &Option<String>) -> (r: String)
    ensures
        r@ == spaced(with_extra(seq!["statistic"@], *class)),
{
    let mut parts: Vec<String> = Vec::new();
    parts.push("statistic".to_owned());
    assert(strs(parts@) =~= seq!["statistic"@]);
    push_extra(&mut parts, class);
    class_names(&parts)
}

/// The base classes of a statistic card.
pub open spec fn card_class_list(bordered: bool) -> Seq<Seq<char>> {
    if bordered {
        seq!["statistic-card"@, "statistic-card-bordered"@]
    } else {
        seq!["statistic-card"@]
    }
}

/// Class names of a statistic card.
pub fn statistic_card_classes(bordered: bool, class: &Option<String>) -> (r: String)
    ensures
        r@ == spaced(with_extra(card_class_list(bordered), *class)),
{
    let mut parts: Vec<String> = Vec::new();
    parts.push("statistic-card".to_owned());
    if bordered {
        parts.push("statistic-card-bordered".to_owned());
    }
    assert(strs(parts@) =~= card_class_list(bordered));
    push_extra(&mut parts, class);
    class_names(&parts)
}

/// The trend shown: a trend other than `Flat`.
pub fn shown_trend(trend: Option<TrendType>) -> (r: Option<TrendType>)
    ensures
        r == (match trend {
            Some(TrendType::Flat) => None,
            t => t,
        }),
{
    match trend {
        Some(TrendType::Flat) => None,
        t => t,
    }
}

/// The `data-trend` token of a shown trend.
pub open spec fn trend_token(positive: bool) -> Seq<char> {
    if positive { "positive"@ } else { "negative"@ }
}

/// The `data-trend` token of a shown trend.
pub fn trend_direction(positive: bool) -> (r: &'static str)
    ensures
        r@ == trend_token(positive),
{
    if positive { "positive" } else { "negative" }
}

/// The markup of the trend's arrow.
pub open spec fn trend_icon_text(trend: TrendType) -> Seq<char> {
    match trend {
        TrendType::Increase => "&#8593;"@,
        TrendType::Decrease => "&#8595;"@,
        TrendType::Flat => ""@,
    }
}

/// The markup of the trend's arrow; empty when there is none.
pub fn trend_icon(trend: TrendType) -> (r: &'static str)
    ensures
        r@ == trend_icon_text(trend),
{
    match trend {
        TrendType::Increase => "&#8593;",
        TrendType::Decrease => "&#8595;",
        TrendType::Flat => "",
    }
}

} // verus!

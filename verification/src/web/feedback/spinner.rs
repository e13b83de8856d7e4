//! Spinner: a loading indicator.
use vstd::prelude::*;
use crate::text::push_str;
use crate::web::{class_names, push_extra, spaced, strs, with_extra};

verus! {

/// Spinner size.
#[derive(Clone, Copy, PartialEq, Eq, Debug, Structural)]
pub enum SpinnerSize {
    Small,
    Medium,
    Large,
}

impl Default for SpinnerSize {
    fn default() -> (r: Self)
        ensures
            r == SpinnerSize::Small,
    {
        SpinnerSize::Small
    }
}

impl SpinnerSize {
    /// The `data-size` token.
    pub open spec fn token_text(self) -> Seq<char> {
        match self {
            SpinnerSize::Small => "spinner-sm"@,
            SpinnerSize::Medium => "spinner-md"@,
            SpinnerSize::Large => "spinner-lg"@,
        }
    }

    /// The `data-size` token.
    pub fn token(self) -> (r: &'static str)
        ensures
            r@ == self.token_text(),
    {
        match self {
            SpinnerSize::Small => "spinner-sm",
            SpinnerSize::Medium => "spinner-md",
            SpinnerSize::Large => "spinner-lg",
        }
    }
}

/// Spinner style.
#[derive(Clone, Copy, PartialEq, Eq, Debug, Structural)]
pub enum SpinnerType {
    Circular,
    Dots,
    Bars,
}

impl Default for SpinnerType {
    fn default() -> (r: Self)
        ensures
            r == SpinnerType::Circular,
    {
        SpinnerType::Circular
    }
}

impl SpinnerType {
    /// The `data-type` token.
    pub open spec fn token_text(self) -> Seq<char> {
        match self {
            SpinnerType::Circular => "spinner-circular"@,
            SpinnerType::Dots => "spinner-dots"@,
            SpinnerType::Bars => "spinner-bars"@,
        }
    }

    /// The `data-type` token.
    pub fn token(self) -> (r: &'static str)
        ensures
            r@ == self.token_text(),
    {
        match self {
            SpinnerType::Circular => "spinner-circular",
            SpinnerType::Dots => "spinner-dots",
            SpinnerType::Bars => "spinner-bars",
        }
    }

    /// How many dots or bars the spinner draws (none: the circular one is
    /// a drawn arc).
    pub fn mark_count(self) -> (r: usize)
        ensures
            r == (match self {
                SpinnerType::Circular => 0usize,
                SpinnerType::Dots => 3usize,
                SpinnerType::Bars => 5usize,
            }),
    {
        match self {
            SpinnerType::Circular => 0,
            SpinnerType::Dots => 3,
            SpinnerType::Bars => 5,
        }
    }
}

/// Props for a spinner.
#[derive(Clone)]
pub struct SpinnerProps {
    /// Spinner size
    pub size: SpinnerSize,
    /// Spinner type
    pub spinner_type: SpinnerType,
    /// CSS class
    pub class: Option<String>,
    /// Custom color
    pub color: Option<String>,
    /// Show with text label
    pub tip: Option<String>,
}

impl Default for SpinnerProps {
    fn default() -> (r: Self)
        ensures
            r.size == SpinnerSize::Small,
            r.spinner_type == SpinnerType::Circular,
            r.class is None,
            r.color is None,
            r.tip is None,
    {
        SpinnerProps { size: SpinnerSize::Small, spinner_type: SpinnerType::Circular, class: None, color: None, tip: None }
    }
}

/// Class names of a spinner.
pub fn spinner_classes(class: &Option<String>) -> (r: String)
    ensures
        r@ == spaced(with_extra(seq!["spinner"@], *class)),
{
    let mut parts: Vec<String> = Vec::new();
    parts.push("spinner".to_owned());
    assert(strs(parts@) =~= seq!["spinner"@]);
    push_extra(&mut parts, class);
    class_names(&parts)
}

/// The style that sets a spinner's colour.
pub fn color_style(color: &String) -> (r: String)
    ensures
        r@ == "--spinner-color: "@ + color@ + ";"@,
{
    let mut r = String::new();
    push_str(&mut r, "--spinner-color: ");
    push_str(&mut r, color.as_str());
    push_str(&mut r, ";");
    r
}

} // verus!

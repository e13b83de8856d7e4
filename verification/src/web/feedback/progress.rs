//! ProgressBar: how far along something is.
use vstd::prelude::*;
use crate::runtime::{signal, Runtime};
use crate::signal::Signal;
use crate::text::{chars_of, decimal, push_decimal, replace_all, replace_text, string_of};
use crate::web::{class_names, push_extra, spaced, strs, with_extra};

verus! {

/// Progress bar variant.
#[derive(Clone, Copy, PartialEq, Eq, Debug, Structural)]
pub enum ProgressVariant {
    Linear,
    Circular,
}

impl Default for ProgressVariant {
    fn default() -> (r: Self)
        ensures
            r == ProgressVariant::Linear,
    {
        ProgressVariant::Linear
    }
}

/// The token of a progress variant.
pub open spec fn variant_text(variant: ProgressVariant) -> Seq<char> {
    match variant {
        ProgressVariant::Linear => "linear"@,
        ProgressVariant::Circular => "circular"@,
    }
}

/// The token of a progress variant.
pub fn variant_token(variant: &ProgressVariant) -> (r: &'static str)
    ensures
        r@ == variant_text(*variant),
{
    match variant {
        ProgressVariant::Linear => "linear",
        ProgressVariant::Circular => "circular",
    }
}

/// Progress bar size.
#[derive(Clone, Copy, PartialEq, Eq, Debug, Structural)]
pub enum ProgressSize {
    Sm,
    Md,
    Lg,
}

impl ProgressSize {
    /// The token of the size.
    pub open spec fn token_text(self) -> Seq<char> {
        match self {
            ProgressSize::Sm => "sm"@,
            ProgressSize::Md => "md"@,
            ProgressSize::Lg => "lg"@,
        }
    }

    /// The token of the size.
    pub fn token(&self) -> (r: &'static str)
        ensures
            r@ == self.token_text(),
    {
        match self {
            ProgressSize::Sm => "sm",
            ProgressSize::Md => "md",
            ProgressSize::Lg => "lg",
        }
    }
}

impl Default for ProgressSize {
    fn default() -> (r: Self)
        ensures
            r == ProgressSize::Md,
    {
        ProgressSize::Md
    }
}

/// Props for the ProgressBar component.
#[derive(Clone)]
pub struct ProgressProps {
    /// A signal holding the current value.
    pub value: Signal,
    pub max: u8,
    pub variant: ProgressVariant,
    pub size: ProgressSize,
    pub color: Option<String>,
    pub show_label: bool,
    pub label_format: Option<String>,
    pub indeterminate: bool,
    pub class: Option<String>,
}

impl ProgressProps {
    /// The default props, with a new value signal in `rt` that holds 0.
    pub fn new_in(rt: &mut Runtime<u8>) -> (r: Self)
        requires
            old(rt).wf(),
        ensures
            final(rt).wf(),
            r.value.id() == old(rt).store().len(),
            final(rt).store().len() == old(rt).store().len() + 1,
            final(rt).store().value(r.value) == 0,
            final(rt).same_bookkeeping(*old(rt)),
            r.max == 100,
            r.variant == ProgressVariant::Linear,
            r.size == ProgressSize::Md,
            r.color is None,
            !r.show_label,
            r.label_format is None,
            !r.indeterminate,
            r.class is None,
    {
        let value = signal(rt, 0u8);
        ProgressProps {
            value,
            max: 100,
            variant: ProgressVariant::Linear,
            size: ProgressSize::Md,
            color: None,
            show_label: false,
            label_format: None,
            indeterminate: false,
            class: None,
        }
    }
}

/// The ProgressBar component.
pub struct ProgressBar;

/// The base classes of a progress bar.
pub open spec fn progress_class_list(variant: ProgressVariant, size: ProgressSize, indeterminate: bool) -> Seq<Seq<char>> {
    let base = seq!["domius-progress"@, "domius-progress-"@ + variant_text(variant), "domius-progress-"@ + size.token_text()];
    if indeterminate { base.push("domius-progress-indeterminate"@) } else { base }
}

fn prefixed(prefix: &str, token: &str) -> (r: String)
    ensures
        r@ == prefix@ + token@,
{
    let mut r = prefix.to_owned();
    crate::text::push_str(&mut r, token);
    r
}

/// Class names of a progress bar.
pub fn progress_classes(variant: ProgressVariant, size: ProgressSize, indeterminate: bool, class: &Option<String>) -> (r: String)
    ensures
        r@ == spaced(with_extra(progress_class_list(variant, size, indeterminate), *class)),
{
    let mut parts: Vec<String> = Vec::new();
    parts.push("domius-progress".to_owned());
    parts.push(prefixed("domius-progress-", variant_token(&variant)));
    parts.push(prefixed("domius-progress-", size.token()));
    if indeterminate {
        parts.push("domius-progress-indeterminate".to_owned());
    }
    assert(strs(parts@) =~= progress_class_list(variant, size, indeterminate));
    push_extra(&mut parts, class);
    class_names(&parts)
}

/// The largest value of the bar: `max`, and at least 1.
pub fn effective_max(max: u8) -> (r: u8)
    ensures
        r == (if max == 0 { 1 } else { max }),
{
    if max == 0 { 1 } else { max }
}

/// The value drawn: `value`, at most `max`.
pub fn shown_value(value: u8, max: u8) -> (r: u8)
    ensures
        r == (if value < max { value } else { max }),
{
    if value < max { value } else { max }
}

/// The label made from a template: `{value}` and then `{max}` replaced by
/// the numbers.
pub open spec fn label_text(format: Seq<char>, current: nat, max: nat) -> Seq<char> {
    replace_all(replace_all(format, "{value}"@, decimal(current)), "{max}"@, decimal(max))
}

fn digits(n: u8) -> (r: Vec<char>)
    ensures
        r@ == decimal(n as nat),
{
    let mut s = String::new();
    push_decimal(&mut s, n as usize);
    chars_of(s.as_str())
}

/// The label of a bar whose label has a template.
pub fn format_label(format: &String, current: u8, max: u8) -> (r: String)
    ensures
        r@ == label_text(format@, current as nat, max as nat),
{
    let f = chars_of(format.as_str());
    let value_key = chars_of("{value}");
    let max_key = chars_of("{max}");
    proof {
        reveal_strlit("{value}");
        reveal_strlit("{max}");
    }
    let once = replace_text(&f, &value_key, &digits(current));
    let twice = replace_text(&once, &max_key, &digits(max));
    string_of(&twice)
}

} // verus!

//! Badge: a status indicator or label.
use vstd::prelude::*;
use crate::web::{class_names, push_extra, spaced, strs, with_extra};

verus! {

/// Badge visual variant.
#[derive(Clone, Copy, PartialEq, Eq, Debug, Structural)]
pub enum BadgeVariant {
    Primary,
    Secondary,
    Success,
    Warning,
    Error,
    Info,
    Neutral,
}

impl Default for BadgeVariant {
    fn default() -> (r: Self)
        ensures
            r == BadgeVariant::Primary,
    {
        BadgeVariant::Primary
    }
}

impl BadgeVariant {
    /// The variant's class.
    pub open spec fn class_text(self) -> Seq<char> {
        match self {
            BadgeVariant::Primary => "domius-badge-primary"@,
            BadgeVariant::Secondary => "domius-badge-secondary"@,
            BadgeVariant::Success => "domius-badge-success"@,
            BadgeVariant::Warning => "domius-badge-warning"@,
            BadgeVariant::Error => "domius-badge-error"@,
            BadgeVariant::Info => "domius-badge-info"@,
            BadgeVariant::Neutral => "domius-badge-neutral"@,
        }
    }

    /// The variant's class.
    pub fn as_class(&self) -> (r: &'static str)
        ensures
            r@ == self.class_text(),
    {
        match self {
            BadgeVariant::Primary => "domius-badge-primary",
            BadgeVariant::Secondary => "domius-badge-secondary",
            BadgeVariant::Success => "domius-badge-success",
            BadgeVariant::Warning => "domius-badge-warning",
            BadgeVariant::Error => "domius-badge-error",
            BadgeVariant::Info => "domius-badge-info",
            BadgeVariant::Neutral => "domius-badge-neutral",
        }
    }
}

/// Badge size.
#[derive(Clone, Copy, PartialEq, Eq, Debug, Structural)]
pub enum BadgeSize {
    Sm,
    Md,
    Lg,
}

impl Default for BadgeSize {
    fn default() -> (r: Self)
        ensures
            r == BadgeSize::Md,
    {
        BadgeSize::Md
    }
}

impl BadgeSize {
    /// The size class.
    pub open spec fn class_text(self) -> Seq<char> {
        match self {
            BadgeSize::Sm => "domius-badge-sm"@,
            BadgeSize::Md => "domius-badge-md"@,
            BadgeSize::Lg => "domius-badge-lg"@,
        }
    }

    /// The size class.
    pub fn as_class(self) -> (r: &'static str)
        ensures
            r@ == self.class_text(),
    {
        match self {
            BadgeSize::Sm => "domius-badge-sm",
            BadgeSize::Md => "domius-badge-md",
            BadgeSize::Lg => "domius-badge-lg",
        }
    }
}

/// Props for the Badge component.
#[derive(Clone)]
pub struct BadgeProps {
    pub children: String,
    pub variant: BadgeVariant,
    pub size: BadgeSize,
    pub dot: bool,
    pub icon: Option<String>,
    pub class: Option<String>,
}

impl Default for BadgeProps {
    fn default() -> (r: Self)
        ensures
            r.children@.len() == 0,
            r.variant == BadgeVariant::Primary,
            r.size == BadgeSize::Md,
            !r.dot,
            r.icon is None,
            r.class is None,
    {
        BadgeProps {
            children: String::new(),
            variant: BadgeVariant::Primary,
            size: BadgeSize::Md,
            dot: false,
            icon: None,
            class: None,
        }
    }
}

/// The Badge component.
pub struct Badge;

/// The base classes of a badge.
pub open spec fn badge_class_list(variant: BadgeVariant, size: BadgeSize, dot: bool) -> Seq<Seq<char>> {
    let base = seq!["domius-badge"@, variant.class_text(), size.class_text()];
    if dot { base.push("domius-badge-dot"@) } else { base }
}

/// Class names of a badge.
pub fn badge_classes(variant: BadgeVariant, size: BadgeSize, dot: bool, class: &Option<String>) -> (r: String)
    ensures
        r@ == spaced(with_extra(badge_class_list(variant, size, dot), *class)),
{
    let mut parts: Vec<String> = Vec::new();
    parts.push("domius-badge".to_owned());
    parts.push(variant.as_class().to_owned());
    parts.push(size.as_class().to_owned());
    if dot {
        parts.push("domius-badge-dot".to_owned());
    }
    assert(strs(parts@) =~= badge_class_list(variant, size, dot));
    push_extra(&mut parts, class);
    class_names(&parts)
}

} // verus!

//! Skeleton: a placeholder shown while content loads.
use vstd::prelude::*;
use crate::text::push_str;
use crate::web::{class_names, push_extra, spaced, strs, with_extra};

verus! {

/// Skeleton variant.
#[derive(Clone, Copy, PartialEq, Eq, Debug, Structural)]
pub enum SkeletonVariant {
    Text,
    Circular,
    Rectangular,
    Rounded,
}

impl Default for SkeletonVariant {
    fn default() -> (r: Self)
        ensures
            r == SkeletonVariant::Text,
    {
        SkeletonVariant::Text
    }
}

/// Skeleton animation.
#[derive(Clone, Copy, PartialEq, Eq, Debug, Structural)]
pub enum SkeletonAnimation {
    Pulse,
    Wave,
    /// No animation.
    Still,
}

impl Default for SkeletonAnimation {
    fn default() -> (r: Self)
        ensures
            r == SkeletonAnimation::Pulse,
    {
        SkeletonAnimation::Pulse
    }
}

/// Props for the Skeleton component.
#[derive(Clone)]
pub struct SkeletonProps {
    pub variant: SkeletonVariant,
    pub width: Option<String>,
    pub height: Option<String>,
    pub animation: SkeletonAnimation,
    pub lines: Option<usize>,
    pub class: Option<String>,
}

impl Default for SkeletonProps {
    fn default() -> (r: Self)
        ensures
            r.variant == SkeletonVariant::Text,
            r.width is None,
            r.height is None,
            r.animation == SkeletonAnimation::Pulse,
            r.lines is None,
            r.class is None,
    {
        SkeletonProps {
            variant: SkeletonVariant::Text,
            width: None,
            height: None,
            animation: SkeletonAnimation::Pulse,
            lines: None,
            class: None,
        }
    }
}

/// The Skeleton component.
pub struct Skeleton;

/// The shape class of a variant drawn as one block.
pub open spec fn shape_class(variant: SkeletonVariant) -> Seq<char> {
    match variant {
        SkeletonVariant::Circular => "domius-skeleton-circular"@,
        SkeletonVariant::Rounded => "domius-skeleton-rounded"@,
        SkeletonVariant::Rectangular => "domius-skeleton-rectangular"@,
        SkeletonVariant::Text => "domius-skeleton-text-line"@,
    }
}

/// The base classes of a skeleton block (one line, for text), with the
/// animation's class unless it is still.
pub open spec fn block_class_list(variant: SkeletonVariant, animation: SkeletonAnimation) -> Seq<Seq<char>> {
    let base = seq!["domius-skeleton"@, shape_class(variant)];
    match animation {
        SkeletonAnimation::Pulse => base.push("domius-skeleton-pulse"@),
        SkeletonAnimation::Wave => base.push("domius-skeleton-wave"@),
        SkeletonAnimation::Still => base,
    }
}

fn block_parts(variant: SkeletonVariant, animation: SkeletonAnimation) -> (r: Vec<String>)
    ensures
        strs(r@) == block_class_list(variant, animation),
{
    let mut parts: Vec<String> = Vec::new();
    parts.push("domius-skeleton".to_owned());
    let shape = match variant {
        SkeletonVariant::Circular => "domius-skeleton-circular".to_owned(),
        SkeletonVariant::Rounded => "domius-skeleton-rounded".to_owned(),
        SkeletonVariant::Rectangular => "domius-skeleton-rectangular".to_owned(),
        SkeletonVariant::Text => "domius-skeleton-text-line".to_owned(),
    };
    parts.push(shape);
    match animation {
        SkeletonAnimation::Pulse => parts.push("domius-skeleton-pulse".to_owned()),
        SkeletonAnimation::Wave => parts.push("domius-skeleton-wave".to_owned()),
        SkeletonAnimation::Still => {},
    }
    assert(strs(parts@) =~= block_class_list(variant, animation));
    parts
}

/// Class names of a circular, rectangular or rounded skeleton.
pub fn block_classes(variant: SkeletonVariant, animation: SkeletonAnimation, class: &Option<String>) -> (r: String)
    ensures
        r@ == spaced(with_extra(block_class_list(variant, animation), *class)),
{
    let mut parts = block_parts(variant, animation);
    push_extra(&mut parts, class);
    class_names(&parts)
}

/// Class names of one line of a text skeleton.
pub fn line_classes(animation: SkeletonAnimation) -> (r: String)
    ensures
        r@ == spaced(block_class_list(SkeletonVariant::Text, animation)),
{
    let parts = block_parts(SkeletonVariant::Text, animation);
    class_names(&parts)
}

/// The style of a circular skeleton: its height, 40px when none is given,
/// on both sides.
pub fn circle_style(height: &Option<String>) -> (r: String)
    ensures
        r@ == {
            let size = match height {
                Some(h) => h@,
                None => "40px"@,
            };
            "width: "@ + size + "; height: "@ + size + ";"@
        },
{
    let size = match height {
        Some(h) => h.clone(),
        None => "40px".to_owned(),
    };
    let mut r = String::new();
    push_str(&mut r, "width: ");
    push_str(&mut r, size.as_str());
    push_str(&mut r, "; height: ");
    push_str(&mut r, size.as_str());
    push_str(&mut r, ";");
    r
}

/// The style of a rectangular or rounded skeleton; `None` when neither side
/// is given.
pub fn box_style(width: &Option<String>, height: &Option<String>) -> (r: Option<String>)
    ensures
        r matches Some(s) ==> s@ == match (width, height) {
            (Some(w), Some(h)) => "width: "@ + w@ + "; "@ + "height: "@ + h@,
            (Some(w), None) => "width: "@ + w@,
            (None, Some(h)) => "height: "@ + h@,
            (None, None) => Seq::<char>::empty(),
        },
        (width is Some || height is Some) == (r is Some),
{
    let mut s = String::new();
    let mut any = false;
    if let Some(w) = width {
        push_str(&mut s, "width: ");
        push_str(&mut s, w.as_str());
        any = true;
    }
    if let Some(h) = height {
        if any {
            push_str(&mut s, "; ");
        }
        push_str(&mut s, "height: ");
        push_str(&mut s, h.as_str());
        any = true;
    }
    if any { Some(s) } else { None }
}

/// The number of lines of a text skeleton: one when none is given.
pub fn line_count(lines: Option<usize>) -> (r: usize)
    ensures
        r == (match lines {
            Some(n) => n,
            None => 1,
        }),
{
    match lines {
        Some(n) => n,
        None => 1,
    }
}

/// Whether line `index` of `lines` is drawn shorter: the last one, when
/// there are several.
pub fn is_short_line(index: usize, lines: usize) -> (r: bool)
    ensures
        r == (lines > 1 && index + 1 == lines),
{
    lines > 1 && index == lines - 1
}

} // verus!

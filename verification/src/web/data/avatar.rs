//! Avatar: a user's picture or initials, and stacks of avatars.
use vstd::prelude::*;
use crate::scaffold::{char_to_uppercase, uppercase_of};
use crate::text::{chars_of, decimal, is_whitespace, is_ws, push_decimal, push_str, string_of, extend_chars};
use crate::web::{class_names, push_extra, spaced, strs, with_extra};

verus! {

/// Avatar size.
#[derive(Clone, Copy, PartialEq, Eq, Debug, Structural)]
pub enum AvatarSize {
    Xs,
    Sm,
    Md,
    Lg,
    Xl,
}

impl Default for AvatarSize {
    fn default() -> (r: Self)
        ensures
            r == AvatarSize::Md,
    {
        AvatarSize::Md
    }
}

impl AvatarSize {
    /// The size class.
    pub open spec fn class_text(self) -> Seq<char> {
        match self {
            AvatarSize::Xs => "domius-avatar-xs"@,
            AvatarSize::Sm => "domius-avatar-sm"@,
            AvatarSize::Md => "domius-avatar-md"@,
            AvatarSize::Lg => "domius-avatar-lg"@,
            AvatarSize::Xl => "domius-avatar-xl"@,
        }
    }

    /// The size class.
    pub fn as_class(self) -> (r: &'static str)
        ensures
            r@ == self.class_text(),
    {
        match self {
            AvatarSize::Xs => "domius-avatar-xs",
            AvatarSize::Sm => "domius-avatar-sm",
            AvatarSize::Md => "domius-avatar-md",
            AvatarSize::Lg => "domius-avatar-lg",
            AvatarSize::Xl => "domius-avatar-xl",
        }
    }
}

/// Avatar shape.
#[derive(Clone, Copy, PartialEq, Eq, Debug, Structural)]
pub enum AvatarShape {
    Circle,
    Square,
    Rounded,
}

impl Default for AvatarShape {
    fn default() -> (r: Self)
        ensures
            r == AvatarShape::Circle,
    {
        AvatarShape::Circle
    }
}

impl AvatarShape {
    /// The shape class.
    pub open spec fn class_text(self) -> Seq<char> {
        match self {
            AvatarShape::Circle => "domius-avatar-circle"@,
            AvatarShape::Square => "domius-avatar-square"@,
            AvatarShape::Rounded => "domius-avatar-rounded"@,
        }
    }

    /// The shape class.
    pub fn as_class(self) -> (r: &'static str)
        ensures
            r@ == self.class_text(),
    {
        match self {
            AvatarShape::Circle => "domius-avatar-circle",
            AvatarShape::Square => "domius-avatar-square",
            AvatarShape::Rounded => "domius-avatar-rounded",
        }
    }
}

/// Props for the Avatar component.
#[derive(Clone)]
pub struct AvatarProps {
    pub src: Option<String>,
    pub alt: Option<String>,
    pub name: Option<String>,
    pub size: AvatarSize,
    pub shape: AvatarShape,
    pub class: Option<String>,
}

impl Default for AvatarProps {
    fn default() -> (r: Self)
        ensures
            r.src is None,
            r.alt is None,
            r.name is None,
            r.size == AvatarSize::Md,
            r.shape == AvatarShape::Circle,
            r.class is None,
    {
        AvatarProps { src: None, alt: None, name: None, size: AvatarSize::Md, shape: AvatarShape::Circle, class: None }
    }
}

/// The Avatar component.
pub struct Avatar;

/// Class names of an avatar.
pub fn avatar_classes(size: AvatarSize, shape: AvatarShape, class: &Option<String>) -> (r: String)
    ensures
        r@ == spaced(with_extra(seq!["domius-avatar"@, size.class_text(), shape.class_text()], *class)),
{
    let mut parts: Vec<String> = Vec::new();
    parts.push("domius-avatar".to_owned());
    parts.push(size.as_class().to_owned());
    parts.push(shape.as_class().to_owned());
    assert(strs(parts@) =~= seq!["domius-avatar"@, size.class_text(), shape.class_text()]);
    push_extra(&mut parts, class);
    class_names(&parts)
}

/// The first character of each whitespace-separated word of `s`.
pub open spec fn word_starts(s: Seq<char>) -> Seq<char>
    decreases s.len(),
{
    if s.len() == 0 {
        Seq::empty()
    } else {
        let i = s.len() - 1;
        let before = word_starts(s.drop_last());
        if !is_ws(s[i]) && (i == 0 || is_ws(s[i - 1])) {
            before.push(s[i])
        } else {
            before
        }
    }
}

/// The upper-case forms of `cs`, one after another.
pub open spec fn upper_all(cs: Seq<char>) -> Seq<char>
    decreases cs.len(),
{
    if cs.len() == 0 {
        Seq::empty()
    } else {
        upper_all(cs.drop_last()) + uppercase_of(cs.last())
    }
}

/// The initials of a name: the first characters of its first two words,
/// in upper case.
pub open spec fn initials_of(name: Seq<char>) -> Seq<char> {
    let starts = word_starts(name);
    upper_all(if starts.len() > 2 { starts.take(2) } else { starts })
}

/// The initials shown for a name.
pub fn initials(name: &String) -> (r: String)
    ensures
        r@ == initials_of(name@),
{
    let cs = chars_of(name.as_str());
    let mut starts: Vec<char> = Vec::new();
    let mut i: usize = 0;
    while i < cs.len()
        invariant
            i <= cs@.len(),
            starts@ == word_starts(cs@.take(i as int)),
        decreases cs@.len() - i,
    {
        let ghost t = cs@.take(i + 1);
        assert(t.drop_last() =~= cs@.take(i as int));
        let starts_word = !is_whitespace(cs[i]) && (i == 0 || is_whitespace(cs[i - 1]));
        if starts_word {
            starts.push(cs[i]);
        }
        i = i + 1;
    }
    assert(cs@.take(cs@.len() as int) =~= cs@);
    let ghost all = starts@;
    let keep: usize = if starts.len() > 2 { 2 } else { starts.len() };
    let ghost kept = if all.len() > 2 { all.take(2) } else { all };
    assert(all.take(keep as int) =~= kept);
    let mut out: Vec<char> = Vec::new();
    let mut k: usize = 0;
    while k < keep
        invariant
            k <= keep,
            keep <= starts@.len(),
            starts@ == all,
            out@ == upper_all(all.take(k as int)),
        decreases keep - k,
    {
        assert(all.take(k + 1).drop_last() =~= all.take(k as int));
        let up = char_to_uppercase(starts[k]);
        extend_chars(&mut out, &up);
        k = k + 1;
    }
    string_of(&out)
}

/// Props for the AvatarGroup component.
#[derive(Clone)]
pub struct AvatarGroupProps {
    pub avatars: Vec<AvatarProps>,
    pub max_visible: usize,
    pub size: AvatarSize,
    pub overlap: bool,
    pub class: Option<String>,
}

impl Default for AvatarGroupProps {
    fn default() -> (r: Self)
        ensures
            r.avatars@.len() == 0,
            r.max_visible == 4,
            r.size == AvatarSize::Md,
            r.overlap,
            r.class is None,
    {
        AvatarGroupProps { avatars: Vec::new(), max_visible: 4, size: AvatarSize::Md, overlap: true, class: None }
    }
}

/// The AvatarGroup component.
pub struct AvatarGroup;

/// How many of `count` avatars are drawn, and how many the "+N" marker
/// stands for.
pub fn group_counts(count: usize, max_visible: usize) -> (r: (usize, usize))
    ensures
        r.0 == (if count < max_visible { count } else { max_visible }),
        r.1 == (if count > max_visible { count - max_visible } else { 0 }),
        r.0 + r.1 == count,
{
    let shown = if count < max_visible { count } else { max_visible };
    let rest = count.saturating_sub(max_visible);
    (shown, rest)
}

/// The text of the marker for `remaining` hidden avatars.
pub fn remaining_text(remaining: usize) -> (r: String)
    ensures
        r@ == "+"@ + decimal(remaining as nat),
{
    let mut r = String::new();
    push_str(&mut r, "+");
    push_decimal(&mut r, remaining);
    r
}

} // verus!

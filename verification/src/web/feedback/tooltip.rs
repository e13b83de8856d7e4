//! Tooltip: a hint shown on hover and on focus.
use vstd::prelude::*;
use crate::text::{decimal, push_decimal_u64, push_str};
use crate::web::{class_names, push_extra, spaced, strs, with_extra};

verus! {

/// Where the hint sits relative to its trigger.
#[derive(Clone, Copy, PartialEq, Eq, Debug, Structural)]
pub enum TooltipPosition {
    Top,
    Bottom,
    Left,
    Right,
    TopStart,
    TopEnd,
    BottomStart,
    BottomEnd,
}

impl TooltipPosition {
    /// The token of the position.
    pub open spec fn token_text(self) -> Seq<char> {
        match self {
            TooltipPosition::Top => "top"@,
            TooltipPosition::Bottom => "bottom"@,
            TooltipPosition::Left => "left"@,
            TooltipPosition::Right => "right"@,
            TooltipPosition::TopStart => "top-start"@,
            TooltipPosition::TopEnd => "top-end"@,
            TooltipPosition::BottomStart => "bottom-start"@,
            TooltipPosition::BottomEnd => "bottom-end"@,
        }
    }

    /// The token of the position.
    pub fn token(&self) -> (r: &'static str)
        ensures
            r@ == self.token_text(),
    {
        match self {
            TooltipPosition::Top => "top",
            TooltipPosition::Bottom => "bottom",
            TooltipPosition::Left => "left",
            TooltipPosition::Right => "right",
            TooltipPosition::TopStart => "top-start",
            TooltipPosition::TopEnd => "top-end",
            TooltipPosition::BottomStart => "bottom-start",
            TooltipPosition::BottomEnd => "bottom-end",
        }
    }
}

impl Default for TooltipPosition {
    fn default() -> (r: Self)
        ensures
            r == TooltipPosition::Top,
    {
        TooltipPosition::Top
    }
}

/// The Tooltip component.
pub struct Tooltip;

/// The number after `n` in a sequence that wraps to 0 past `u32::MAX`.
pub open spec fn following(n: u32) -> u32 {
    if n == u32::MAX { 0 } else { (n + 1) as u32 }
}

/// Advance the tooltip sequence and return the id it gives: ids are unique
/// so that `aria-describedby` points at one hint.
pub fn next_tooltip_id(sequence: &mut u32) -> (r: String)
    ensures
        *final(sequence) == following(*old(sequence)),
        r@ == "domius-tooltip-"@ + decimal(*final(sequence) as nat),
{
    let next = sequence.wrapping_add(1);
    *sequence = next;
    let mut r = String::new();
    push_str(&mut r, "domius-tooltip-");
    push_decimal_u64(&mut r, next as u64);
    r
}

/// Class names of a hint.
pub fn hint_classes(position: TooltipPosition, class: &Option<String>) -> (r: String)
    ensures
        r@ == spaced(with_extra(seq!["domius-tooltip"@, "domius-tooltip-"@ + position.token_text()], *class)),
{
    let mut parts: Vec<String> = Vec::new();
    parts.push("domius-tooltip".to_owned());
    let mut p = "domius-tooltip-".to_owned();
    push_str(&mut p, position.token());
    parts.push(p);
    assert(strs(parts@) =~= seq!["domius-tooltip"@, "domius-tooltip-"@ + position.token_text()]);
    push_extra(&mut parts, class);
    class_names(&parts)
}

/// What an event does to the hint.
#[derive(Clone, Copy, PartialEq, Eq, Debug, Structural)]
pub enum Visibility {
    /// Show the hint after this many milliseconds (at once for 0).
    Show(u64),
    Hide,
}

/// What each trigger event does: hover shows after the delay, focus shows
/// at once, leaving either hides.
pub open spec fn event_visibility_of(event: Seq<char>, delay: u64) -> Option<Visibility> {
    if event == "mouseenter"@ {
        Some(Visibility::Show(delay))
    } else if event == "focusin"@ {
        Some(Visibility::Show(0))
    } else if event == "mouseleave"@ || event == "focusout"@ {
        Some(Visibility::Hide)
    } else {
        None
    }
}

/// Entering the trigger with the pointer shows the hint after the delay,
/// focusing it shows the hint at once, and leaving it either way hides the
/// hint, whatever the delay; no other event changes anything.
pub proof fn lemma_trigger_events(event: Seq<char>, delay: u64)
    ensures
        event == "mouseenter"@ ==> event_visibility_of(event, delay) == Some(Visibility::Show(delay)),
        event == "focusin"@ ==> event_visibility_of(event, delay) == Some(Visibility::Show(0)),
        event == "mouseleave"@ || event == "focusout"@ ==> event_visibility_of(event, delay) == Some(Visibility::Hide),
        !(event == "mouseenter"@ || event == "focusin"@ || event == "mouseleave"@ || event == "focusout"@)
            ==> event_visibility_of(event, delay) is None,
{
    reveal_strlit("mouseenter");
    reveal_strlit("focusin");
    reveal_strlit("mouseleave");
    reveal_strlit("focusout");
    if event == "focusin"@ || event == "focusout"@ {
        assert(event[0] == 'f');
    }
    if event == "mouseleave"@ {
        assert(event[5] == 'l');
        assert(event != "mouseenter"@);
        assert(event != "focusin"@);
    }
    if event == "focusout"@ {
        assert(event.len() == 8);
        assert(event != "mouseenter"@);
        assert(event != "focusin"@);
    }
}

/// What the trigger event `event` does to the hint.
pub fn event_visibility(event: &String, delay: u64) -> (r: Option<Visibility>)
    ensures
        r == event_visibility_of(event@, delay),
{
    if *event == "mouseenter".to_owned() {
        Some(Visibility::Show(delay))
    } else if *event == "focusin".to_owned() {
        Some(Visibility::Show(0))
    } else if *event == "mouseleave".to_owned() || *event == "focusout".to_owned() {
        Some(Visibility::Hide)
    } else {
        None
    }
}

/// `tag` spells the same letters as `lower`, each letter in either case
/// (`upper` holds the word's letters in upper case).
pub open spec fn same_word(tag: Seq<char>, lower: Seq<char>, upper: Seq<char>) -> bool {
    tag.len() == lower.len() && forall|i: int| 0 <= i < tag.len() ==> tag[i] == lower[i] || tag[i] == upper[i]
}

/// Whether `tag` names, in any ASCII case, one of the elements that take
/// focus without a tabindex.
pub open spec fn focusable_tag(tag: Seq<char>) -> bool {
    same_word(tag, "a"@, "A"@) || same_word(tag, "button"@, "BUTTON"@) || same_word(tag, "input"@, "INPUT"@)
        || same_word(tag, "select"@, "SELECT"@) || same_word(tag, "textarea"@, "TEXTAREA"@) || same_word(
        tag,
        "summary"@,
        "SUMMARY"@,
    )
}

fn is_word(tag: &Vec<char>, lower: &str, upper: &str) -> (r: bool)
    requires
        lower@.len() == upper@.len(),
    ensures
        r == same_word(tag@, lower@, upper@),
{
    let lo = crate::text::chars_of(lower);
    let up = crate::text::chars_of(upper);
    if tag.len() != lo.len() {
        return false;
    }
    let mut i: usize = 0;
    while i < tag.len()
        invariant
            i <= tag@.len(),
            tag@.len() == lo@.len(),
            lo@.len() == up@.len(),
            lo@ == lower@,
            up@ == upper@,
            forall|j: int| 0 <= j < i ==> tag@[j] == lo@[j] || tag@[j] == up@[j],
        decreases tag@.len() - i,
    {
        if tag[i] != lo[i] && tag[i] != up[i] {
            return false;
        }
        i = i + 1;
    }
    true
}

/// Whether an element takes focus already: it has a tabindex or is a
/// natively focusable element.
pub fn is_focusable(has_tabindex: bool, tag: &String) -> (r: bool)
    ensures
        r == (has_tabindex || focusable_tag(tag@)),
{
    if has_tabindex {
        return true;
    }
    proof {
        reveal_strlit("a");
        reveal_strlit("A");
        reveal_strlit("button");
        reveal_strlit("BUTTON");
        reveal_strlit("input");
        reveal_strlit("INPUT");
        reveal_strlit("select");
        reveal_strlit("SELECT");
        reveal_strlit("textarea");
        reveal_strlit("TEXTAREA");
        reveal_strlit("summary");
        reveal_strlit("SUMMARY");
    }
    let cs = crate::text::chars_of(tag.as_str());
    is_word(&cs, "a", "A") || is_word(&cs, "button", "BUTTON") || is_word(&cs, "input", "INPUT") || is_word(
        &cs,
        "select",
        "SELECT",
    ) || is_word(&cs, "textarea", "TEXTAREA") || is_word(&cs, "summary", "SUMMARY")
}


/// Two consecutive tooltips never share a number, and the number repeats
/// only after it wrapped around.
pub proof fn lemma_next_number_differs(n: u32)
    ensures
        following(n) != n,
        n < u32::MAX ==> following(n) > n,
{
}

} // verus!

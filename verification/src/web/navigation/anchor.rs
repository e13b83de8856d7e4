//! Anchor: a table of contents that follows the section being read.
use vstd::prelude::*;
use crate::text::{chars_of, decimal, push_decimal_u64, push_str, string_of};
use crate::web::{class_names, push_extra, spaced, strs, with_extra};

verus! {

/// One entry of the anchor list.
#[derive(Clone)]
pub struct AnchorLink {
    pub href: String,
    pub title: String,
}

impl Default for AnchorLink {
    fn default() -> (r: Self)
        ensures
            r.href@.len() == 0,
            r.title@.len() == 0,
    {
        AnchorLink { href: String::new(), title: String::new() }
    }
}

/// Props for an anchor list.
#[derive(Clone)]
pub struct AnchorProps {
    /// Anchor links
    pub links: Vec<AnchorLink>,
    /// CSS class
    pub class: Option<String>,
    /// Offset from top (in px)
    pub offset_top: u32,
    /// Show boundary indicator line
    pub show_boundary: bool,
    /// Scroll container target
    pub target_container: Option<String>,
}

impl Default for AnchorProps {
    fn default() -> (r: Self)
        ensures
            r.links@.len() == 0,
            r.class is None,
            r.offset_top == 0,
            !r.show_boundary,
            r.target_container is None,
    {
        AnchorProps { links: Vec::new(), class: None, offset_top: 0, show_boundary: false, target_container: None }
    }
}

/// Class names of the anchor landmark.
pub fn anchor_classes(class: &Option<String>) -> (r: String)
    ensures
        r@ == spaced(with_extra(seq!["anchor"@], *class)),
{
    let mut parts: Vec<String> = Vec::new();
    parts.push("anchor".to_owned());
    assert(strs(parts@) =~= seq!["anchor"@]);
    push_extra(&mut parts, class);
    class_names(&parts)
}

/// The `data-offset-top` value.
pub fn offset_text(offset_top: u32) -> (r: String)
    ensures
        r@ == decimal(offset_top as nat),
{
    let mut r = String::new();
    push_decimal_u64(&mut r, offset_top as u64);
    r
}

/// The id of the section a link targets: its href after a leading "#".
pub open spec fn section_id_of(href: Seq<char>) -> Option<Seq<char>> {
    if href.len() > 0 && href[0] == '#' { Some(href.drop_first()) } else { None }
}

/// The id of the section a link targets, if it targets one on the page.
pub fn section_id(href: &String) -> (r: Option<String>)
    ensures
        match r {
            Some(id) => section_id_of(href@) == Some(id@),
            None => section_id_of(href@) is None,
        },
{
    let cs = chars_of(href.as_str());
    if cs.len() > 0 && cs[0] == '#' {
        let mut rest: Vec<char> = Vec::new();
        let mut i: usize = 1;
        while i < cs.len()
            invariant
                1 <= i <= cs@.len(),
                rest@ == cs@.subrange(1, i as int),
            decreases cs@.len() - i,
        {
            rest.push(cs[i]);
            i = i + 1;
        }
        assert(rest@ =~= href@.drop_first());
        Some(string_of(&rest))
    } else {
        None
    }
}

/// The entry being read: the last whose section top the reader has
/// reached (`reached[i]`), and the first entry before any is reached.
pub open spec fn current_entry(reached: Seq<bool>) -> int
    decreases reached.len(),
{
    if reached.len() == 0 {
        0
    } else if reached.last() {
        reached.len() - 1
    } else {
        current_entry(reached.drop_last())
    }
}

/// The index of the entry being read.
pub fn current_index(reached: &Vec<bool>) -> (r: Option<usize>)
    ensures
        r == Some(current_entry(reached@) as usize),
{
    let mut current: usize = 0;
    let mut i: usize = 0;
    while i < reached.len()
        invariant
            i <= reached@.len(),
            current as int == current_entry(reached@.take(i as int)),
        decreases reached@.len() - i,
    {
        assert(reached@.take(i + 1).drop_last() =~= reached@.take(i as int));
        if reached[i] {
            current = i;
        }
        i = i + 1;
    }
    assert(reached@.take(reached@.len() as int) =~= reached@);
    Some(current)
}

} // verus!

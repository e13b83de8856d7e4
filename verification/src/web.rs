//! UI components for the browser: their props, their tokens and the
//! computations that decide what each component shows. Building DOM nodes
//! from these results is left to the host.
use vstd::prelude::*;
use crate::scaffold::{char_to_uppercase, uppercase_of};
use crate::text::{join, push_str, string_of};

pub mod data;
pub mod feedback;
pub mod forms;
pub mod media;
pub mod navigation;

verus! {

/// A callback that a component calls with one argument.
pub trait Handler<A> {
    /// Deliver `arg` to the callback.
    fn call(&self, arg: A);
}

/// A callback that a component calls without an argument.
pub trait Action {
    /// Run the callback.
    fn run(&self);
}

/// The character sequences of some strings.
pub open spec fn strs(v: Seq<String>) -> Seq<Seq<char>> {
    Seq::new(v.len(), |i: int| v[i]@)
}

/// Class names separated by single spaces (`classes.join(" ")`).
pub open spec fn spaced(parts: Seq<Seq<char>>) -> Seq<char> {
    join(parts, seq![' '])
}

/// `parts`, followed by the caller's extra class when there is one.
pub open spec fn with_extra(parts: Seq<Seq<char>>, class: Option<String>) -> Seq<Seq<char>> {
    match class {
        Some(c) => parts.push(c@),
        None => parts,
    }
}

/// Join class names with single spaces.
pub fn class_names(parts: &Vec<String>) -> (r: String)
    ensures
        r@ == spaced(strs(parts@)),
{
    let mut r = String::new();
    let mut i: usize = 0;
    while i < parts.len()
        invariant
            i <= parts.len(),
            r@ == spaced(strs(parts@.take(i as int))),
        decreases parts.len() - i,
    {
        let ghost before = strs(parts@.take(i as int));
        let ghost after = strs(parts@.take(i + 1));
        assert(after.drop_last() =~= before);
        assert(after.last() == parts@[i as int]@);
        if i > 0 {
            push_str(&mut r, " ");
            proof {
                reveal_strlit(" ");
            }
        } else {
            assert(after.len() == 1);
        }
        push_str(&mut r, parts[i].as_str());
        i = i + 1;
    }
    assert(parts@.take(parts.len() as int) =~= parts@);
    r
}

/// Append the caller's extra class, if any, to a list of class names.
pub fn push_extra(parts: &mut Vec<String>, class: &Option<String>)
    ensures
        strs(final(parts)@) == with_extra(strs(old(parts)@), *class),
{
    let ghost before = strs(parts@);
    if let Some(c) = class {
        parts.push(c.clone());
        assert(strs(parts@) =~= before.push(c@));
    } else {
        assert(strs(parts@) =~= before);
    }
}


/// The initial shown for a name: its first character in upper case, or
/// "?" for an empty name.
pub open spec fn initial_of(name: Seq<char>) -> Seq<char> {
    uppercase_of(if name.len() > 0 { name[0] } else { '?' })
}

/// The initial shown in place of a missing avatar.
pub fn initial(name: &String) -> (r: String)
    ensures
        r@ == initial_of(name@),
{
    let chars = crate::text::chars_of(name.as_str());
    let c = if chars.len() > 0 { chars[0] } else { '?' };
    string_of(&char_to_uppercase(c))
}

} // verus!

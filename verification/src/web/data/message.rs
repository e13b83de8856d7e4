//! Messages: chat bubbles and the chat container.
use vstd::prelude::*;
use crate::web::{class_names, push_extra, spaced, strs, with_extra};

verus! {

/// Which side a message sits on.
#[derive(Clone, Copy, PartialEq, Eq, Debug, Structural)]
pub enum MessagePosition {
    Left,
    Right,
}

impl Default for MessagePosition {
    fn default() -> (r: Self)
        ensures
            r == MessagePosition::Left,
    {
        MessagePosition::Left
    }
}

/// Props for a message.
#[derive(Clone)]
pub struct MessageProps {
    /// Message text
    pub text: String,
    /// Sender name
    pub sender: Option<String>,
    /// Avatar URL
    pub avatar: Option<String>,
    /// Message position
    pub position: MessagePosition,
    /// CSS class
    pub class: Option<String>,
    /// Timestamp
    pub timestamp: Option<String>,
    /// Read status
    pub read: bool,
}

impl Default for MessageProps {
    fn default() -> (r: Self)
        ensures
            r.text@.len() == 0,
            r.sender is None,
            r.avatar is None,
            r.position == MessagePosition::Left,
            r.class is None,
            r.timestamp is None,
            !r.read,
    {
        MessageProps {
            text: String::new(),
            sender: None,
            avatar: None,
            position: MessagePosition::Left,
            class: None,
            timestamp: None,
            read: false,
        }
    }
}

/// Props for the chat container.
#[derive(Clone)]
pub struct ChatProps {
    /// CSS class
    pub class: Option<String>,
    /// Chat title
    pub title: Option<String>,
}

impl Default for ChatProps {
    fn default() -> (r: Self)
        ensures
            r.class is None,
            r.title is None,
    {
        ChatProps { class: None, title: None }
    }
}

/// The side class of a message.
pub open spec fn side_class(position: MessagePosition) -> Seq<char> {
    match position {
        MessagePosition::Right => "message-right"@,
        MessagePosition::Left => "message-left"@,
    }
}

/// Class names of a message.
pub fn message_classes(position: MessagePosition, class: &Option<String>) -> (r: String)
    ensures
        r@ == spaced(with_extra(seq!["message"@, side_class(position)], *class)),
{
    let mut parts: Vec<String> = Vec::new();
    parts.push("message".to_owned());
    let side = match position {
        MessagePosition::Right => "message-right".to_owned(),
        MessagePosition::Left => "message-left".to_owned(),
    };
    parts.push(side);
    assert(strs(parts@) =~= seq!["message"@, side_class(position)]);
    push_extra(&mut parts, class);
    class_names(&parts)
}

/// A message shows the sender's avatar only on the left.
pub fn shows_avatar(position: MessagePosition) -> (r: bool)
    ensures
        r == (position == MessagePosition::Left),
{
    position == MessagePosition::Left
}

/// A message shows the read mark only when read and on the right.
pub fn shows_read_mark(props: &MessageProps) -> (r: bool)
    ensures
        r == (props.read && props.position == MessagePosition::Right),
{
    props.read && props.position == MessagePosition::Right
}

/// Class names of the chat container.
pub fn chat_classes(class: &Option<String>) -> (r: String)
    ensures
        r@ == spaced(with_extra(seq!["chat"@], *class)),
{
    let mut parts: Vec<String> = Vec::new();
    parts.push("chat".to_owned());
    assert(strs(parts@) =~= seq!["chat"@]);
    push_extra(&mut parts, class);
    class_names(&parts)
}

} // verus!

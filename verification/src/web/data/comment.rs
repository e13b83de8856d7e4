//! Comment: a comment with its author, actions, votes and replies.
use vstd::prelude::*;
use crate::text::{decimal, push_decimal, push_str};
use crate::web::{class_names, push_extra, spaced, strs, with_extra};

verus! {

/// An action offered under a comment.
#[derive(Clone)]
pub struct CommentAction {
    pub text: String,
    /// Identifier of the callback the action triggers.
    pub on_click: Option<String>,
}

/// Props for a comment.
pub struct CommentProps {
    /// Comment author name
    pub author: Option<String>,
    /// Author avatar URL
    pub avatar: Option<String>,
    /// Comment content
    pub content: String,
    /// Comment datetime
    pub datetime: Option<String>,
    /// CSS class
    pub class: Option<String>,
    /// Actions (reply, edit, delete, etc.)
    pub actions: Option<Vec<CommentAction>>,
    /// Nested replies
    pub children: Option<Vec<CommentProps>>,
    /// Upvote count
    pub upvotes: Option<u32>,
    /// Downvote count
    pub downvotes: Option<u32>,
}

impl Default for CommentProps {
    fn default() -> (r: Self)
        ensures
            r.author is None,
            r.avatar is None,
            r.content@.len() == 0,
            r.datetime is None,
            r.class is None,
            r.actions is None,
            r.children is None,
            r.upvotes is None,
            r.downvotes is None,
    {
        CommentProps {
            author: None,
            avatar: None,
            content: String::new(),
            datetime: None,
            class: None,
            actions: None,
            children: None,
            upvotes: None,
            downvotes: None,
        }
    }
}

/// Props for a list of comments.
pub struct CommentListProps {
    /// List of comments
    pub comments: Vec<CommentProps>,
    /// CSS class
    pub class: Option<String>,
    /// Header title
    pub header: Option<String>,
    /// Show comment count
    pub show_count: bool,
}

impl Default for CommentListProps {
    fn default() -> (r: Self)
        ensures
            r.comments@.len() == 0,
            r.class is None,
            r.header is None,
            !r.show_count,
    {
        CommentListProps { comments: Vec::new(), class: None, header: None, show_count: false }
    }
}

/// Class names of a comment.
pub fn comment_classes(class: &Option<String>) -> (r: String)
    ensures
        r@ == spaced(with_extra(seq!["comment"@], *class)),
{
    let mut parts: Vec<String> = Vec::new();
    parts.push("comment".to_owned());
    assert(strs(parts@) =~= seq!["comment"@]);
    push_extra(&mut parts, class);
    class_names(&parts)
}

/// Class names of a comment list.
pub fn comment_list_classes(class: &Option<String>) -> (r: String)
    ensures
        r@ == spaced(with_extra(seq!["comment-list"@], *class)),
{
    let mut parts: Vec<String> = Vec::new();
    parts.push("comment-list".to_owned());
    assert(strs(parts@) =~= seq!["comment-list"@]);
    push_extra(&mut parts, class);
    class_names(&parts)
}

/// Whether a comment shows a votes row.
pub fn has_votes(props: &CommentProps) -> (r: bool)
    ensures
        r == (props.upvotes is Some || props.downvotes is Some),
{
    props.upvotes.is_some() || props.downvotes.is_some()
}

/// Whether a comment list shows a header.
pub fn has_list_header(props: &CommentListProps) -> (r: bool)
    ensures
        r == (props.header is Some || props.show_count),
{
    props.header.is_some() || props.show_count
}

/// The count shown in a comment list header.
pub fn count_text(count: usize) -> (r: String)
    ensures
        r@ == decimal(count as nat) + " Comments"@,
{
    let mut r = String::new();
    push_decimal(&mut r, count);
    push_str(&mut r, " Comments");
    r
}

} // verus!

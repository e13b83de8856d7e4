//! TreeSelect: a select whose options form a tree.
use vstd::prelude::*;
use crate::text::{decimal, push_decimal, push_str};
use crate::web::{class_names, push_extra, spaced, strs, with_extra};

verus! {

/// A node of the option tree.
pub struct TreeNode {
    pub title: String,
    pub value: String,
    pub children: Option<Vec<TreeNode>>,
    pub disabled: bool,
}

/// Props for a tree select.
pub struct TreeSelectProps {
    /// Tree data
    pub tree_data: Option<Vec<TreeNode>>,
    /// CSS class
    pub class: Option<String>,
    /// Placeholder text
    pub placeholder: Option<String>,
    /// Multiple selection
    pub multiple: bool,
    /// Show search box
    pub show_search: bool,
    /// Disabled state
    pub disabled: bool,
    /// Default expanded keys
    pub default_expanded_keys: Option<Vec<String>>,
    /// Show checked strategy
    pub show_checked_strategy: Option<String>,
}

impl Default for TreeSelectProps {
    fn default() -> (r: Self)
        ensures
            r.tree_data is None,
            r.class is None,
            r.placeholder is None,
            !r.multiple,
            !r.show_search,
            !r.disabled,
            r.default_expanded_keys is None,
            r.show_checked_strategy is None,
    {
        TreeSelectProps {
            tree_data: None,
            class: None,
            placeholder: None,
            multiple: false,
            show_search: false,
            disabled: false,
            default_expanded_keys: None,
            show_checked_strategy: None,
        }
    }
}

/// The base classes of a tree select.
pub open spec fn treeselect_class_list(disabled: bool) -> Seq<Seq<char>> {
    if disabled {
        seq!["treeselect"@, "treeselect-disabled"@]
    } else {
        seq!["treeselect"@]
    }
}

/// Class names of a tree select.
pub fn treeselect_classes(disabled: bool, class: &Option<String>) -> (r: String)
    ensures
        r@ == spaced(with_extra(treeselect_class_list(disabled), *class)),
{
    let mut parts: Vec<String> = Vec::new();
    parts.push("treeselect".to_owned());
    if disabled {
        parts.push("treeselect-disabled".to_owned());
    }
    assert(strs(parts@) =~= treeselect_class_list(disabled));
    push_extra(&mut parts, class);
    class_names(&parts)
}

/// The style that indents a node at depth `level`: 20 pixels a level.
pub fn indent_style(level: usize) -> (r: String)
    requires
        level * 20 <= usize::MAX,
    ensures
        r@ == "width: "@ + decimal((level * 20) as nat) + "px;"@,
{
    let mut r = String::new();
    push_str(&mut r, "width: ");
    push_decimal(&mut r, level * 20);
    push_str(&mut r, "px;");
    r
}

} // verus!

//! TreeView: hierarchical data.
use vstd::prelude::*;
use crate::signal::Signal;
use crate::web::Handler;

verus! {

/// A node of the tree.
pub struct TreeNode {
    pub id: String,
    pub label: String,
    pub children: Vec<TreeNode>,
    pub expanded: bool,
    pub selectable: bool,
    pub icon: Option<String>,
    pub disabled: bool,
}

/// Props for the TreeView component.
pub struct TreeViewProps {
    pub nodes: Vec<TreeNode>,
    pub selectable: bool,
    pub multi_select: bool,
    pub expandable: bool,
    pub default_expanded: bool,
    /// A signal holding the selected node ids.
    pub selected_ids: Option<Signal>,
    pub on_select: Option<Box<dyn Handler<String>>>,
    /// Called with a node id and whether the node is now expanded.
    pub on_expand: Option<Box<dyn Handler<(String, bool)>>>,
    pub class: Option<String>,
}

impl Default for TreeViewProps {
    fn default() -> (r: Self)
        ensures
            r.nodes@.len() == 0,
            r.selectable,
            !r.multi_select,
            r.expandable,
            !r.default_expanded,
            r.selected_ids is None,
            r.on_select is None,
            r.on_expand is None,
            r.class is None,
    {
        TreeViewProps {
            nodes: Vec::new(),
            selectable: true,
            multi_select: false,
            expandable: true,
            default_expanded: false,
            selected_ids: None,
            on_select: None,
            on_expand: None,
            class: None,
        }
    }
}

/// The TreeView component.
pub struct TreeView;

} // verus!

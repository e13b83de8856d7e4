//! Form inputs.
pub mod autocomplete;
pub mod date_picker;
pub mod file_uploader;
pub mod input_mask;
pub mod multi_select;
pub mod rich_text;
pub mod select;
pub mod slider;
pub mod switch;
pub mod treeselect;
pub mod upload;

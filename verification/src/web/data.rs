//! Components that display data.
pub mod avatar;
pub mod badge;
pub mod carousel;
pub mod charts;
pub mod comment;
pub mod message;
pub mod statistic;
pub mod table;
pub mod timeline;
pub mod tree_view;

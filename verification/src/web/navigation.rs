//! Navigation components.
pub mod accordion;
pub mod anchor;
pub mod breadcrumbs;
pub mod drawer;
pub mod navbar;
pub mod pagination;
pub mod stepper;
pub mod tabs;

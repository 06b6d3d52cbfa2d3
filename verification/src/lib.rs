//! Analysis engine for component-based UI templates: a component index,
//! an offset-driven syntax-tree navigator, and the completion and
//! definition logic built on them.

pub mod geometry;
pub mod syntax;
pub mod component;
pub mod text;
pub mod completion;
pub mod definition;
pub mod extract;
pub mod parse;
pub mod analyzer;
pub mod store;

//! The rules behind each command of the tool.

pub mod clone;
pub mod ls;
pub mod view;

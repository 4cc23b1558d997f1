//! A registry of environment-variable switches grouped into categories.

pub mod switch;
pub mod render;
pub mod command;
pub mod store;
pub mod laws;
pub mod opt;

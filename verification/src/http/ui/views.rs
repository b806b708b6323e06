//! The pages, one module each.

pub mod error;
pub mod home;
pub mod node;

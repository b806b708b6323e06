//! The pages that the collector serves, and what they are made of.

pub mod components;
pub mod helpers;
pub mod layout;
pub mod models;
pub mod styles;
pub mod templates;
pub mod views;

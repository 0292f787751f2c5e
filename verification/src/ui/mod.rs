//! The user interface: keys, actions, and what is drawn.

pub mod action;
pub mod binary;
pub mod content;
pub mod frame;
pub mod geometry;
pub mod highlight;
pub mod key;
pub mod key_name;
pub mod laws;
pub mod layout;
pub mod popup;
pub mod screen;
pub mod stage;
pub mod style;
pub mod utils;

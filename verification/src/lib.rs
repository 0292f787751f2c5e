//! The logic of a terminal application to edit command pipelines.

pub mod app;
pub mod bytes;
pub mod event_laws;
pub mod event_loop;
pub mod id_generator;
pub mod input;
pub mod key_laws;
pub mod laws;
pub mod options;
pub mod parser;
pub mod pipeline;
pub mod text;
pub mod ui;

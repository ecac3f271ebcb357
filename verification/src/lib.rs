pub mod text;
pub mod types;
pub mod query;
pub mod input;
pub mod app;
pub mod config;
pub mod editor;
pub mod engine;
pub mod args;
pub mod preview;
pub mod screen;
pub mod session;

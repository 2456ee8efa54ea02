pub mod commands;
pub mod models;
pub mod repo;
pub mod tui;
pub mod utils;

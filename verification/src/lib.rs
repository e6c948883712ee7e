pub mod api;
pub mod cli;
pub mod config;
pub mod models;
pub mod sampling;
pub mod utils;

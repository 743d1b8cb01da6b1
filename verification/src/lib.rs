pub mod config;
pub mod engine;
pub mod geometry;
pub mod monitor;

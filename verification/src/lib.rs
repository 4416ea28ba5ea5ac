//! Weather lookup from several forecast providers.

pub mod text;
pub mod error;
pub mod date;
pub mod cli;
pub mod config;
pub mod providers;

pub mod config;
pub mod filesystem;
pub mod logging;
pub mod utils;

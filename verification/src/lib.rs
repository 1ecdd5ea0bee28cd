pub mod brew;
pub mod cli;
pub mod codec;
pub mod engine;
pub mod models;
pub mod pretty;
pub mod store;
pub mod time;

//! Currency-conversion chat bot core: recognising bot commands, parsing
//! exchange queries and deciding the reply for each query.

pub mod chars;
pub mod command;
pub mod config;
pub mod exchange;
pub mod query;
pub mod reply;

pub use config::Config;

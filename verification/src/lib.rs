//! A viewer for streams of JSON log lines: each line is normalized into a
//! record with a flattened field index, records are kept in a bounded store,
//! filtered on request and fanned out to live subscribers.

pub mod broadcast;
pub mod filter;
pub mod json;
pub mod log_entry;
pub mod parser;
pub mod schema;
pub mod server;
pub mod store;
pub mod text;
pub mod timestamp;
pub mod ui;

pub use filter::LogFilter;
pub use log_entry::{LogEntry, LogLevel};
pub use parser::JsonLogParser;

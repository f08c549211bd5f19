//! A small verified web-serving runtime: a template rendering engine for a
//! marker-delimited templating language embedded in HTML-like text, together
//! with request routing, HTTP message parsing and serialization, and the task
//! queue discipline of a fixed-size worker pool.
pub mod context;
pub mod error;
pub mod numbers;
pub mod operations;
pub mod portfolio;
pub mod render;
pub mod router;
pub mod server;
pub mod string_map;
pub mod text_parse;
pub mod workers;
pub mod zip_longest;

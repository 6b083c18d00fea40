//! The verified core of a local gateway that pools many OpenAI-compatible
//! backends, each with many API keys, behind one endpoint.

pub mod admin;
pub mod catalog;
pub mod cli;
pub mod clock;
pub mod config;
pub mod csv;
pub mod editor;
pub mod fetch;
pub mod http;
pub mod json;
pub mod laws;
pub mod payload;
pub mod proxy;
pub mod resolver;
pub mod screen;
pub mod seqs;
pub mod server;
pub mod text;
pub mod width;
pub mod worker;

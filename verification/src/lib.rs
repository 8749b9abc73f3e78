//! The decisions of an OpenAI-compatible gateway for language models: which
//! provider a request goes to, what is put into it, when the configuration is
//! read anew, and what is answered when a request cannot be routed.
//!
//! Everything here computes on plain values. Files, sockets and the process
//! environment belong to the program around the library.

pub mod chat;
pub mod config;
pub mod document_laws;
pub mod env_file;
pub mod file_laws;
pub mod json;
pub mod laws;
pub mod load;
pub mod paths;
pub mod pointer;
pub mod report_laws;
pub mod request_laws;
pub mod routing_laws;
pub mod startup;
pub mod table;
pub mod template;
pub mod text;
pub mod toml_value;
pub mod validate;
pub mod watcher;


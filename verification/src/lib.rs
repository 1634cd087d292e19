//! A process supervisor: it keeps configured programs running, restarts them
//! within retry limits, watches their health over HTTP, and relays HTTP
//! requests to them by path prefix.
//!
//! This crate holds the supervisor's decisions and data; the binary around it
//! performs the process, network and terminal work.
pub mod config;
pub mod endpoints;
pub mod error;
pub mod log_format;
pub mod logger;
pub mod proxy;
pub mod supervisor;
pub mod text;
pub mod time;

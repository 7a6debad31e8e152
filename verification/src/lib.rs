//! Client library for the Lambda GPU cloud API.
//!
//! The library decides and computes: which requests are made and what their answers
//! mean, in which region an instance is launched, how images are grouped, and how all
//! of it is worded. Sending requests, executing commands and looking at the clock is
//! left to its callers.

pub mod builds;
pub mod calls;
pub mod client;
pub mod error;
pub mod http;
pub mod image;
pub mod json;
pub mod key;
pub mod launch;
pub mod order;
pub mod poll;
pub mod reply;
pub mod report;
pub mod request;
pub mod service;
pub mod text;
pub mod types;
pub mod version;

//! The logic of an LLM agent platform: a prompt router that sends arithmetic
//! to exact tools, an expression calculator, and the decisions of the chat API.

pub mod agent;
pub mod api;
pub mod calc;
pub mod config;
pub mod json;
pub mod model;
pub mod number;
pub mod storage;
pub mod text;

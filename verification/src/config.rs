//! The server's settings, read from optional environment values with
//! defaults, and the errors shared by the services.

use vstd::prelude::*;
use crate::number::{parse_u16, parsed_u16};
use crate::text::chars_of;

verus! {

/// The server's settings.
#[derive(Clone, Debug)]
pub struct AppConfig {
    pub host: String,
    pub port: u16,
    pub ollama_url: String,
    pub ollama_model: String,
    pub database_url: String,
}

/// An error of the application, by kind; each carries its message.
#[derive(Clone, Debug)]
pub enum AppError {
    Validation(String),
    External(String),
    Internal(String),
}

impl AppError {
    /// The error's message.
    pub fn message(&self) -> (r: &str)
        ensures
            match self {
                AppError::Validation(m) => r@ == m@,
                AppError::External(m) => r@ == m@,
                AppError::Internal(m) => r@ == m@,
            },
    {
        match self {
            AppError::Validation(m) => m.as_str(),
            AppError::External(m) => m.as_str(),
            AppError::Internal(m) => m.as_str(),
        }
    }
}

/// The JSON body of an error reply.
#[derive(Clone, Debug)]
pub struct ApiErrorBody {
    pub error: String,
}

/// A value, or the default when it is not set.
pub open spec fn or_default(v: Option<String>, default: Seq<char>) -> Seq<char> {
    match v {
        Some(s) => s@,
        None => default,
    }
}

fn value_or(v: Option<String>, default: &str) -> (r: String)
    ensures
        r@ == or_default(v, default@),
{
    match v {
        Some(s) => s,
        None => String::from_str(default),
    }
}

/// The log filter: `RUST_LOG` when it is set, else the documented default
/// `info,api=debug,agent=debug`.
pub fn log_filter(rust_log: Option<String>) -> (r: String)
    ensures
        r@ == or_default(rust_log, "info,api=debug,agent=debug"@),
{
    value_or(rust_log, "info,api=debug,agent=debug")
}

impl AppConfig {
    /// The settings from the values of `APP_HOST`, `APP_PORT`,
    /// `OLLAMA_BASE_URL`, `OLLAMA_MODEL` and `DATABASE_URL`, each `None` when
    /// it is not set.  An unset value takes its default; the port, set or
    /// default, must read as a `u16`, else the result is the validation error
    /// "APP_PORT must be a valid u16".
    pub fn from_values(
        host: Option<String>,
        port: Option<String>,
        ollama_url: Option<String>,
        ollama_model: Option<String>,
        database_url: Option<String>,
    ) -> (r: Result<AppConfig, AppError>)
        ensures
            match parsed_u16(or_default(port, "8080"@)) {
                Some(p) => r matches Ok(c) && c.port == p && c.host@ == or_default(host, "0.0.0.0"@)
                    && c.ollama_url@ == or_default(ollama_url, "http://127.0.0.1:11434"@)
                    && c.ollama_model@ == or_default(ollama_model, "llama3.1:8b-instruct-q4_K_M"@)
                    && c.database_url@ == or_default(database_url, "sqlite://./data/agent.db"@),
                None => r matches Err(AppError::Validation(m)) && m@
                    == "APP_PORT must be a valid u16"@,
            },
    {
        let port_text = value_or(port, "8080");
        let port = match parse_u16(&chars_of(port_text.as_str())) {
            Some(p) => p,
            None => {
                return Err(AppError::Validation(String::from_str("APP_PORT must be a valid u16")));
            },
        };
        Ok(AppConfig {
            host: value_or(host, "0.0.0.0"),
            port,
            ollama_url: value_or(ollama_url, "http://127.0.0.1:11434"),
            ollama_model: value_or(ollama_model, "llama3.1:8b-instruct-q4_K_M"),
            database_url: value_or(database_url, "sqlite://./data/agent.db"),
        })
    }
}

} // verus!

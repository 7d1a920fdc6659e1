use agent_platform::config::{log_filter, AppConfig, AppError};
use agent_platform::model::{check_status, combined_prompt, generate_url, ModelError};

#[test]
fn config_defaults() {
    let c = AppConfig::from_values(None, None, None, None, None).unwrap();
    assert_eq!(c.host, "0.0.0.0");
    assert_eq!(c.port, 8080);
    assert_eq!(c.ollama_url, "http://127.0.0.1:11434");
    assert_eq!(c.ollama_model, "llama3.1:8b-instruct-q4_K_M");
    assert_eq!(c.database_url, "sqlite://./data/agent.db");
}

#[test]
fn config_values_win() {
    let c = AppConfig::from_values(
        Some("127.0.0.1".to_string()),
        Some("3000".to_string()),
        Some("http://ollama:11434".to_string()),
        Some("m".to_string()),
        Some("sqlite::memory:".to_string()),
    )
    .unwrap();
    assert_eq!(c.host, "127.0.0.1");
    assert_eq!(c.port, 3000);
    assert_eq!(c.ollama_url, "http://ollama:11434");
    assert_eq!(c.ollama_model, "m");
    assert_eq!(c.database_url, "sqlite::memory:");
}

#[test]
fn config_rejects_bad_port() {
    for p in ["70000", "abc", "", "-1"] {
        match AppConfig::from_values(None, Some(p.to_string()), None, None, None) {
            Err(AppError::Validation(m)) => assert_eq!(m, "APP_PORT must be a valid u16"),
            other => panic!("{:?}", other),
        }
    }
    let e = AppError::Internal("x".to_string());
    assert_eq!(e.message(), "x");
}

#[test]
fn log_filter_default() {
    assert_eq!(log_filter(None), "info,api=debug,agent=debug");
    assert_eq!(log_filter(Some("warn".to_string())), "warn");
}

#[test]
fn model_prompt_and_url() {
    assert_eq!(combined_prompt("sys", "hi"), "sys\n\nUser: hi\nAssistant:");
    assert_eq!(generate_url("http://127.0.0.1:11434"), "http://127.0.0.1:11434/api/generate");
}

#[test]
fn model_status_check() {
    assert!(check_status(200, "200 OK").is_ok());
    assert!(check_status(299, "299").is_ok());
    match check_status(500, "500 Internal Server Error") {
        Err(ModelError::Request(m)) => assert_eq!(m, "ollama returned status 500 Internal Server Error"),
        other => panic!("{:?}", other),
    }
    assert_eq!(
        ModelError::MalformedResponse("eof".to_string()).message(),
        "model response was malformed: eof"
    );
}

use home_llm_bot::config::{model_or_default, parse_skip_list, require_var, settings_from, RawSettings};
use home_llm_bot::error::BotError;
use home_llm_bot::json::Json;
use home_llm_bot::text::{contains, decimal_text, starts_with, trim_bounds};

#[test]
fn json_round_trip_and_errors() {
    let v = Json::parse(r#"{"b": [1, true, null, "x"], "a": 2.5}"#).unwrap();
    assert_eq!(v.to_text().unwrap(), r#"{"a":2.5,"b":[1,true,null,"x"]}"#);
    assert!(matches!(Json::parse("{oops"), Err(BotError::Json(_))));
    assert!(matches!(Json::Number("abc".into()).to_text(), Err(BotError::Json(_))));
    assert_eq!(v.get("b").and_then(|b| b.at(3)).and_then(|x| x.as_str()), Some("x"));
    assert!(v.get("b").and_then(|b| b.at(9)).is_none());
    assert!(v.get("zzz").is_none());
    assert!(Json::Str("s".into()).get("a").is_none());
    assert!(Json::Null.is_null());
}

#[test]
fn set_then_get_reads_back() {
    let mut v = Json::parse(r#"{"a": 1, "b": 2}"#).unwrap();
    v.set("a", Json::Str("new".into()));
    v.set("c", Json::Bool(true));
    assert_eq!(v.get("a").and_then(|x| x.as_str()), Some("new"));
    assert_eq!(v.get("b"), Some(&Json::Number("2".into())));
    assert_eq!(v.get("c"), Some(&Json::Bool(true)));
    assert_eq!(v.to_text().unwrap(), r#"{"a":"new","b":2,"c":true}"#);
    let mut s = Json::Str("x".into());
    s.set("a", Json::Null);
    assert_eq!(s, Json::Str("x".into()));
}

#[test]
fn clone_is_equal() {
    let v = Json::parse(r#"{"a": [1, {"b": null}]}"#).unwrap();
    assert_eq!(v.clone(), v);
}

#[test]
fn error_texts() {
    assert_eq!(BotError::Telegram("t".into()).to_string(), "Telegram error: t");
    assert_eq!(BotError::LMStudio("l".into()).to_string(), "LM Studio error: l");
    assert_eq!(BotError::HomeAssistant("h".into()).to_string(), "Home Assistant error: h");
    assert_eq!(BotError::Whisper("w".into()).to_string(), "Whisper error: w");
    assert_eq!(BotError::Config("c".into()).to_string(), "Configuration error: c");
    let json_error = Json::parse("[").err().unwrap();
    assert!(json_error.to_string().starts_with("JSON error: "));
}

#[test]
fn required_settings() {
    assert_eq!(require_var("X", Some("v".into())).unwrap(), "v");
    match require_var("TELEGRAM_TOKEN", None) {
        Err(BotError::Config(m)) => assert_eq!(m, "TELEGRAM_TOKEN not set"),
        _ => panic!("expected a configuration error"),
    }
    assert_eq!(model_or_default(None), "qwen2.5-7b-instruct");
    assert_eq!(model_or_default(Some("m".into())), "m");
}

#[test]
fn skip_list_is_trimmed_lowered_and_compact() {
    assert_eq!(parse_skip_list(" AdGuard, Solarman ,,Disjuntor ,"), vec!["adguard", "solarman", "disjuntor"]);
    assert!(parse_skip_list("").is_empty());
    assert!(parse_skip_list(" , ").is_empty());
}

#[test]
fn text_helpers() {
    assert_eq!(trim_bounds(&"  a b \n".chars().collect::<Vec<_>>()), (2, 5));
    let (first, end) = trim_bounds(&"\u{3000} ".chars().collect::<Vec<_>>());
    assert_eq!(first, end);
    assert!(contains("Quarto Sala", "to S"));
    assert!(contains("abc", ""));
    assert!(!contains("abc", "abcd"));
    assert!(starts_with("light.sala", "light."));
    assert!(!starts_with("lightsala", "light."));
    assert_eq!(parse_skip_list(" ÁGUA "), vec!["água"]);
    assert_eq!(decimal_text(0), "0");
    assert_eq!(decimal_text(18446744073709551615), "18446744073709551615");
}

fn raw_settings() -> RawSettings {
    RawSettings {
        telegram_token: Some("test_token".to_string()),
        lm_studio_url: Some("http://localhost:1234".to_string()),
        home_assistant_url: Some("http://localhost:8123".to_string()),
        home_assistant_token: Some("test_ha_token".to_string()),
        whisper_url: Some("http://localhost:8000".to_string()),
        database_url: Some("sqlite:test.db".to_string()),
        system_prompt_extra: None,
        live_context_skip: None,
        llm_model: None,
    }
}

#[test]
fn test_config_from_env() {
    let config = settings_from(raw_settings()).unwrap();
    assert_eq!(config.telegram_token, "test_token");
    assert_eq!(config.lm_studio_url, "http://localhost:1234");
}

#[test]
fn settings_defaults_and_missing_names() {
    let config = settings_from(raw_settings()).unwrap();
    assert_eq!(config.database_url, "sqlite:test.db");
    assert_eq!(config.llm_model, "qwen2.5-7b-instruct");
    assert!(config.live_context_skip.is_empty());
    assert_eq!(config.system_prompt_extra, None);
    let mut raw = raw_settings();
    raw.live_context_skip = Some("Solar, ,Cave".to_string());
    raw.llm_model = Some("llama".to_string());
    raw.system_prompt_extra = Some("Be brief.".to_string());
    let config = settings_from(raw).unwrap();
    assert_eq!(config.live_context_skip, vec!["solar", "cave"]);
    assert_eq!(config.llm_model, "llama");
    assert_eq!(config.system_prompt_extra, Some("Be brief.".to_string()));
    let mut raw = raw_settings();
    raw.whisper_url = None;
    raw.home_assistant_token = None;
    match settings_from(raw) {
        Err(BotError::Config(m)) => assert_eq!(m, "HOME_ASSISTANT_TOKEN not set"),
        _ => panic!("expected a configuration error"),
    }
    let mut raw = raw_settings();
    raw.database_url = None;
    match settings_from(raw) {
        Err(BotError::Config(m)) => assert_eq!(m, "DATABASE_URL not set"),
        _ => panic!("expected a configuration error"),
    }
}

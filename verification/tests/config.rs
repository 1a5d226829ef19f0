use std::time::Duration;

use evocode::config::{
    Config, EnvValue, DEFAULT_BASH_TIMEOUT_SECS, DEFAULT_MAX_TURNS, DEFAULT_MODEL,
};

fn config_with(
    model: Option<&str>,
    max_turns: Option<&str>,
    timeout: Option<&str>,
) -> Result<Config, String> {
    Config::from_values(
        Some(String::from("secret-key")),
        model.map(String::from),
        max_turns.map(String::from),
        timeout.map(String::from),
    )
}

#[test]
fn uses_safe_defaults() {
    let config = config_with(None, None, None).expect("defaults should be valid");

    assert_eq!(config.model, DEFAULT_MODEL);
    assert_eq!(config.max_turns, DEFAULT_MAX_TURNS);
    assert_eq!(
        Duration::from_secs(config.bash_timeout_secs),
        Duration::from_secs(DEFAULT_BASH_TIMEOUT_SECS)
    );
}

#[test]
fn accepts_environment_overrides() {
    let config = config_with(Some("custom-model"), Some("25"), Some("90"))
        .expect("overrides should be valid");

    assert_eq!(config.model, "custom-model");
    assert_eq!(config.max_turns, 25);
    assert_eq!(Duration::from_secs(config.bash_timeout_secs), Duration::from_secs(90));
}

#[test]
fn rejects_missing_api_key() {
    let error = Config::from_values(None, None, None, None)
        .err()
        .expect("missing key should fail");

    assert_eq!(error, "GROQ_API_KEY is not set");
}

#[test]
fn rejects_out_of_range_numbers() {
    assert_eq!(
        config_with(None, Some("0"), None)
            .err()
            .expect("zero turns should fail"),
        "AGENT_MAX_TURNS must be between 1 and 100"
    );
    assert_eq!(
        config_with(None, None, Some("3601"))
            .err()
            .expect("long timeout should fail"),
        "AGENT_BASH_TIMEOUT_SECS must be between 1 and 3600"
    );
}

#[test]
fn summary_never_contains_the_api_key() {
    let config = config_with(None, None, None).expect("config should be valid");

    let summary = config.summary();

    assert!(summary.contains(DEFAULT_MODEL));
    assert!(!summary.contains("secret-key"));
}

#[test]
fn summary_lists_every_setting_but_the_key() {
    let config = config_with(Some("test/model"), Some("7"), Some("15")).expect("valid");
    assert_eq!(
        config.summary(),
        "Active configuration:\n  Model: test/model\n  Maximum agent turns: 7\n  Bash timeout: 15 seconds"
    );
}

#[test]
fn trims_values_and_accepts_a_plus_sign() {
    let config = Config::from_values(
        Some(String::from("  key \n")),
        Some(String::from("\tmodel ")),
        Some(String::from(" +100 ")),
        Some(String::from("1")),
    )
    .expect("valid");
    assert_eq!(config.api_key, "key");
    assert_eq!(config.model, "model");
    assert_eq!(config.max_turns, 100);
    assert_eq!(config.bash_timeout_secs, 1);
}

#[test]
fn rejects_blank_and_malformed_values() {
    assert_eq!(
        Config::from_values(Some(String::from("  ")), None, None, None).err(),
        Some(String::from("GROQ_API_KEY cannot be empty"))
    );
    assert_eq!(
        config_with(Some(" "), None, None).err(),
        Some(String::from("GROQ_MODEL cannot be empty"))
    );
    assert_eq!(
        config_with(None, Some("ten"), None).err(),
        Some(String::from("AGENT_MAX_TURNS must be a whole number"))
    );
    assert_eq!(
        config_with(None, Some("-1"), None).err(),
        Some(String::from("AGENT_MAX_TURNS must be a whole number"))
    );
    assert_eq!(
        config_with(None, None, Some("+")).err(),
        Some(String::from("AGENT_BASH_TIMEOUT_SECS must be a whole number"))
    );
    assert_eq!(
        config_with(None, None, Some("18446744073709551616")).err(),
        Some(String::from("AGENT_BASH_TIMEOUT_SECS must be a whole number"))
    );
    assert_eq!(
        config_with(None, None, Some("18446744073709551615")).err(),
        Some(String::from("AGENT_BASH_TIMEOUT_SECS must be between 1 and 3600"))
    );
}

#[test]
fn the_first_error_is_reported() {
    assert_eq!(
        Config::from_values(None, Some(String::from(" ")), Some(String::from("0")), None).err(),
        Some(String::from("GROQ_API_KEY is not set"))
    );
    assert_eq!(
        config_with(None, Some("0"), Some("0")).err(),
        Some(String::from("AGENT_MAX_TURNS must be between 1 and 100"))
    );
}

#[test]
fn reads_the_environment_states() {
    let config = Config::from_env(
        EnvValue::Present(String::from("key")),
        EnvValue::NotPresent,
        EnvValue::Present(String::from("3")),
        EnvValue::NotPresent,
    )
    .expect("valid");
    assert_eq!(config.model, DEFAULT_MODEL);
    assert_eq!(config.max_turns, 3);
    assert_eq!(
        Config::from_env(
            EnvValue::Present(String::from("key")),
            EnvValue::NotUnicode,
            EnvValue::NotUnicode,
            EnvValue::NotPresent,
        )
        .err(),
        Some(String::from("GROQ_MODEL contains invalid Unicode"))
    );
    assert_eq!(
        Config::from_env(
            EnvValue::NotPresent,
            EnvValue::NotPresent,
            EnvValue::NotPresent,
            EnvValue::NotUnicode,
        )
        .err(),
        Some(String::from("AGENT_BASH_TIMEOUT_SECS contains invalid Unicode"))
    );
}

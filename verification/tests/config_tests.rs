use cgip::client::GptClient;
use cgip::config::AppConfig;
use cgip::errors::ChatError;

#[test]
fn test_custom_config() {
    // A file holding custom values wins over every default it names.
    let contents = "model = \"gpt-3.5-turbo\"\nshow_progress = true\nshow_context = false\nmarkdown = false\n";
    let config = GptClient::load_config(Some(contents)).unwrap();
    assert_eq!(
        config.model, "gpt-3.5-turbo",
        "Model should be 'gpt-3.5-turbo'"
    );
    assert_eq!(config.show_progress, true, "show_progress should be true");
}

#[test]
fn test_custom_config_with_missing() {
    let contents = "show_progress = true";
    let config = GptClient::load_config(Some(contents)).unwrap();
    // maintain default values for missing fields
    assert_eq!(config.model, "gpt-4", "Model should be 'gpt-4'");
    assert_eq!(config.show_progress, true, "show_progress should be true");
}

#[test]
fn test_default_config() {
    let written = GptClient::setup_config(None).expect("a missing file gets default content");
    let config = GptClient::load_config(Some(&written)).unwrap();
    assert_eq!(config.model, "gpt-4", "Model should default to 'gpt-4'");
    assert_eq!(
        config.show_progress, false,
        "show_progress should default to false"
    );
}

#[test]
fn test_ensure_config_file() {
    // Scenario 1: no file exists yet
    let written = GptClient::setup_config(None);
    let contents = written.expect("The config file should be created");
    assert!(
        contents.contains("gpt-4"),
        "Default settings should include the model name"
    );

    // Scenario 2: the file was removed again
    let recreated = GptClient::setup_config(None);
    assert!(
        recreated.is_some(),
        "The config file should be recreated"
    );

    // Scenario 3: a file with custom content already exists
    let custom_contents =
        "model = \"custom-model\"\nshow_progress = true\nshow_context = true\nmarkdown = true\n"
            .to_string();
    let third = GptClient::setup_config(Some(&custom_contents));
    assert!(
        third.is_none(),
        "The existing custom config should not be overwritten"
    );
}

#[test]
fn missing_file_yields_exact_defaults() {
    let config = GptClient::load_config(None).unwrap();
    assert_eq!(config.model, "gpt-4");
    assert_eq!(config.show_progress, false);
    assert_eq!(config.show_context, false);
    assert_eq!(config.markdown, false);
}

#[test]
fn unparseable_file_is_a_parse_error() {
    let r = GptClient::load_config(Some("= = = not toml = = ="));
    assert!(matches!(r, Err(ChatError::ConfigParseError)));
}

#[test]
fn wrong_typed_field_falls_back_to_default() {
    let config = GptClient::load_config(Some("show_progress = \"yes\"\nmodel = 7\n")).unwrap();
    assert_eq!(config.model, "gpt-4");
    assert_eq!(config.show_progress, false);
}

fn fresh_client() -> GptClient {
    GptClient::new(AppConfig::default(), String::new(), "prompt")
}

#[test]
fn set_model_persists_and_reloads() {
    let mut client = fresh_client();
    let written = client.set_config_value("model", "gpt-3.5-turbo").unwrap();
    assert_eq!(client.config.model, "gpt-3.5-turbo");
    let reloaded = GptClient::load_config(Some(&written)).unwrap();
    assert_eq!(reloaded.model, "gpt-3.5-turbo");
    assert_eq!(reloaded.show_progress, false);
    assert_eq!(reloaded.show_context, false);
    assert_eq!(reloaded.markdown, false);
}

#[test]
fn set_bool_value_parses_strictly() {
    let mut client = fresh_client();
    let written = client.set_config_value("show_progress", "true").unwrap();
    assert!(client.config.show_progress);
    let reloaded = GptClient::load_config(Some(&written)).unwrap();
    assert!(reloaded.show_progress);

    let r = client.set_config_value("show_context", "True");
    assert!(matches!(r, Err(ChatError::InvalidConfigValue)));
    assert!(!client.config.show_context);
    let r = client.set_config_value("markdown", "1");
    assert!(matches!(r, Err(ChatError::InvalidConfigValue)));
}

#[test]
fn unknown_key_fails_on_set_and_get() {
    let mut client = fresh_client();
    let r = client.set_config_value("colour", "red");
    assert!(matches!(r, Err(ChatError::InvalidConfigKey)));
    assert_eq!(client.config.model, "gpt-4");
    let r = client.get_config_value("colour");
    assert!(matches!(r, Err(ChatError::InvalidConfigKey)));
}

#[test]
fn get_config_value_reads_canonical_strings() {
    let mut client = fresh_client();
    assert_eq!(client.get_config_value("model").unwrap(), "gpt-4");
    assert_eq!(client.get_config_value("show_progress").unwrap(), "false");
    client.set_config_value("markdown", "true").unwrap();
    assert_eq!(client.get_config_value("markdown").unwrap(), "true");
    assert_eq!(client.get_config_value("show_context").unwrap(), "false");
}

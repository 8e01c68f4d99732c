use xkpasswd::config::CliConfig;
use xkpasswd::config::CliPadding;
use xkpasswd::config::ConfigParseError;
use xkpasswd::config::ConfigParser;
use xkpasswd::config::ConfigSource;
use xkpasswd::config::Language;
use xkpasswd::config::Preset;
use xkpasswd::config::parse_number_config;
use xkpasswd::config::parse_padding_config;
use xkpasswd::config::parse_preset_config;
use xkpasswd::config::parse_str_config;
use xkpasswd::config::parse_transforms;
use xkpasswd::settings::WordTransform;

fn blank_cli() -> CliConfig {
    CliConfig {
        words_count: None,
        word_length_min: None,
        word_length_max: None,
        word_transforms: None,
        separators: None,
        padding_digits_before: None,
        padding_digits_after: None,
        padding_symbols: None,
        padding_symbols_before: None,
        padding_symbols_after: None,
        padding: None,
        preset: None,
        language: None,
    }
}

#[test]
fn test_parse_preset_config() {
    let table = [
        (Preset::Default, "default"),
        (Preset::AppleID, "apple-id"),
        (Preset::WindowsNtlmV1, "ntlm"),
        (Preset::SecurityQuestions, "secq"),
        (Preset::Web16, "web16"),
        (Preset::Web32, "web32"),
        (Preset::Wifi, "wifi"),
        (Preset::Xkcd, "xkcd"),
    ];

    for (preset, config_value) in table {
        let config: toml::Value =
            toml::from_str(format!(r#"preset = "{}""#, config_value).as_str()).unwrap();

        let result = parse_preset_config(true, &config, "foo");
        assert!(matches!(result, Ok(None)));

        let result = parse_preset_config(false, &config, "foo");
        assert!(matches!(result, Ok(None)));

        let result = parse_preset_config(false, &config, "preset");
        assert_eq!(Ok(Some(preset)), result.map_err(|_| ()));
    }

    let config: toml::Value = toml::from_str(r#"preset = "apple_id""#).unwrap();
    let result = parse_preset_config(false, &config, "preset");

    if let ConfigParseError::InvalidConfig(field, message) = result.err().unwrap() {
        assert_eq!("preset", field);
        assert_eq!("invalid variant: apple_id", message);
    } else {
        panic!("shouldn't be invoked")
    }
}

#[test]
fn test_parse_padding_config() {
    let table = [(CliPadding::Fixed, "fixed"), (CliPadding::Adaptive, "adaptive")];

    for (padding, config_value) in table {
        let config: toml::Value =
            toml::from_str(format!(r#"padding = "{}""#, config_value).as_str()).unwrap();

        let result = parse_padding_config(true, &config, "foo");
        assert!(matches!(result, Ok(None)));

        let result = parse_padding_config(false, &config, "foo");
        assert!(matches!(result, Ok(None)));

        let result = parse_padding_config(false, &config, "padding");
        assert_eq!(Ok(Some(padding)), result.map_err(|_| ()));
    }

    let config: toml::Value = toml::from_str(r#"padding = "fixed_padding""#).unwrap();
    let result = parse_padding_config(false, &config, "padding");

    if let ConfigParseError::InvalidConfig(field, message) = result.err().unwrap() {
        assert_eq!("padding", field);
        assert_eq!("invalid variant: fixed_padding", message);
    } else {
        panic!("shouldn't be invoked")
    }
}

#[test]
fn test_parse_transforms() {
    let config: toml::Value = toml::from_str(r#"transforms = ["lowercase"]"#).unwrap();
    let result = parse_transforms(true, &config);
    assert!(matches!(result, Ok(None)));

    let result = parse_transforms(false, &config);
    assert_eq!(vec![WordTransform::Lowercase], result.unwrap().unwrap());

    let config: toml::Value = toml::from_str(r#"transforms = "lowercase""#).unwrap();
    let result = parse_transforms(false, &config);
    assert!(matches!(result, Ok(None)));

    let config: toml::Value = toml::from_str(r#"transforms = ["lowercase", false]"#).unwrap();
    let result = parse_transforms(false, &config);
    if let ConfigParseError::InvalidConfig(field, message) = result.err().unwrap() {
        assert_eq!("transforms", field);
        assert_eq!("Invalid data type, expect string but got 'false'", message);
    } else {
        panic!("shouldn't be invoked")
    }

    let config: toml::Value =
        toml::from_str(r#"transforms = ["lowercase", "inversed_titlecase"]"#).unwrap();
    let result = parse_transforms(false, &config);
    if let ConfigParseError::InvalidConfig(field, message) = result.err().unwrap() {
        assert_eq!("transforms", field);
        assert_eq!("invalid variant: inversed_titlecase", message);
    } else {
        panic!("shouldn't be invoked")
    }
}

#[test]
fn test_parse_str_config() {
    let config: toml::Value = toml::from_str(r#"separators = "!@#""#).unwrap();
    assert!(parse_str_config(true, &config, "foo").is_none());
    assert!(parse_str_config(false, &config, "foo").is_none());
    assert_eq!(Some("!@#".to_string()), parse_str_config(false, &config, "separators"));

    let config: toml::Value = toml::from_str(r#"separators = false"#).unwrap();
    assert!(parse_str_config(false, &config, "separators").is_none());
}

#[test]
fn test_parse_number_config() {
    let config: toml::Value = toml::from_str(r#"words_count = 3"#).unwrap();
    assert!(parse_number_config(true, &config, "foo").is_none());
    assert!(parse_number_config(false, &config, "foo").is_none());
    assert_eq!(Some(3), parse_number_config(false, &config, "words_count"));

    let config: toml::Value = toml::from_str(r#"words_count = true"#).unwrap();
    assert!(parse_number_config(false, &config, "words_count").is_none());
}

#[test]
fn test_parse_config_file_with_temp_file() {
    let data = r#"
words_count = 5
word_min = 4
word_max = 8
separators = ".-_"
digits_before = 2
digits_after = 3
symbols = "!@#$"
symbols_before = 1
symbols_after = 2
preset = "web32"
lang = "de"
transforms = ["lowercase", "uppercase"]
"#;

    let mut cli = blank_cli();
    let result = cli.parse_config_file(ConfigSource::Found(data.to_string()));
    assert!(result.is_ok());

    // Verify values were parsed from config
    assert_eq!(Some(5), cli.words_count);
    assert_eq!(Some(4), cli.word_length_min);
    assert_eq!(Some(8), cli.word_length_max);
    assert_eq!(Some(".-_".to_string()), cli.separators);
    assert_eq!(Some(2), cli.padding_digits_before);
    assert_eq!(Some(3), cli.padding_digits_after);
    assert_eq!(Some("!@#$".to_string()), cli.padding_symbols);
    assert_eq!(Some(1), cli.padding_symbols_before);
    assert_eq!(Some(2), cli.padding_symbols_after);
    assert!(matches!(cli.preset, Some(Preset::Web32)));
    assert!(matches!(cli.language, Some(Language::German)));
    assert_eq!(
        Some(vec![WordTransform::Lowercase, WordTransform::Uppercase]),
        cli.word_transforms
    );
}

#[test]
fn test_parse_config_file_cli_overrides_config() {
    // CLI already has words_count set - should not be overridden
    let mut cli = blank_cli();
    cli.words_count = Some(10); // CLI value should take precedence

    let result = cli.parse_config_file(ConfigSource::Found("words_count = 5".to_string()));
    assert!(result.is_ok());

    // CLI value should be preserved (not overridden by config)
    assert_eq!(Some(10), cli.words_count);
}

#[test]
fn test_parse_config_file_invalid_file() {
    // A file that exists but cannot be read surfaces as InvalidFile.
    let path = "/nonexistent/path/to/config.toml";
    let mut cli = blank_cli();
    let result = cli.parse_config_file(ConfigSource::Unreadable(format!(
        "{}: No such file or directory",
        path
    )));
    assert!(matches!(result, Err(ConfigParseError::InvalidFile(_))));
}

#[test]
fn test_parse_config_file_invalid_toml() {
    let mut cli = blank_cli();
    let result = cli.parse_config_file(ConfigSource::Found("invalid toml {{ content".to_string()));
    assert!(matches!(result, Err(ConfigParseError::InvalidFile(_))));
}

#[test]
fn test_parse_config_file_no_config() {
    // No config file found anywhere: the parse is skipped with Ignore.
    let mut cli = blank_cli();
    let result = cli.parse_config_file(ConfigSource::NotFound);
    // Either no config found (Ignore) or config found and parsed (Ok)
    assert!(matches!(result, Err(ConfigParseError::Ignore) | Ok(())));
}

#[test]
fn test_parse_config_file_type_mismatch() {
    // Test that wrong types in config are handled gracefully
    let data = "\nwords_count = \"five\"\nseparators = 123\n";

    let mut cli = blank_cli();
    // Should succeed - type mismatches are silently ignored (use defaults)
    let result = cli.parse_config_file(ConfigSource::Found(data.to_string()));
    assert!(result.is_ok());

    // Values should remain None since types didn't match
    assert_eq!(None, cli.words_count);
    assert_eq!(None, cli.separators);
}

#[test]
fn test_parse_config_file_with_padding_strategy() {
    let mut cli = blank_cli();
    let result = cli.parse_config_file(ConfigSource::Found("padding = \"adaptive\"".to_string()));
    assert!(result.is_ok());
    assert!(matches!(cli.padding, Some(CliPadding::Adaptive)));
}

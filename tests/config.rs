use layer8_interceptor::config::{ConfigError, ConfigValue, InitConfig};

fn text(s: &str) -> ConfigValue {
    ConfigValue::Text(s.to_string())
}

fn list(items: &[&str]) -> ConfigValue {
    ConfigValue::List(items.iter().map(|s| Some(s.to_string())).collect())
}

#[test]
fn config_reads_every_accepted_key() {
    let entries = vec![
        ("providers".to_string(), list(&["https://a.example", "https://b.example"])),
        ("proxy".to_string(), text("https://proxy.example")),
        ("staticPath".to_string(), text("/legacy")),
        ("staticPaths".to_string(), list(&["/assets", "/img"])),
        ("cacheAssetLimit".to_string(), ConfigValue::Other),
    ];
    let config = InitConfig::new(&entries).unwrap();
    assert_eq!(config.proxy, "https://proxy.example");
    assert_eq!(config.providers, vec!["https://a.example".to_string(), "https://b.example".to_string()]);
    assert_eq!(config.static_paths, vec!["/legacy".to_string(), "/assets".to_string(), "/img".to_string()]);
}

#[test]
fn config_empty_object() {
    let config = InitConfig::new(&Vec::new()).unwrap();
    assert_eq!(config.proxy, "");
    assert!(config.providers.is_empty());
    assert!(config.static_paths.is_empty());
}

#[test]
fn config_refusals() {
    let unknown = vec![("proxy".to_string(), text("p")), ("colour".to_string(), text("blue"))];
    assert_eq!(InitConfig::new(&unknown).err(), Some(ConfigError::UnexpectedKey));
    let not_list = vec![("providers".to_string(), text("https://a.example"))];
    assert_eq!(InitConfig::new(&not_list).err(), Some(ConfigError::ExpectedList));
    let bad_element = vec![("staticPaths".to_string(), ConfigValue::List(vec![Some("/a".to_string()), None]))];
    assert_eq!(InitConfig::new(&bad_element).err(), Some(ConfigError::ExpectedText));
    let bad_proxy = vec![("proxy".to_string(), ConfigValue::Other)];
    assert_eq!(InitConfig::new(&bad_proxy).err(), Some(ConfigError::ExpectedText));
    let first_error_wins = vec![("staticPath".to_string(), list(&["/a"])), ("colour".to_string(), text("blue"))];
    assert_eq!(InitConfig::new(&first_error_wins).err(), Some(ConfigError::ExpectedText));
}

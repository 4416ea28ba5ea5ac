use weather::cli::ProviderKind;
use weather::config::Config;
use weather::error::WeatherError;
use weather::providers::{resolve_provider, Provider, ProviderHandle, APP_USER_AGENT, TIMEOUT_SECONDS};

fn sorted_entries(config: &Config) -> Vec<(String, String)> {
    let mut entries = config.entries();
    entries.sort();
    entries
}

#[test]
fn new_configuration_is_empty() {
    let config = Config::new();
    assert!(config.entries().is_empty());
    assert!(config.default_name().is_none());
    let e = config.default_provider().unwrap_err();
    assert!(matches!(e, WeatherError::NoProvidersConfigured));
    assert_eq!(e.message(), "No providers configured");
    let d = Config::default();
    assert!(d.entries().is_empty());
    assert!(d.default_name().is_none());
}

#[test]
fn first_configured_provider_becomes_default() {
    let mut config = Config::new();
    config.configure_provider(ProviderKind::Accu, "key-a".to_string(), false);
    assert_eq!(config.default_provider().unwrap(), "AccuWeather");
    assert_eq!(config.get_api_key("AccuWeather").unwrap(), "key-a");
}

#[test]
fn later_provider_keeps_default_unless_asked() {
    let mut config = Config::new();
    config.configure_provider(ProviderKind::Open, "key-o".to_string(), false);
    config.configure_provider(ProviderKind::Accu, "key-a".to_string(), false);
    assert_eq!(config.default_provider().unwrap(), "OpenWeather");
    config.configure_provider(ProviderKind::Accu, "key-b".to_string(), true);
    assert_eq!(config.default_provider().unwrap(), "AccuWeather");
    assert_eq!(config.get_api_key("AccuWeather").unwrap(), "key-b");
    assert_eq!(config.get_api_key("OpenWeather").unwrap(), "key-o");
    assert_eq!(config.entries().len(), 2);
}

#[test]
fn reconfiguring_the_only_provider_keeps_it_default() {
    let mut config = Config::from_entries(
        vec![("OpenWeather".to_string(), "old".to_string())],
        Some("AccuWeather".to_string()),
    );
    config.configure_provider(ProviderKind::Open, "new".to_string(), false);
    assert_eq!(config.default_provider().unwrap(), "OpenWeather");
    assert_eq!(config.get_api_key("OpenWeather").unwrap(), "new");
}

#[test]
fn unknown_key_is_not_configured() {
    let config = Config::new();
    let e = config.get_api_key("OpenWeather").unwrap_err();
    assert!(matches!(e, WeatherError::ProviderNotConfigured));
    assert_eq!(e.message(), "This provider is not configured");
}

#[test]
fn set_default_needs_a_default_first() {
    let mut config = Config::from_entries(vec![("OpenWeather".to_string(), "k".to_string())], None);
    let r = config.set_default_provider(ProviderKind::Open);
    assert!(matches!(r, Err(WeatherError::NoProvidersConfigured)));
    assert!(config.default_name().is_none());
}

#[test]
fn set_default_needs_a_configured_provider() {
    let mut config = Config::new();
    config.configure_provider(ProviderKind::Open, "k".to_string(), false);
    let r = config.set_default_provider(ProviderKind::Accu);
    assert!(matches!(r, Err(WeatherError::ProviderNotConfigured)));
    assert_eq!(config.default_provider().unwrap(), "OpenWeather");
}

#[test]
fn set_default_switches_provider() {
    let mut config = Config::new();
    config.configure_provider(ProviderKind::Open, "k".to_string(), false);
    config.configure_provider(ProviderKind::Accu, "j".to_string(), false);
    config.set_default_provider(ProviderKind::Accu).unwrap();
    assert_eq!(config.default_provider().unwrap(), "AccuWeather");
    assert_eq!(config.entries().len(), 2);
}

#[test]
fn configured_providers_in_offer_order() {
    let mut config = Config::new();
    assert!(config.configured_providers().is_empty());
    config.configure_provider(ProviderKind::Accu, "a".to_string(), false);
    assert_eq!(config.configured_providers(), vec!["AccuWeather".to_string()]);
    config.configure_provider(ProviderKind::Open, "o".to_string(), false);
    assert_eq!(
        config.configured_providers(),
        vec!["OpenWeather".to_string(), "AccuWeather".to_string()]
    );
    let other = Config::from_entries(vec![("Other".to_string(), "x".to_string())], None);
    assert!(other.configured_providers().is_empty());
}

#[test]
fn entries_round_trip() {
    let config = Config::from_entries(
        vec![
            ("OpenWeather".to_string(), "1".to_string()),
            ("AccuWeather".to_string(), "2".to_string()),
            ("OpenWeather".to_string(), "3".to_string()),
        ],
        Some("OpenWeather".to_string()),
    );
    assert_eq!(
        sorted_entries(&config),
        vec![
            ("AccuWeather".to_string(), "2".to_string()),
            ("OpenWeather".to_string(), "3".to_string())
        ]
    );
    assert_eq!(config.default_name(), Some("OpenWeather".to_string()));
    let again = Config::from_entries(config.entries(), config.default_name());
    assert_eq!(sorted_entries(&again), sorted_entries(&config));
    assert_eq!(again.default_name(), config.default_name());
}

#[test]
fn resolve_requested_provider() {
    let mut config = Config::new();
    config.configure_provider(ProviderKind::Open, "o".to_string(), false);
    config.configure_provider(ProviderKind::Accu, "a".to_string(), false);
    let (kind, key) = resolve_provider(&config, Some(ProviderKind::Accu)).unwrap();
    assert_eq!(kind, ProviderKind::Accu);
    assert_eq!(key, "a");
    let (kind, key) = resolve_provider(&config, None).unwrap();
    assert_eq!(kind, ProviderKind::Open);
    assert_eq!(key, "o");
}

#[test]
fn resolve_provider_errors() {
    let empty = Config::new();
    assert!(matches!(resolve_provider(&empty, None), Err(WeatherError::NoProvidersConfigured)));
    assert!(matches!(
        resolve_provider(&empty, Some(ProviderKind::Open)),
        Err(WeatherError::ProviderNotConfigured)
    ));
    let odd = Config::from_entries(vec![], Some("Elsewhere".to_string()));
    assert!(matches!(resolve_provider(&odd, None), Err(WeatherError::UnknownProvider)));
    let missing = Config::from_entries(vec![], Some("AccuWeather".to_string()));
    assert!(matches!(resolve_provider(&missing, None), Err(WeatherError::ProviderNotConfigured)));
}

#[test]
fn provider_handle_for_default_provider() {
    let mut config = Config::new();
    config.configure_provider(ProviderKind::Accu, "secret".to_string(), false);
    let handle = ProviderHandle::new(config, None).unwrap();
    match handle.provider() {
        Provider::Accu(p) => assert_eq!(p.api_key(), "secret"),
        Provider::Open(_) => panic!("expected AccuWeather"),
    }
}

#[test]
fn provider_handle_for_requested_provider() {
    let mut config = Config::new();
    config.configure_provider(ProviderKind::Accu, "a".to_string(), false);
    config.configure_provider(ProviderKind::Open, "o".to_string(), false);
    let handle = ProviderHandle::new(config, Some(ProviderKind::Open)).unwrap();
    match handle.provider() {
        Provider::Open(p) => assert_eq!(p.api_key(), "o"),
        Provider::Accu(_) => panic!("expected OpenWeather"),
    }
}

#[test]
fn provider_handle_errors() {
    let r = ProviderHandle::new(Config::new(), None);
    assert!(matches!(r, Err(WeatherError::NoProvidersConfigured)));
    let r = ProviderHandle::new(Config::new(), Some(ProviderKind::Accu));
    assert!(matches!(r, Err(WeatherError::ProviderNotConfigured)));
}

#[test]
fn configured_then_set_default_is_accepted() {
    let mut config = Config::new();
    config.configure_provider(ProviderKind::Open, "o".to_string(), false);
    config.configure_provider(ProviderKind::Accu, "a".to_string(), false);
    assert!(config.set_default_provider(ProviderKind::Accu).is_ok());
    assert!(config.set_default_provider(ProviderKind::Open).is_ok());
}

#[test]
fn offered_names_can_become_default() {
    let mut config = Config::new();
    config.configure_provider(ProviderKind::Open, "o".to_string(), false);
    config.configure_provider(ProviderKind::Accu, "a".to_string(), false);
    for name in config.configured_providers() {
        let kind = ProviderKind::from_str(&name).unwrap();
        config.set_default_provider(kind).unwrap();
        assert_eq!(config.default_provider().unwrap(), &name);
    }
}

#[test]
fn new_default_is_used_when_none_is_asked_for() {
    let mut config = Config::new();
    config.configure_provider(ProviderKind::Open, "o".to_string(), false);
    config.configure_provider(ProviderKind::Accu, "a".to_string(), false);
    config.set_default_provider(ProviderKind::Accu).unwrap();
    let (kind, key) = resolve_provider(&config, None).unwrap();
    assert_eq!((kind, key.as_str()), (ProviderKind::Accu, "a"));
}

#[test]
fn provider_configured_as_default_is_used() {
    let mut config = Config::new();
    config.configure_provider(ProviderKind::Accu, "a".to_string(), false);
    config.configure_provider(ProviderKind::Open, "fresh".to_string(), true);
    let (kind, key) = resolve_provider(&config, None).unwrap();
    assert_eq!((kind, key.as_str()), (ProviderKind::Open, "fresh"));
}

#[test]
fn entries_read_back_in_another_order() {
    let mut config = Config::new();
    config.configure_provider(ProviderKind::Open, "o".to_string(), false);
    config.configure_provider(ProviderKind::Accu, "a".to_string(), false);
    let mut written = config.entries();
    written.reverse();
    let again = Config::from_entries(written, config.default_name());
    assert_eq!(sorted_entries(&again), sorted_entries(&config));
    assert_eq!(again.get_api_key("OpenWeather").unwrap(), "o");
    assert_eq!(again.get_api_key("AccuWeather").unwrap(), "a");
    assert_eq!(again.default_provider().unwrap(), "OpenWeather");
}

#[test]
fn provider_handle_client_settings() {
    let mut config = Config::new();
    config.configure_provider(ProviderKind::Open, "o".to_string(), false);
    let handle = ProviderHandle::new(config, None).unwrap();
    assert_eq!(handle.user_agent(), APP_USER_AGENT);
    assert_eq!(handle.user_agent(), "weather/0.1.0");
    assert_eq!(handle.timeout_seconds(), TIMEOUT_SECONDS);
    assert_eq!(handle.timeout_seconds(), 10);
}

use volt::config::{default_port, AppConfig, GlobalConfig, RemoteConfigEntry, RouteConfig};
use volt::keyed::KeyedList;

#[test]
fn test_app_config_default() {
    let config = AppConfig::default();
    assert_eq!(config.base_url, "http://localhost:3000");
    assert!(config.remote.is_none());
    assert!(config.current_remote.is_none());
}

#[test]
fn test_remote_config_entry() {
    let entry = RemoteConfigEntry {
        host: "bastion.example.com".to_string(),
        user: "ubuntu".to_string(),
        port: 22,
        identity: Some("~/.ssh/id_ed25519".to_string()),
    };
    assert_eq!(entry.host, "bastion.example.com");
    assert_eq!(entry.user, "ubuntu");
}

#[test]
fn global_config_defaults_to_vesper() {
    assert_eq!(GlobalConfig::default().theme, "vesper");
}

#[test]
fn route_config_default_is_empty() {
    let r = RouteConfig::default();
    assert!(r.headers.is_empty() && r.body.is_empty() && r.params.is_empty() && r.auth.is_empty());
}

#[test]
fn default_port_is_ssh() {
    assert_eq!(default_port(), 22);
}

fn entry(host: &str) -> RemoteConfigEntry {
    RemoteConfigEntry { host: host.to_string(), user: "deploy".to_string(), port: 2200, identity: None }
}

#[test]
fn get_remote_finds_named_profile() {
    let mut config = AppConfig::default();
    assert!(config.get_remote("production").is_none());
    let mut remotes = KeyedList::new();
    remotes.insert("production".to_string(), entry("prod-bastion.example.com"));
    remotes.insert("staging".to_string(), entry("staging.example.com"));
    config.remote = Some(remotes);
    let found = config.get_remote("production").unwrap();
    assert_eq!(found.host, "prod-bastion.example.com");
    assert_eq!(found.port, 2200);
    assert!(config.get_remote("missing").is_none());
}

#[test]
fn later_remote_entry_overrides_earlier() {
    let mut config = AppConfig::default();
    let mut remotes = KeyedList::new();
    remotes.insert("prod".to_string(), entry("old.example.com"));
    remotes.insert("prod".to_string(), entry("new.example.com"));
    config.remote = Some(remotes);
    assert_eq!(config.get_remote("prod").unwrap().host, "new.example.com");
}

#[test]
fn set_current_remote_switches_executor() {
    let mut config = AppConfig::default();
    config.set_current_remote(Some("staging".to_string()));
    assert_eq!(config.current_remote, Some("staging".to_string()));
    config.set_current_remote(None);
    assert!(config.current_remote.is_none());
    assert_eq!(config.base_url, "http://localhost:3000");
}

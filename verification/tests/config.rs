use luke_desktop::mcp::config::{ConfigError, ConfigManager};
use luke_desktop::mcp::types::{MCPConfig, MCPServer};

fn server(name: &str, url: &str) -> MCPServer {
    MCPServer {
        id: String::new(),
        name: name.to_string(),
        url: url.to_string(),
        token: None,
        is_active: true,
        last_connected: None,
    }
}

#[test]
fn default_config_is_empty_at_version_one() {
    let config = MCPConfig::default();
    assert_eq!(config.version, "1.0".to_string());
    assert!(config.default_server.is_none());
    assert!(config.servers.is_empty());
}

#[test]
fn first_added_server_becomes_default() {
    let mut manager = ConfigManager::new(MCPConfig::default());
    let a = manager.add_server(server("alpha", "http://localhost:3001")).unwrap();
    let b = manager.add_server(server("beta", "http://localhost:3002")).unwrap();
    assert_eq!(a.id.len(), 36);
    assert_ne!(a.id, b.id);
    assert_eq!(manager.get_default_server().unwrap().id, a.id);
    assert_eq!(manager.get_servers().len(), 2);
}

#[test]
fn get_server_finds_by_identifier() {
    let mut manager = ConfigManager::new(MCPConfig::default());
    let a = manager.add_server(server("alpha", "http://localhost:3001")).unwrap();
    assert_eq!(manager.get_server(&a.id).unwrap().name, "alpha".to_string());
    assert!(manager.get_server("no-such-id").is_none());
}

#[test]
fn update_server_replaces_by_identifier() {
    let mut manager = ConfigManager::new(MCPConfig::default());
    let a = manager.add_server(server("alpha", "http://localhost:3001")).unwrap();
    let mut changed = server("alpha-renamed", "http://localhost:9999");
    changed.id = a.id.clone();
    manager.update_server(changed).unwrap();
    assert_eq!(manager.get_server(&a.id).unwrap().name, "alpha-renamed".to_string());
    let unknown = server("ghost", "http://localhost:1");
    assert!(matches!(manager.update_server(unknown), Err(ConfigError::ServerNotFound(_))));
}

#[test]
fn removing_the_default_hands_it_to_the_first_remaining() {
    let mut manager = ConfigManager::new(MCPConfig::default());
    let a = manager.add_server(server("alpha", "http://localhost:3001")).unwrap();
    let b = manager.add_server(server("beta", "http://localhost:3002")).unwrap();
    manager.remove_server(&a.id).unwrap();
    assert_eq!(manager.get_default_server().unwrap().id, b.id);
    manager.remove_server(&b.id).unwrap();
    assert!(manager.get_default_server().is_none());
    assert!(manager.get_servers().is_empty());
}

#[test]
fn removing_an_unknown_server_reports_it() {
    let mut manager = ConfigManager::new(MCPConfig::default());
    match manager.remove_server("missing-id") {
        Err(ConfigError::ServerNotFound(id)) => assert_eq!(id, "missing-id".to_string()),
        other => panic!("expected ServerNotFound, got {:?}", other),
    }
}

#[test]
fn set_default_server_requires_an_existing_server() {
    let mut manager = ConfigManager::new(MCPConfig::default());
    let a = manager.add_server(server("alpha", "http://localhost:3001")).unwrap();
    let b = manager.add_server(server("beta", "http://localhost:3002")).unwrap();
    manager.set_default_server(&b.id).unwrap();
    assert_eq!(manager.get_default_server().unwrap().id, b.id);
    assert!(matches!(manager.set_default_server("missing-id"), Err(ConfigError::ServerNotFound(_))));
    assert_eq!(manager.get_default_server().unwrap().id, b.id);
    assert_eq!(manager.get_server(&a.id).unwrap().name, "alpha".to_string());
}

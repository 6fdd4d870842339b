use tunnel_supervisor::configs::{
    delete_cloudflare_config, delete_ssh_config, save_cloudflare_config, save_ssh_config,
    set_cloudflare_connection, set_ssh_connection, ConfigError,
};
use tunnel_supervisor::types::{CloudflareConfig, SshConfig};

fn ssh(id: &str, host: &str, enabled: bool) -> SshConfig {
    SshConfig {
        id: id.to_string(),
        host: host.to_string(),
        port: 22,
        username: "alice".to_string(),
        key_file: None,
        remote_port: 9000,
        local_port: 8317,
        enabled,
    }
}

fn cf(id: &str, name: &str, enabled: bool) -> CloudflareConfig {
    CloudflareConfig {
        id: id.to_string(),
        name: name.to_string(),
        tunnel_token: "SECRET-REDACTED".to_string(),
        local_port: 8317,
        enabled,
    }
}

#[test]
fn save_appends_a_new_ssh_record() {
    let mut cfgs = vec![ssh("a", "one.example", false)];
    save_ssh_config(&mut cfgs, ssh("b", "two.example", true));
    assert_eq!(cfgs.len(), 2);
    assert_eq!(cfgs[1].id, "b");
    assert_eq!(cfgs[1].host, "two.example");
}

#[test]
fn save_replaces_the_record_with_the_same_id() {
    let mut cfgs = vec![ssh("a", "one.example", false), ssh("b", "two.example", false)];
    save_ssh_config(&mut cfgs, ssh("a", "new.example", true));
    assert_eq!(cfgs.len(), 2);
    assert_eq!(cfgs[0].id, "a");
    assert_eq!(cfgs[0].host, "new.example");
    assert!(cfgs[0].enabled);
    assert_eq!(cfgs[1].host, "two.example");
}

#[test]
fn delete_removes_only_the_named_record() {
    let mut cfgs = vec![
        ssh("a", "one.example", false),
        ssh("b", "two.example", false),
        ssh("c", "three.example", false),
    ];
    delete_ssh_config(&mut cfgs, &"b".to_string());
    assert_eq!(cfgs.len(), 2);
    assert_eq!(cfgs[0].id, "a");
    assert_eq!(cfgs[1].id, "c");
}

#[test]
fn delete_of_an_unknown_id_changes_nothing() {
    let mut cfgs = vec![ssh("a", "one.example", false)];
    delete_ssh_config(&mut cfgs, &"ghost".to_string());
    assert_eq!(cfgs.len(), 1);
    assert_eq!(cfgs[0].id, "a");
}

#[test]
fn set_connection_flips_the_flag_and_returns_the_record() {
    let mut cfgs = vec![ssh("a", "one.example", false), ssh("b", "two.example", false)];
    let r = set_ssh_connection(&mut cfgs, &"b".to_string(), true);
    let c = r.expect("the id exists");
    assert_eq!(c.id, "b");
    assert!(c.enabled);
    assert!(cfgs[1].enabled);
    assert!(!cfgs[0].enabled);

    let r = set_ssh_connection(&mut cfgs, &"b".to_string(), false);
    assert!(!r.expect("the id exists").enabled);
    assert!(!cfgs[1].enabled);
}

#[test]
fn set_connection_fails_for_an_unknown_id() {
    let mut cfgs = vec![ssh("a", "one.example", true)];
    let r = set_ssh_connection(&mut cfgs, &"ghost".to_string(), true);
    assert!(matches!(r, Err(ConfigError::NotFound)));
    assert!(cfgs[0].enabled);
    assert_eq!(ConfigError::NotFound.message(), "Config not found");
}

#[test]
fn cloudflare_records_follow_the_same_rules() {
    let mut cfgs = vec![cf("c1", "edge", false)];
    save_cloudflare_config(&mut cfgs, cf("c2", "backup", false));
    assert_eq!(cfgs.len(), 2);

    save_cloudflare_config(&mut cfgs, cf("c1", "renamed", true));
    assert_eq!(cfgs[0].name, "renamed");
    assert!(cfgs[0].enabled);

    let r = set_cloudflare_connection(&mut cfgs, &"c2".to_string(), true);
    assert!(r.expect("the id exists").enabled);
    assert!(matches!(
        set_cloudflare_connection(&mut cfgs, &"nope".to_string(), true),
        Err(ConfigError::NotFound)
    ));

    delete_cloudflare_config(&mut cfgs, &"c1".to_string());
    assert_eq!(cfgs.len(), 1);
    assert_eq!(cfgs[0].id, "c2");
}

use tunnel_supervisor::registry::SshManager;

#[test]
fn new_registry_is_empty() {
    let m = SshManager::new();
    assert_eq!(m.get_status(&"a".to_string()), "inactive");
}

#[test]
fn connect_registers_the_id() {
    let mut m = SshManager::new();
    let replaced = m.connect(&"a".to_string());
    assert!(!replaced);
    assert_eq!(m.get_status(&"a".to_string()), "active");
    assert_eq!(m.get_status(&"b".to_string()), "inactive");
}

#[test]
fn reconnect_replaces_the_old_supervisor() {
    let mut m = SshManager::new();
    assert!(!m.connect(&"a".to_string()));
    let replaced = m.connect(&"a".to_string());
    assert!(replaced);
    assert_eq!(m.get_status(&"a".to_string()), "active");
    // Tearing down once is enough: only one supervisor was registered.
    assert!(m.disconnect(&"a".to_string()));
    assert_eq!(m.get_status(&"a".to_string()), "inactive");
    assert!(!m.disconnect(&"a".to_string()));
}

#[test]
fn disconnect_is_a_no_op_for_unknown_ids() {
    let mut m = SshManager::new();
    assert!(!m.disconnect(&"ghost".to_string()));
    m.connect(&"a".to_string());
    assert!(!m.disconnect(&"ghost".to_string()));
    assert_eq!(m.get_status(&"a".to_string()), "active");
}

#[test]
fn disconnect_leaves_other_ids_alone() {
    let mut m = SshManager::new();
    m.connect(&"a".to_string());
    m.connect(&"b".to_string());
    assert!(m.disconnect(&"a".to_string()));
    assert_eq!(m.get_status(&"a".to_string()), "inactive");
    assert_eq!(m.get_status(&"b".to_string()), "active");
}

#[test]
fn disconnect_all_clears_everything() {
    let mut m = SshManager::new();
    m.connect(&"a".to_string());
    m.connect(&"b".to_string());
    m.connect(&"c".to_string());
    m.disconnect_all();
    for id in ["a", "b", "c"] {
        assert_eq!(m.get_status(&id.to_string()), "inactive");
    }
}

use mocha_compositor::client::{ClientRegistry, CompositorClientState, SecurityContext, SecurityContextError};

fn label(app: &str) -> SecurityContext {
    SecurityContext {
        sandbox_engine: Some("flatpak".to_string()),
        app_id: Some(app.to_string()),
        instance_id: None,
        creator: 0,
    }
}

#[test]
fn lookup_branches_on_client_kind() {
    let mut reg = ClientRegistry::new();
    let native = reg.insert_client(None);
    let bridge = reg.insert_bridge_client();
    assert_ne!(native, bridge);
    assert_eq!(reg.client_compositor_state(native), &(CompositorClientState { commits: 0 }));
    assert_eq!(reg.client_compositor_state(bridge), &(CompositorClientState { commits: 0 }));
    assert!(reg.record_commit(bridge));
    assert!(reg.record_commit(bridge));
    assert!(reg.record_commit(native));
    assert_eq!(reg.client_compositor_state(bridge), &(CompositorClientState { commits: 2 }));
    assert_eq!(reg.client_compositor_state(native), &(CompositorClientState { commits: 1 }));
    assert!(!reg.record_commit(77));
}

#[test]
fn label_set_once_never_changes() {
    let mut reg = ClientRegistry::new();
    let id = reg.insert_client(None);
    assert!(reg.security_context(id).is_none());
    assert_eq!(reg.attach_security_context(id, label("org.one")), Ok(()));
    assert_eq!(reg.attach_security_context(id, label("org.two")), Err(SecurityContextError::AlreadySet));
    assert!(reg.record_commit(id));
    let l = reg.security_context(id).unwrap();
    assert_eq!(l.app_id.as_deref(), Some("org.one"));
    assert_eq!(l.sandbox_engine.as_deref(), Some("flatpak"));
}

#[test]
fn label_given_at_connection_is_kept() {
    let mut reg = ClientRegistry::new();
    let id = reg.insert_client(Some(label("org.app")));
    assert_eq!(reg.attach_security_context(id, label("org.other")), Err(SecurityContextError::AlreadySet));
    assert_eq!(reg.security_context(id).unwrap().app_id.as_deref(), Some("org.app"));
}

#[test]
fn unlabelled_client_stays_unlabelled() {
    let mut reg = ClientRegistry::new();
    let id = reg.insert_client(None);
    let other = reg.insert_client(None);
    assert_eq!(reg.attach_security_context(other, label("x")), Ok(()));
    assert!(reg.record_commit(id));
    assert!(reg.security_context(id).is_none());
}

#[test]
fn security_context_errors() {
    let mut reg = ClientRegistry::new();
    let bridge = reg.insert_bridge_client();
    assert_eq!(reg.attach_security_context(bridge, label("a")), Err(SecurityContextError::BridgeClient));
    assert!(reg.security_context(bridge).is_none());
    assert_eq!(reg.attach_security_context(5, label("a")), Err(SecurityContextError::UnknownClient));
}

#[test]
fn removed_client_is_gone() {
    let mut reg = ClientRegistry::new();
    let id = reg.insert_client(Some(label("a")));
    assert!(reg.contains(id));
    assert!(reg.remove_client(id).is_some());
    assert!(!reg.contains(id));
    assert!(reg.remove_client(id).is_none());
    assert_eq!(reg.next_id(), 1);
    let again = reg.insert_client(None);
    assert_eq!(again, 1);
    assert!(reg.security_context(again).is_none());
}

use mocha_compositor::shell::{MappedElement, PopupRequest, Rectangle, Role, Shell};

#[test]
fn new_toplevel_maps_at_origin_not_activated() {
    let mut shell = Shell::new();
    let s = shell.create_surface(1);
    assert!(shell.surface(s).unwrap().current_buffer.is_none());
    assert!(shell.new_toplevel(s));
    assert_eq!(shell.space_len(), 1);
    assert_eq!(shell.element(0), Some(MappedElement { surface: s, x: 0, y: 0, activated: false }));
    assert_eq!(shell.surface(s).unwrap().role, Role::Toplevel);
}

#[test]
fn second_toplevel_goes_on_top() {
    let mut shell = Shell::new();
    let a = shell.create_surface(1);
    let b = shell.create_surface(2);
    assert!(shell.new_toplevel(a));
    assert!(shell.new_toplevel(b));
    assert_eq!(shell.element(0).unwrap().surface, a);
    assert_eq!(shell.element(1).unwrap().surface, b);
    // Mapping `a` again raises it without duplicating it.
    assert!(shell.new_toplevel(a));
    assert_eq!(shell.space_len(), 2);
    assert_eq!(shell.element(0).unwrap().surface, b);
    assert_eq!(shell.element(1).unwrap().surface, a);
    assert_eq!(shell.element(2), None);
}

#[test]
fn toplevel_rejected_for_unknown_or_popup() {
    let mut shell = Shell::new();
    assert!(!shell.new_toplevel(42));
    let p = shell.create_surface(1);
    assert!(shell.new_popup(p));
    assert!(!shell.new_toplevel(p));
    assert_eq!(shell.space_len(), 0);
    assert_eq!(shell.surface(p).unwrap().role, Role::Popup);
    let t = shell.create_surface(1);
    assert!(shell.new_toplevel(t));
    assert!(!shell.new_popup(t));
}

#[test]
fn commit_moves_pending_to_current_and_releases_superseded() {
    let mut shell = Shell::new();
    let s = shell.create_surface(3);
    assert!(shell.attach(s, 10));
    let r = Rectangle { x: 0, y: 0, width: 4, height: 4 };
    assert!(shell.damage(s, r));
    assert_eq!(shell.commit(s), None);
    {
        let surf = shell.surface(s).unwrap();
        assert_eq!(surf.current_buffer, Some(10));
        assert_eq!(surf.pending_buffer, None);
        assert_eq!(surf.current_damage, vec![r]);
        assert!(surf.pending_damage.is_empty());
        assert_eq!(surf.client, 3);
    }
    assert!(shell.attach(s, 11));
    assert_eq!(shell.commit(s), Some(10));
    assert_eq!(shell.surface(s).unwrap().current_buffer, Some(11));
    assert!(shell.surface(s).unwrap().current_damage.is_empty());
    // Committing with nothing pending keeps the current buffer.
    assert_eq!(shell.commit(s), None);
    assert_eq!(shell.surface(s).unwrap().current_buffer, Some(11));
    // Re-attaching the same buffer releases nothing.
    assert!(shell.attach(s, 11));
    assert_eq!(shell.commit(s), None);
    assert_eq!(shell.commit(999), None);
    assert!(!shell.attach(999, 1));
    assert!(!shell.damage(999, r));
}

#[test]
fn destroy_unmaps_and_releases() {
    let mut shell = Shell::new();
    let a = shell.create_surface(1);
    let b = shell.create_surface(1);
    assert!(shell.new_toplevel(a));
    assert!(shell.new_toplevel(b));
    assert!(shell.attach(a, 5));
    assert_eq!(shell.commit(a), None);
    assert_eq!(shell.destroy_surface(a), Some(5));
    assert_eq!(shell.space_len(), 1);
    assert_eq!(shell.element(0).unwrap().surface, b);
    assert!(shell.surface(a).is_none());
    assert_eq!(shell.destroy_surface(a), None);
}

#[test]
fn popup_requests_are_recorded_only() {
    let mut shell = Shell::new();
    let p = shell.create_surface(1);
    assert!(shell.new_popup(p));
    shell.grab(p, 17);
    shell.reposition_request(p, 4);
    assert_eq!(shell.space_len(), 0);
    assert_eq!(shell.next_surface(), 1);
    let _ = PopupRequest { surface: p, value: 17 };
}

use mybox::window::{window_profile, WindowId, WindowKind};

#[test]
fn window_kind_has_three_distinct_variants() {
    let kinds = [WindowKind::Overlay, WindowKind::Floating, WindowKind::Panel];
    assert_eq!(kinds.len(), 3);
    assert_ne!(WindowKind::Overlay, WindowKind::Floating);
    assert_ne!(WindowKind::Floating, WindowKind::Panel);
    assert_ne!(WindowKind::Overlay, WindowKind::Panel);
}

#[test]
fn window_id_is_u64() {
    let id: WindowId = 42u64;
    assert_eq!(id, 42);
}

#[test]
fn window_attributes_panel_is_decorated() {
    let profile = window_profile(WindowKind::Panel, true, false, None, None);
    assert!(profile.decorations, "Panel must keep decorations");
    assert!(!profile.transparent);
    assert!(!profile.always_on_top);
}

#[test]
fn window_attributes_overlay_is_transparent_always_on_top() {
    let profile = window_profile(WindowKind::Overlay, true, false, None, None);
    assert!(profile.transparent, "Overlay must request transparency");
    assert!(!profile.decorations, "Overlay must be undecorated");
    assert!(profile.always_on_top, "Overlay must be always-on-top");
}

#[test]
fn window_attributes_floating_is_always_on_top() {
    let profile = window_profile(WindowKind::Floating, true, false, None, None);
    assert!(!profile.decorations, "Floating must be undecorated");
    assert!(profile.always_on_top, "Floating must be always-on-top");
}

#[test]
fn window_attributes_maps_inner_size_and_position() {
    let profile = window_profile(WindowKind::Panel, true, false, Some((800, 600)), Some((10, 20)));
    assert_eq!(profile.inner_size, Some((800, 600)));
    assert_eq!(profile.position, Some((10, 20)));
}

#[test]
fn window_attributes_maps_visible_and_always_on_top() {
    let profile = window_profile(WindowKind::Panel, false, true, None, None);
    assert!(!profile.visible, "spec.visible=false must map to hidden");
    assert!(profile.always_on_top, "spec.always_on_top must map to AlwaysOnTop");
}

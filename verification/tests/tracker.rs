use wayland_proxy::opcodes;
use wayland_proxy::tracker::ObjectTracker;

#[test]
fn test_object_tracker() {
    let mut tracker = ObjectTracker::new();

    // Initially empty
    assert!(!tracker.is_wl_registry(2));
    assert!(!tracker.is_xdg_wm_base(10));
    assert!(!tracker.is_xdg_toplevel(20));

    // Track wl_registry
    tracker.track_registry(2);
    assert!(tracker.is_wl_registry(2));

    // Track xdg_wm_base
    tracker.track_bind("xdg_wm_base", 10);
    assert!(tracker.is_xdg_wm_base(10));

    // Track xdg_surface via xdg_wm_base.get_xdg_surface
    let result = tracker.track_request(10, opcodes::XDG_WM_BASE_GET_XDG_SURFACE, 15);
    assert!(result.is_none());
    assert!(tracker.is_xdg_surface(15));

    // Track xdg_toplevel via xdg_surface.get_toplevel
    let result = tracker.track_request(15, opcodes::XDG_SURFACE_GET_TOPLEVEL, 20);
    assert_eq!(result, Some(20));
    assert!(tracker.is_xdg_toplevel(20));

    // Check set_app_id detection
    assert!(tracker.is_set_app_id(20, opcodes::XDG_TOPLEVEL_SET_APP_ID));
    assert!(!tracker.is_set_app_id(20, 0)); // Wrong opcode
    assert!(!tracker.is_set_app_id(99, opcodes::XDG_TOPLEVEL_SET_APP_ID)); // Wrong object

    // Test destroy tracking
    assert!(tracker.track_destroy(20, opcodes::XDG_TOPLEVEL_DESTROY));
    assert!(!tracker.is_xdg_toplevel(20));

    assert!(tracker.track_destroy(15, opcodes::XDG_SURFACE_DESTROY));
    assert!(!tracker.is_xdg_surface(15));

    assert!(tracker.track_destroy(10, opcodes::XDG_WM_BASE_DESTROY));
    assert!(!tracker.is_xdg_wm_base(10));
}

#[test]
fn other_interfaces_are_not_tracked() {
    let mut tracker = ObjectTracker::default();
    tracker.track_bind("wl_compositor", 10);
    tracker.track_bind("xdg_wm_base2", 11);
    assert!(!tracker.is_xdg_wm_base(10));
    assert!(!tracker.is_xdg_wm_base(11));
    assert_eq!(tracker.stats(), "registries=0, wm_bases=0, surfaces=0, toplevels=0");
}

#[test]
fn requests_of_unknown_objects_are_not_tracked() {
    let mut tracker = ObjectTracker::new();
    tracker.track_bind("xdg_wm_base", 10);
    assert_eq!(tracker.track_request(11, opcodes::XDG_WM_BASE_GET_XDG_SURFACE, 15), None);
    assert_eq!(tracker.track_request(10, opcodes::XDG_WM_BASE_GET_XDG_SURFACE, 0), None);
    assert_eq!(tracker.track_request(10, opcodes::XDG_SURFACE_GET_TOPLEVEL, 15), None);
    assert_eq!(tracker.stats(), "registries=0, wm_bases=1, surfaces=0, toplevels=0");
    assert_eq!(tracker.track_request(10, opcodes::XDG_WM_BASE_GET_XDG_SURFACE, 15), None);
    assert_eq!(tracker.track_request(15, opcodes::XDG_SURFACE_GET_TOPLEVEL, 0), None);
    assert_eq!(tracker.stats(), "registries=0, wm_bases=1, surfaces=1, toplevels=0");
}

#[test]
fn destroy_needs_the_opcode_and_the_object() {
    let mut tracker = ObjectTracker::new();
    tracker.track_registry(2);
    tracker.track_bind("xdg_wm_base", 10);
    assert!(!tracker.track_destroy(10, 1));
    assert!(!tracker.track_destroy(11, 0));
    assert!(!tracker.track_destroy(2, 0));
    assert!(tracker.is_wl_registry(2));
    assert!(tracker.is_xdg_wm_base(10));
}

#[test]
fn an_id_can_be_used_again() {
    let mut tracker = ObjectTracker::new();
    tracker.track_bind("xdg_wm_base", 10);
    tracker.track_bind("xdg_wm_base", 12);
    tracker.track_bind("xdg_wm_base", 10);
    assert_eq!(tracker.stats(), "registries=0, wm_bases=3, surfaces=0, toplevels=0");
    assert!(tracker.track_destroy(10, opcodes::XDG_WM_BASE_DESTROY));
    assert!(!tracker.is_xdg_wm_base(10));
    assert!(tracker.is_xdg_wm_base(12));
    assert!(!tracker.track_destroy(10, opcodes::XDG_WM_BASE_DESTROY));
    tracker.track_bind("xdg_wm_base", 10);
    assert!(tracker.is_xdg_wm_base(10));
    assert_eq!(tracker.stats(), "registries=0, wm_bases=2, surfaces=0, toplevels=0");
}

#[test]
fn destroy_takes_the_farthest_kind_first() {
    let mut tracker = ObjectTracker::new();
    tracker.track_bind("xdg_wm_base", 10);
    tracker.track_request(10, opcodes::XDG_WM_BASE_GET_XDG_SURFACE, 10);
    tracker.track_request(10, opcodes::XDG_SURFACE_GET_TOPLEVEL, 10);
    assert!(tracker.track_destroy(10, 0));
    assert_eq!(tracker.stats(), "registries=0, wm_bases=1, surfaces=1, toplevels=0");
    assert!(tracker.track_destroy(10, 0));
    assert_eq!(tracker.stats(), "registries=0, wm_bases=1, surfaces=0, toplevels=0");
    assert!(tracker.track_destroy(10, 0));
    assert_eq!(tracker.stats(), "registries=0, wm_bases=0, surfaces=0, toplevels=0");
    assert!(!tracker.track_destroy(10, 0));
}

#[test]
fn the_id_zero_is_no_object() {
    let mut tracker = ObjectTracker::new();
    tracker.track_registry(2);
    tracker.track_registry(0);
    tracker.track_bind("xdg_wm_base", 0);
    tracker.track_bind("wl_shm", 0);
    assert!(tracker.is_wl_registry(2));
    assert!(!tracker.is_wl_registry(0));
    assert!(!tracker.is_xdg_wm_base(0));
    assert_eq!(tracker.stats(), "registries=1, wm_bases=0, surfaces=0, toplevels=0");
}

use wprs_compositor::cursor::present;
use wprs_compositor::cursor::CursorImageStatus;
use wprs_compositor::cursor::PointerImage;
use wprs_compositor::decoration::DecorationBehavior;
use wprs_compositor::geometry::Point;
use wprs_compositor::lifecycle::bridge_step;
use wprs_compositor::lifecycle::compatibility_name;
use wprs_compositor::lifecycle::display_name;
use wprs_compositor::lifecycle::BridgeAction;
use wprs_compositor::lifecycle::BridgeSignal;
use wprs_compositor::lifecycle::BridgeState;
use wprs_compositor::registry::Role;
use wprs_compositor::registry::X11Window;
use wprs_compositor::state::WprsCompositorState;

fn waiting_window(id: u32, surface: u64) -> X11Window {
    X11Window { id, surface: Some(surface), transient_for: None, origin: Point { x: 0, y: 0 } }
}

#[test]
fn decoration_defaults_to_auto() {
    assert_eq!(DecorationBehavior::default(), DecorationBehavior::Auto);
    assert_ne!(DecorationBehavior::AlwaysEnabled, DecorationBehavior::AlwaysDisabled);
}

#[test]
fn state_starts_with_nothing() {
    let state = WprsCompositorState::new(DecorationBehavior::AlwaysDisabled);
    assert_eq!(state.decoration_behavior, DecorationBehavior::AlwaysDisabled);
    assert_eq!(state.surfaces().len(), 0);
    assert_eq!(state.outputs().len(), 0);
    assert!(state.unpaired_windows().is_empty());
    assert_eq!(state.pointer(), &PointerImage::Untouched);
    assert_eq!(state.bridge(), BridgeState::Starting);
    assert!(!state.has_session());
}

#[test]
fn hidden_then_surface_shows_the_surface_at_its_hotspot() {
    let mut state = WprsCompositorState::new(DecorationBehavior::Auto);
    state.cursor_image(CursorImageStatus::Hidden, 11);
    assert_eq!(state.pointer(), &PointerImage::Hidden);
    assert_eq!(state.surfaces().len(), 0);
    state.cursor_image(CursorImageStatus::Surface { surface: 8, hotspot: Point { x: 4, y: 9 } }, 12);
    assert_eq!(
        state.pointer(),
        &PointerImage::Surface { surface: 8, hotspot: Point { x: 4, y: 9 }, serial: 12 }
    );
    assert_eq!(state.surface(8).unwrap().role, Role::Cursor);
    assert_eq!(state.surface(8).unwrap().x11_window, None);
}

#[test]
fn cursor_surface_keeps_what_was_known_of_it() {
    let mut state = WprsCompositorState::new(DecorationBehavior::Auto);
    state.set_role(8, Role::Popup);
    state.set_role(9, Role::Popup);
    state.cursor_image(CursorImageStatus::Surface { surface: 8, hotspot: Point { x: 0, y: 0 } }, 1);
    assert_eq!(state.surface(8).unwrap().role, Role::Cursor);
    assert_eq!(state.surface(9).unwrap().role, Role::Popup);
    assert_eq!(state.surfaces().len(), 2);
}

#[test]
fn named_cursor_is_shown_by_name() {
    let mut state = WprsCompositorState::new(DecorationBehavior::Auto);
    state.cursor_image(CursorImageStatus::Named("text".to_string()), 3);
    assert_eq!(state.pointer(), &PointerImage::Named("text".to_string()));
    assert_eq!(state.surfaces().len(), 0);
    state.cursor_image(CursorImageStatus::Hidden, 4);
    assert_eq!(state.pointer(), &PointerImage::Hidden);
}

#[test]
fn present_builds_the_image_for_each_status() {
    assert_eq!(present(CursorImageStatus::Hidden, 1), PointerImage::Hidden);
    assert_eq!(
        present(CursorImageStatus::Surface { surface: 2, hotspot: Point { x: -1, y: 1 } }, 77),
        PointerImage::Surface { surface: 2, hotspot: Point { x: -1, y: 1 }, serial: 77 }
    );
    assert_eq!(
        present(CursorImageStatus::Named("grab".to_string()), 1),
        PointerImage::Named("grab".to_string())
    );
}

#[test]
fn readiness_starts_a_session_with_the_compatibility_name() {
    let (state, action) = bridge_step(BridgeSignal::Ready { display: 7 });
    assert_eq!(state, BridgeState::Ready);
    assert_eq!(
        action,
        BridgeAction::StartSession { display_name: ":7".to_string(), wm_name: "LG3D".to_string() }
    );
    let (state, action) = bridge_step(BridgeSignal::Exited);
    assert_eq!(state, BridgeState::Exited);
    assert_eq!(action, BridgeAction::DropSession);
}

#[test]
fn display_names_are_a_colon_and_the_number() {
    assert_eq!(display_name(0), ":0");
    assert_eq!(display_name(10), ":10");
    assert_eq!(display_name(4294967295), ":4294967295");
    assert_eq!(compatibility_name(), "LG3D");
}

#[test]
fn session_exists_only_while_the_server_is_up() {
    let mut state = WprsCompositorState::new(DecorationBehavior::Auto);
    assert!(!state.has_session());
    let action = state.bridge_signal(BridgeSignal::Ready { display: 1 });
    assert_eq!(
        action,
        BridgeAction::StartSession { display_name: ":1".to_string(), wm_name: "LG3D".to_string() }
    );
    assert!(state.has_session());
    assert_eq!(state.bridge(), BridgeState::Ready);
    assert_eq!(state.bridge_signal(BridgeSignal::Exited), BridgeAction::DropSession);
    assert!(!state.has_session());
    assert_eq!(state.bridge(), BridgeState::Exited);
    state.bridge_signal(BridgeSignal::Ready { display: 2 });
    assert!(state.has_session());
}

#[test]
fn windows_are_passed_over_while_the_bridge_is_down() {
    let mut state = WprsCompositorState::new(DecorationBehavior::Auto);
    assert!(!state.add_x11_surface(waiting_window(100, 1)));
    assert!(state.unpaired_windows().is_empty());
    state.bridge_signal(BridgeSignal::Ready { display: 0 });
    assert!(state.add_x11_surface(waiting_window(100, 1)));
    assert_eq!(state.unpaired_windows(), &vec![waiting_window(100, 1)]);
    state.bridge_signal(BridgeSignal::Exited);
    assert!(!state.add_x11_surface(waiting_window(101, 2)));
    assert_eq!(state.unpaired_windows(), &vec![waiting_window(100, 1)]);
}

#[test]
fn window_that_waits_already_is_replaced_in_place() {
    let mut state = WprsCompositorState::new(DecorationBehavior::Auto);
    state.bridge_signal(BridgeSignal::Ready { display: 0 });
    let early = X11Window { id: 100, surface: None, transient_for: None, origin: Point { x: 0, y: 0 } };
    assert!(state.add_x11_surface(early));
    assert!(state.add_x11_surface(waiting_window(101, 2)));
    assert!(state.add_x11_surface(waiting_window(100, 1)));
    assert_eq!(state.unpaired_windows(), &vec![waiting_window(100, 1), waiting_window(101, 2)]);
}

#[test]
fn removing_a_surface_leaves_the_rest() {
    let mut state = WprsCompositorState::new(DecorationBehavior::Auto);
    state.set_role(1, Role::Popup);
    state.set_role(2, Role::Cursor);
    let removed = state.remove_surface(1).unwrap();
    assert_eq!(removed.role, Role::Popup);
    assert!(state.surface(1).is_none());
    assert_eq!(state.surface(2).unwrap().role, Role::Cursor);
    assert!(state.remove_surface(1).is_none());
}

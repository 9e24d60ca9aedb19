use aurora_kvm::config::{default_height, default_local_screens, default_width, ClientConfig, Config, LocalScreen};
use aurora_kvm::event::{KeyCode, KvmEvent};
use aurora_kvm::topology::{Focus, RouteAction, Topology};

fn screen(x: i32, y: i32, width: u32, height: u32) -> LocalScreen {
    LocalScreen { x, y, width, height }
}

fn client(name: &str, x: i32, y: i32, width: u32, height: u32) -> ClientConfig {
    ClientConfig {
        name: name.to_string(),
        ip: "192.168.1.50".to_string(),
        x,
        y,
        width,
        height,
    }
}

fn config(local_screens: Vec<LocalScreen>, clients: Vec<ClientConfig>) -> Config {
    Config {
        port: 8080,
        secret: None,
        input_grab_hotkey: None,
        local_screens,
        clients,
    }
}

/// Coordinates are thousandths of a pixel.
fn mv(x_mpx: i64, y_mpx: i64) -> KvmEvent {
    KvmEvent::PointerMove { x: x_mpx, y: y_mpx }
}

fn focus_name(t: &Topology) -> Option<String> {
    match t.get_focus() {
        Focus::Local => None,
        Focus::Client(n) => Some(n.clone()),
    }
}

#[test]
fn boundary_is_half_open() {
    let t = Topology::new(config(vec![screen(0, 0, 1920, 1080)], vec![]));
    // 1919.9 pixels is inside; 1920.0 is not; the top edge belongs to the rect.
    assert!(t.inside_local(1_919_900, 0));
    assert!(!t.inside_local(1_920_000, 0));
    assert!(t.inside_local(0, 1_079_999));
    assert!(!t.inside_local(0, 1_080_000));
    assert!(!t.inside_local(-1, 0));
}

#[test]
fn new_caches_union_bounding_box() {
    let t = Topology::new(config(
        vec![screen(0, 0, 1920, 1080), screen(1920, 0, 2560, 1440)],
        vec![],
    ));
    assert_eq!(t.screen_width, 4480);
    assert_eq!(t.screen_height, 1440);
    assert_eq!(t.cursor_x, 0);
    assert_eq!(t.cursor_y, 0);
    assert!(matches!(t.get_focus(), Focus::Local));
}

#[test]
fn check_edge_needs_point_outside_local() {
    let t = Topology::new(config(
        vec![screen(0, 0, 1920, 1080)],
        vec![client("R", 1920, 0, 1920, 1080)],
    ));
    // Inside the local screen: no hand-off.
    assert!(t.check_edge(1_000_000, 500_000).is_none());
    // Outside local, inside R.
    match t.check_edge(2_000_000, 500_000) {
        Some(Focus::Client(n)) => assert_eq!(n, "R"),
        other => panic!("expected hand-off to R, got {:?}", other),
    }
    // Outside everything: stay local rather than lose input into a void.
    assert!(t.check_edge(-5_000_000, 500_000).is_none());
}

#[test]
fn check_edge_first_match_in_config_order() {
    let t = Topology::new(config(
        vec![screen(0, 0, 1920, 1080)],
        vec![
            client("first", 1920, 0, 1920, 1080),
            client("second", 1920, 0, 1920, 1080),
        ],
    ));
    match t.check_edge(2_000_000, 500_000) {
        Some(Focus::Client(n)) => assert_eq!(n, "first"),
        other => panic!("expected first-match hand-off, got {:?}", other),
    }
}

#[test]
fn single_right_hand_client_hand_off() {
    let mut t = Topology::new(config(
        vec![screen(0, 0, 1920, 1080)],
        vec![client("R", 1920, 0, 1920, 1080)],
    ));
    // (1919, 540): still local, passed through.
    let a1 = t.route_event(&mv(1_919_000, 540_000));
    assert_eq!(a1, RouteAction::PassThrough);
    assert_eq!(focus_name(&t), None);
    // (1920.0, 540): focus transitions exactly on this event; the
    // triggering event is the last one the server OS sees.
    let a2 = t.route_event(&mv(1_920_000, 540_000));
    assert_eq!(a2, RouteAction::PassThrough);
    assert_eq!(focus_name(&t), Some("R".to_string()));
    assert_eq!(t.cursor_x, 1_920_000);
    assert_eq!(t.cursor_y, 540_000);
}

#[test]
fn return_home_restores_local_focus() {
    let mut t = Topology::new(config(
        vec![screen(0, 0, 1920, 1080)],
        vec![client("R", 1920, 0, 1920, 1080)],
    ));
    t.route_event(&mv(1_919_000, 540_000));
    t.route_event(&mv(1_920_000, 540_000));
    assert_eq!(focus_name(&t), Some("R".to_string()));
    // Leftward movement totaling five pixels: back at (1915, 540), the
    // hand-back event is delivered to the local OS.
    let back = t.route_event(&mv(1_915_000, 540_000));
    assert_eq!(back, RouteAction::PassThrough);
    assert_eq!(focus_name(&t), None);
    assert_eq!(t.cursor_x, 1_915_000);
    assert_eq!(t.cursor_y, 540_000);
}

#[test]
fn two_clients_left_edge_hand_off() {
    let mut t = Topology::new(config(
        vec![screen(0, 0, 1920, 1080)],
        vec![
            client("L", -1920, 0, 1920, 1080),
            client("R", 1920, 0, 1920, 1080),
        ],
    ));
    // From (0, 540) one pixel to the left: leaves the local screen on the
    // left edge and lands in L.
    t.route_event(&mv(-1_000, 540_000));
    assert_eq!(focus_name(&t), Some("L".to_string()));
    // Far beyond L's rectangle: focus remains with L.
    let a = t.route_event(&mv(-2_000_000, 540_000));
    assert_eq!(a, RouteAction::Forward);
    assert_eq!(focus_name(&t), Some("L".to_string()));
}

#[test]
fn pointer_inside_local_never_changes_focus() {
    let mut t = Topology::new(config(
        vec![screen(0, 0, 1920, 1080)],
        vec![client("R", 1920, 0, 1920, 1080)],
    ));
    for i in 0..100 {
        let a = t.route_event(&mv(i * 19_000, i * 10_000));
        assert_eq!(a, RouteAction::PassThrough);
        assert_eq!(focus_name(&t), None);
    }
}

#[test]
fn cursor_tracks_every_pointer_move_regardless_of_focus() {
    let mut t = Topology::new(config(
        vec![screen(0, 0, 1920, 1080)],
        vec![client("R", 1920, 0, 1920, 1080)],
    ));
    t.route_event(&mv(2_000_000, 300_000));
    assert_eq!(focus_name(&t), Some("R".to_string()));
    t.route_event(&mv(2_500_000, 400_000));
    assert_eq!(t.cursor_x, 2_500_000);
    assert_eq!(t.cursor_y, 400_000);
    // A key event does not move the cursor.
    t.route_event(&KvmEvent::Key { key: KeyCode::KeyA, pressed: true });
    assert_eq!(t.cursor_x, 2_500_000);
}

#[test]
fn non_pointer_events_follow_focus() {
    let mut t = Topology::new(config(
        vec![screen(0, 0, 1920, 1080)],
        vec![client("R", 1920, 0, 1920, 1080)],
    ));
    let key = KvmEvent::Key { key: KeyCode::Return, pressed: true };
    assert_eq!(t.route_event(&key), RouteAction::PassThrough);
    t.route_event(&mv(2_000_000, 500_000));
    assert_eq!(t.route_event(&key), RouteAction::Forward);
}

#[test]
fn remote_to_remote_hand_over() {
    let mut t = Topology::new(config(
        vec![screen(0, 0, 1920, 1080)],
        vec![
            client("L", -1920, 0, 1920, 1080),
            client("R", 1920, 0, 1920, 1080),
        ],
    ));
    t.route_event(&mv(2_000_000, 500_000));
    assert_eq!(focus_name(&t), Some("R".to_string()));
    let a = t.route_event(&mv(-1_000_000, 500_000));
    assert_eq!(a, RouteAction::Forward);
    assert_eq!(focus_name(&t), Some("L".to_string()));
}

#[test]
fn check_edge_is_idle_while_focus_is_remote() {
    let mut t = Topology::new(config(
        vec![screen(0, 0, 1920, 1080)],
        vec![client("R", 1920, 0, 1920, 1080)],
    ));
    t.set_focus(Focus::Client("R".to_string()));
    // The hand-off question only arises while focus is local.
    assert!(t.check_edge(2_000_000, 500_000).is_none());
}

#[test]
fn set_focus_and_update_config() {
    let mut t = Topology::new(config(vec![screen(0, 0, 1920, 1080)], vec![]));
    t.set_focus(Focus::Client("X".to_string()));
    assert_eq!(focus_name(&t), Some("X".to_string()));
    t.set_focus(Focus::Local);
    assert_eq!(focus_name(&t), None);
    let fresh = config(vec![screen(0, 0, 800, 600)], vec![]);
    t.update_config(fresh);
    assert_eq!(t.get_config().local_screens[0].width, 800);
    t.update_screen_size(800, 600);
    assert_eq!(t.screen_width, 800);
    assert_eq!(t.screen_height, 600);
}

#[test]
fn config_defaults() {
    let screens = default_local_screens();
    assert_eq!(screens.len(), 1);
    assert_eq!(screens[0].x, 0);
    assert_eq!(screens[0].y, 0);
    assert_eq!(screens[0].width, 1920);
    assert_eq!(screens[0].height, 1080);
    assert_eq!(default_width(), 1920);
    assert_eq!(default_height(), 1080);
}

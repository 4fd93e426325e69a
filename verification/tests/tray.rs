use keylight_commander::i18n::{Locale, Message};
use keylight_commander::lights::{Device, DeviceView, LightState, Settings, Snapshot};
use keylight_commander::tray::{
    device_key, find_action, menu, menu_command, reciprocal_of, show_window_after_check,
    show_window_at_start, tick_plan, tray_host_answer, tray_usable, MenuCommand, MenuNode,
};

fn view(id: &str, name: &str, state: Option<LightState>) -> DeviceView {
    DeviceView {
        device: Device {
            id: id.into(),
            host: "h".into(),
            port: 1,
            name: name.into(),
            info: "{}".into(),
            state: None,
            error: None,
        },
        state,
        error: None,
    }
}

fn title(n: &MenuNode) -> &str {
    match n {
        MenuNode::Item { title, .. } => title,
        MenuNode::Submenu { title, .. } => title,
        MenuNode::Separator => "",
    }
}

#[test]
fn kelvin_and_mired_round_to_nearest() {
    assert_eq!(reciprocal_of(3000), 333);
    assert_eq!(reciprocal_of(4000), 250);
    assert_eq!(reciprocal_of(5000), 200);
    assert_eq!(reciprocal_of(6500), 154);
    assert_eq!(reciprocal_of(143), 6993);
    assert_eq!(reciprocal_of(344), 2907);
    assert_eq!(reciprocal_of(0), u32::MAX);
    for k in 1..20000u32 {
        assert_eq!(reciprocal_of(k), (1_000_000.0 / k as f64).round() as u32);
    }
}

#[test]
fn device_keys_are_hex_bytes() {
    assert_eq!(device_key(&"ab".to_string()), "6162");
    assert_eq!(device_key(&"\u{e4}".to_string()), "c3a4");
}

#[test]
fn empty_menu_has_disabled_group_controls() {
    let s = Snapshot {
        locale: Locale::En,
        devices: vec![],
        settings: Settings::default(),
        scanning: true,
        message: None,
    };
    let (nodes, actions) = menu(&s);
    assert!(matches!(&nodes[0], MenuNode::Item { id, enabled: false, .. } if id == "all-on"));
    assert!(matches!(&nodes[4], MenuNode::Item { id, enabled: false, .. } if id == "empty"));
    assert!(matches!(&nodes[6], MenuNode::Item { id, enabled: false, .. } if id == "scan"));
    assert_eq!(title(&nodes[6]), "Searching\u{2026}");
    assert_eq!(nodes.len(), 10);
    assert_eq!(actions.len(), 2 + 11);
    let (target, patch) = find_action(&actions, "all-t3000").unwrap();
    assert!(target.is_none());
    assert_eq!(patch.temperature, Some(333));
}

#[test]
fn light_menus_show_status_and_presets() {
    let s = Snapshot {
        locale: Locale::De,
        devices: vec![
            view("ab", "Desk", Some(LightState { on: 1, brightness: 40, temperature: 200 })),
            view("c", "Shelf", None),
        ],
        settings: Settings::default(),
        scanning: false,
        message: Some(Message::new("error.no_lights")),
    };
    let (nodes, actions) = menu(&s);
    assert_eq!(title(&nodes[4]), "Desk \u{b7} Ein");
    match &nodes[4] {
        MenuNode::Submenu { children, .. } => {
            assert_eq!(title(&children[0]), "40% \u{b7} 5000 K");
            assert!(matches!(&children[0], MenuNode::Item { id, .. } if id == "status-6162"));
        }
        _ => panic!("a light has a submenu"),
    }
    assert_eq!(title(&nodes[5]), "Shelf \u{b7} Offline");
    match &nodes[5] {
        MenuNode::Submenu { children, .. } => {
            assert!(matches!(&children[0], MenuNode::Item { enabled: false, .. }))
        }
        _ => panic!("a light has a submenu"),
    }
    assert_eq!(title(&nodes[7]), "Achtung: Das Ger\u{e4}t meldet keine Lampe");
    let (target, patch) = find_action(&actions, "device-6162-b75").unwrap();
    assert_eq!(target.as_deref(), Some("ab"));
    assert_eq!(patch.brightness, Some(75));
    assert_eq!(actions.len(), 2 + 3 * 11);
}

#[test]
fn menu_entries_map_to_commands() {
    assert_eq!(menu_command("quit"), MenuCommand::Quit);
    assert_eq!(menu_command("open"), MenuCommand::Open);
    assert_eq!(menu_command("settings"), MenuCommand::Settings);
    assert_eq!(menu_command("scan"), MenuCommand::Scan);
    assert_eq!(menu_command("all-on"), MenuCommand::Action);
}

#[test]
fn background_loop_cadence() {
    let p = tick_plan(0, false);
    assert!(p.check_tray_host && p.refresh);
    let p = tick_plan(3, false);
    assert!(!p.check_tray_host && !p.refresh);
    let p = tick_plan(3, true);
    assert!(!p.check_tray_host && p.refresh);
}

#[test]
fn tray_host_and_window_decisions() {
    assert!(tray_host_answer(true, b"(true,)\n"));
    assert!(!tray_host_answer(true, b"(false,)\n"));
    assert!(!tray_host_answer(false, b"(true,)\n"));
    assert!(!tray_host_answer(true, b"tru"));
    assert!(tray_host_answer(true, b"\xff\xfetrue"));
    assert!(tray_usable(true, true));
    assert!(!tray_usable(true, false));
    assert!(show_window_at_start(true, true, true));
    assert!(show_window_at_start(false, false, true));
    assert!(!show_window_at_start(false, true, true));
    assert!(show_window_after_check(true, false));
    assert!(!show_window_after_check(false, false));
}

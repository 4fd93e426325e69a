use keylight_commander::json::object_members;
use keylight_commander::lights::{display_name_from_members, identity_from_members};
use keylight_commander::i18n::{Language, Locale, Message};
use keylight_commander::lights::{
    add_found, confirmed_state, discovery_message, identity, IdentifyAction, IdentifyStage,
    Identification,
    merge, save_error, should_poll, url, ConfigRead, Controller, Device, LightState, Outcome,
    Patch, Saved, SaveStep, Settings, SettingsAction, SettingsStage,
};
use keylight_commander::order::{sort_devices, sorted_unique, text_before};

fn device(id: &str, name: &str, port: u16) -> Device {
    Device {
        id: id.to_string(),
        host: "127.0.0.1".to_string(),
        port,
        name: name.to_string(),
        info: "{}".to_string(),
        state: None,
        error: None,
    }
}

#[test]
fn identity_falls_back_to_mac_and_invalid_values_are_rejected() {
    assert_eq!(
        identity(r#"{"serialNumber":"","macAddress":"AA:BB"}"#),
        Some("macAddress:aa:bb".into())
    );
    assert!(Patch {
        brightness: Some(101),
        ..Default::default()
    }
    .apply(&mut LightState::default())
    .is_err());
}

#[test]
fn identity_prefers_serial_and_trims_unicode_space() {
    assert_eq!(
        identity(r#"{"serialNumber":" \u00a0CW12AB\t","macAddress":"AA:BB"}"#),
        Some("serialNumber:cw12ab".into())
    );
    assert_eq!(identity(r#"{"serialNumber":5,"macAddress":" "}"#), None);
    assert_eq!(identity("not json"), None);
    assert_eq!(identity("[1,2]"), None);
}

#[test]
fn patches_preserve_other_fields() {
    let mut s = LightState { on: 0, brightness: 35, temperature: 200 };
    Patch { brightness: Some(75), ..Default::default() }.apply(&mut s).unwrap();
    Patch { on: Some(1), ..Default::default() }.apply(&mut s).unwrap();
    assert_eq!(s, LightState { on: 1, brightness: 75, temperature: 200 });
    let before = s;
    let e = Patch { on: Some(1), temperature: Some(345), ..Default::default() }
        .apply(&mut s)
        .unwrap_err();
    assert_eq!(e.key, "error.invalid_setting");
    assert_eq!(s, before);
    assert!(Patch { temperature: Some(142), ..Default::default() }.apply(&mut s).is_err());
    assert!(Patch { temperature: Some(143), ..Default::default() }.apply(&mut s).is_ok());
    assert!(Patch { on: Some(2), ..Default::default() }.apply(&mut s).is_err());
}

#[test]
fn partial_failure_is_reported_with_counts_and_causes() {
    let mut out = Outcome::default();
    assert!(out.message().is_none());
    out.record("one".into(), Ok(()));
    out.record("two".into(), Err(Message::new("error.no_lights")));
    let m = out.message().unwrap();
    assert_eq!(m.key, "error.partial");
    assert_eq!(m.causes.len(), 1);
    assert_eq!(m.causes[0].key, "error.device");
    assert_eq!(m.causes[0].causes[0].key, "error.no_lights");
    assert_eq!(
        m.render(Locale::En),
        "1 succeeded, 1 failed: two: The device reports no light"
    );
    let refused = Outcome::refused(Message::new("error.shutting_down"));
    assert_eq!(refused.failed.len(), 1);
    assert_eq!(refused.failed[0].0, "");
}

#[test]
fn rediscovery_merges_identity_and_orders_by_name() {
    let mut list = vec![device("b", "Zed", 1), device("a", "Alpha", 2)];
    merge(&mut list, device("c", "Mid", 3));
    let names: Vec<&str> = list.iter().map(|d| d.name.as_str()).collect();
    assert_eq!(names, vec!["Alpha", "Mid", "Zed"]);
    merge(&mut list, device("b", "Zed", 9));
    assert_eq!(list.len(), 3);
    assert_eq!(list.iter().find(|d| d.id == "b").unwrap().port, 9);
    merge(&mut list, device("a", "Zed", 4));
    let ids: Vec<&str> = list.iter().map(|d| d.id.as_str()).collect();
    assert_eq!(ids, vec!["c", "a", "b"]);
}

#[test]
fn sorting_is_stable_for_equal_places() {
    let list = vec![device("x", "A", 1), device("x", "A", 2), device("w", "A", 3)];
    let sorted = sort_devices(list);
    let ports: Vec<u16> = sorted.iter().map(|d| d.port).collect();
    assert_eq!(ports, vec![3, 1, 2]);
}

#[test]
fn text_order_is_by_code_point() {
    assert!(text_before("a", "b"));
    assert!(text_before("a", "ab"));
    assert!(!text_before("b", "ab"));
    assert!(text_before("Z", "a"));
    assert!(!text_before("same", "same"));
    assert!(text_before("z", "\u{e4}"));
}

#[test]
fn change_ids_are_sorted_and_unique() {
    let ids = vec!["b".to_string(), "a".to_string(), "b".to_string(), "c".to_string()];
    assert_eq!(sorted_unique(ids), vec!["a", "b", "c"]);
    assert!(sorted_unique(vec![]).is_empty());
}

#[test]
fn urls_bracket_ipv6_hosts() {
    let mut d = device("a", "A", 9123);
    assert_eq!(url(&d, "lights"), "http://127.0.0.1:9123/elgato/lights");
    d.host = "fe80::1".into();
    assert_eq!(url(&d, "accessory-info"), "http://[fe80::1]:9123/elgato/accessory-info");
}

#[test]
fn single_target_ignores_sync_unless_asked() {
    let mut a = device("a", "A", 1);
    a.state = Some(LightState { on: 1, brightness: 50, temperature: 200 });
    let mut b = device("b", "B", 2);
    b.state = Some(LightState { on: 0, brightness: 10, temperature: 150 });
    let mut off = device("c", "C", 3);
    off.error = Some(Message::new("error.no_lights"));
    let c = Controller::with_data(Saved {
        devices: vec![a, b, off],
        settings: Settings::default(),
    });
    assert_eq!(c.targets(Some("a".into()), false), vec!["a"]);
    assert_eq!(c.targets(Some("a".into()), true), vec!["a", "b"]);
    assert_eq!(c.targets(None, false), vec!["a", "b"]);
}

#[test]
fn partial_settings_only_configure_changed_autostart() {
    let mut c = Controller::with_data(Saved::default());
    let (mut change, action) = c.update_settings(None, Some(false), Some(Language::De));
    assert!(matches!(action, SettingsAction::Save));
    assert_eq!(c.data.settings.language, Language::De);
    assert!(!c.data.settings.sync);
    let done = c.settings_step(&mut change, Ok(()));
    assert!(matches!(done, SettingsAction::Finish(Ok(()))));
    let (_, action) = c.update_settings(Some(true), None, None);
    assert!(matches!(action, SettingsAction::Save));
    let (mut change, action) = c.update_settings(Some(false), None, None);
    assert!(matches!(action, SettingsAction::Configure(false)));
    assert!(c.data.settings.autostart);
    let next = c.settings_step(&mut change, Ok(()));
    assert!(matches!(next, SettingsAction::Save));
    assert!(!c.data.settings.autostart);
}

#[test]
fn failed_save_after_autostart_change_rolls_back() {
    let mut c = Controller::with_data(Saved::default());
    let (mut change, action) = c.update_settings(Some(false), Some(false), Some(Language::De));
    assert!(matches!(action, SettingsAction::Configure(false)));
    let save = c.settings_step(&mut change, Ok(()));
    assert!(matches!(save, SettingsAction::Save));
    let rollback = c.settings_step(&mut change, Err(Message::new("error.config_save")));
    assert!(matches!(rollback, SettingsAction::Configure(true)));
    assert!(matches!(change.stage, SettingsStage::RollingBack(_)));
    assert_eq!(c.data.settings, Settings::default());
    let end = c.settings_step(&mut change, Ok(()));
    match end {
        SettingsAction::Finish(Err(e)) => assert_eq!(e.key, "error.config_save"),
        _ => panic!("the save error is reported"),
    }
    assert!(c.data.settings.autostart);
}

#[test]
fn failed_rollback_keeps_system_autostart_and_both_errors() {
    let mut c = Controller::with_data(Saved::default());
    let (mut change, _) = c.update_settings(Some(false), None, None);
    c.settings_step(&mut change, Ok(()));
    c.settings_step(&mut change, Err(Message::new("error.config_save")));
    let end = c.settings_step(&mut change, Err(Message::new("error.autostart")));
    match end {
        SettingsAction::Finish(Err(e)) => {
            assert!(e.causes.iter().any(|cause| cause.key == "error.autostart"))
        }
        _ => panic!("both errors are reported"),
    }
    assert!(!c.data.settings.autostart);
}

#[test]
fn failed_language_save_rolls_back_without_autostart() {
    let mut c = Controller::with_data(Saved::default());
    let (mut change, action) = c.update_settings(None, None, Some(Language::De));
    assert!(matches!(action, SettingsAction::Save));
    let end = c.settings_step(&mut change, Err(Message::new("error.config_save")));
    assert!(matches!(end, SettingsAction::Finish(Err(_))));
    assert_eq!(c.data.settings.language, Language::System);
}

#[test]
fn removal_can_be_undone() {
    let mut c = Controller::with_data(Saved {
        devices: vec![device("a", "A", 1), device("b", "B", 2)],
        settings: Settings::default(),
    });
    let (index, removed) = c.remove("a").unwrap().unwrap();
    assert_eq!(index, 0);
    assert_eq!(c.data.devices.len(), 1);
    c.restore(index, removed);
    assert_eq!(c.data.devices[0].id, "a");
    assert!(c.remove("missing").unwrap().is_none());
}

#[test]
fn quit_rejects_new_operations() {
    let mut c = Controller::with_data(Saved::default());
    assert!(c.operation().is_ok());
    c.finish_operations();
    assert_eq!(c.operation().unwrap_err().key, "error.shutting_down");
}

#[test]
fn configuration_load_outcomes() {
    let c = Controller::new(ConfigRead::Missing).unwrap();
    assert_eq!(c.data.settings, Settings::default());
    let e = Controller::new(ConfigRead::Unparsable("bad".into())).unwrap_err();
    assert_eq!(e.key, "error.config_read");
    assert_eq!(e.causes[0].key, "error.technical");
    let e = Controller::new(ConfigRead::Failed("denied".into())).unwrap_err();
    assert_eq!(e.render(Locale::En), "denied");
}

#[test]
fn readings_update_state_and_errors() {
    let mut c = Controller::with_data(Saved {
        devices: vec![device("a", "A", 1)],
        settings: Settings::default(),
    });
    let s = LightState { on: 1, brightness: 20, temperature: 300 };
    c.record("a", Ok(s));
    assert_eq!(c.device("a").unwrap().state, Some(s));
    c.record("a", Err(Message::new("error.no_lights")));
    let d = c.device("a").unwrap();
    assert!(d.error.is_some());
    assert_eq!(d.state, Some(s));
    c.record("a", Ok(s));
    assert!(c.device("a").unwrap().error.is_none());
    assert_eq!(c.device("zzz").unwrap_err().key, "error.unknown_light");
}

#[test]
fn found_lights_get_identity_and_name() {
    let d = Device::from_info(
        "10.0.0.2".into(),
        9123,
        r#"{"serialNumber":"CW1","displayName":""}"#.into(),
    )
    .unwrap();
    assert_eq!(d.id, "serialNumber:cw1");
    assert_eq!(d.name, "Key Light");
    let d = Device::from_info("h".into(), 1, r#"{"macAddress":"A","displayName":"Desk"}"#.into())
        .unwrap();
    assert_eq!(d.name, "Desk");
    assert_eq!(
        Device::from_info("h".into(), 1, "{}".into()).unwrap_err().key,
        "error.no_identity"
    );
}

#[test]
fn rename_prefers_the_reported_name() {
    let mut c = Controller::with_data(Saved {
        devices: vec![device("a", "Old", 1)],
        settings: Settings::default(),
    });
    c.rename("a", "Wanted", r#"{"displayName":"Reported"}"#.into());
    assert_eq!(c.data.devices[0].name, "Reported");
    c.rename("a", "Wanted", r#"{"displayName":7}"#.into());
    assert_eq!(c.data.devices[0].name, "Wanted");
    assert!(keylight_commander::lights::valid_name("Desk"));
    assert!(!keylight_commander::lights::valid_name(" \t "));
    assert!(!keylight_commander::lights::valid_name(&"\u{e4}".repeat(65)));
    assert!(keylight_commander::lights::valid_name(&"a".repeat(128)));
}

#[test]
fn reported_states_are_checked() {
    assert_eq!(confirmed_state(&vec![]).unwrap_err().key, "error.no_lights");
    let ok = LightState { on: 1, brightness: 100, temperature: 344 };
    assert_eq!(confirmed_state(&vec![ok]).unwrap(), ok);
    let bad = LightState { on: 1, brightness: 100, temperature: 100 };
    assert_eq!(confirmed_state(&vec![bad]).unwrap_err().key, "error.invalid_setting");
}

fn one_light() -> Controller {
    Controller::with_data(Saved { devices: vec![device("a", "A", 1)], settings: Settings::default() })
}

#[test]
fn identify_blinks_six_times_then_restores() {
    let mut c = one_light();
    let original = LightState { on: 0, brightness: 35, temperature: 200 };
    assert!(c.identify("a").is_ok());
    let (mut ident, mut action) = Identification::start("a".into(), original);
    let mut blinks = Vec::new();
    while let IdentifyAction::Blink(s) = action {
        blinks.push(s);
        action = c.identify_step(&mut ident, Ok(s));
    }
    assert_eq!(blinks.len(), 6);
    assert_eq!(blinks[0], LightState { on: 1, brightness: 50, temperature: 200 });
    assert_eq!(blinks[5], LightState { on: 1, brightness: 0, temperature: 200 });
    assert!(matches!(action, IdentifyAction::Restore(s) if s == original));
    let end = c.identify_step(&mut ident, Ok(original));
    assert!(matches!(end, IdentifyAction::Finish(Ok(()))));
    assert_eq!(ident.stage, IdentifyStage::Done);
    assert_eq!(c.device("a").unwrap().state, Some(original));
}

#[test]
fn identify_restores_even_if_a_blink_write_fails() {
    let mut c = one_light();
    let original = LightState { on: 0, brightness: 35, temperature: 200 };
    let (mut ident, _) = Identification::start("a".into(), original);
    let next = c.identify_step(&mut ident, Err(Message::new("error.no_lights")));
    assert!(matches!(next, IdentifyAction::Restore(s) if s == original));
    let end = c.identify_step(&mut ident, Ok(original));
    match end {
        IdentifyAction::Finish(Err(e)) => assert_eq!(e.key, "error.no_lights"),
        _ => panic!("the blink failure is reported"),
    }
    assert!(c.device("a").unwrap().error.is_none());
}

#[test]
fn identify_retries_a_failed_restore_once() {
    let mut c = one_light();
    let original = LightState { on: 1, brightness: 20, temperature: 300 };
    let (mut ident, _) = Identification::start("a".into(), original);
    let next = c.identify_step(&mut ident, Err(Message::new("error.no_lights")));
    assert!(matches!(next, IdentifyAction::Restore(_)));
    let again = c.identify_step(&mut ident, Err(Message::new("error.unknown_light")));
    assert!(matches!(again, IdentifyAction::Restore(s) if s == original));
    assert_eq!(ident.stage, IdentifyStage::Restoring(2));
    let end = c.identify_step(&mut ident, Err(Message::new("error.unknown_light")));
    match end {
        IdentifyAction::Finish(Err(e)) => {
            assert_eq!(e.key, "error.restore");
            assert_eq!(e.causes[0].key, "error.unknown_light");
        }
        _ => panic!("the restore failure is reported"),
    }
    assert!(c.device("a").unwrap().error.is_some());
    let mut closed = one_light();
    closed.finish_operations();
    assert_eq!(closed.identify("a").unwrap_err().key, "error.shutting_down");
    assert_eq!(one_light().identify("b").unwrap_err().key, "error.unknown_light");
}

#[test]
fn offline_lights_retry_after_thirty_seconds() {
    assert!(should_poll(true, true, Some(1)));
    assert!(!should_poll(false, true, Some(29_999)));
    assert!(should_poll(false, true, Some(30_000)));
    assert!(should_poll(false, false, Some(1)));
    assert!(should_poll(false, true, None));
}

#[test]
fn search_results_are_unique_and_errors_collected() {
    let mut found = Vec::new();
    add_found(&mut found, "h".into(), 1);
    add_found(&mut found, "h".into(), 1);
    add_found(&mut found, "h".into(), 2);
    assert_eq!(found.len(), 2);
    assert!(discovery_message(vec![]).is_none());
    let m = discovery_message(vec![Message::new("error.no_identity")]).unwrap();
    assert_eq!(m.key, "error.discovery");
    assert_eq!(m.causes.len(), 1);
}

#[test]
fn scan_state_and_first_run() {
    let mut c = Controller::with_data(Saved::default());
    assert!(c.discover());
    assert!(!c.discover());
    assert!(c.end_scan(Err(Message::new("error.no_lights"))).is_err());
    assert!(!c.scanning);
    assert_eq!(c.message.as_ref().unwrap().key, "error.scan");
    c.first_run(Err(Message::new("x")));
    assert!(!c.data.settings.autostart);
    assert!(c.data.settings.initialized);
    assert_eq!(c.message.as_ref().unwrap().key, "error.autostart");
}

#[test]
fn save_errors_name_the_failed_step() {
    assert_eq!(save_error(SaveStep::NoDirectory, "x").key, "error.config_directory");
    assert_eq!(save_error(SaveStep::Replace, "x").key, "error.config_save");
    assert_eq!(save_error(SaveStep::Write, "disk full").render(Locale::En), "disk full");
}

#[test]
fn snapshot_copies_the_state() {
    let mut a = device("a", "A", 1);
    a.error = Some(Message::new("error.no_lights"));
    let mut c = Controller::with_data(Saved { devices: vec![a], settings: Settings::default() });
    c.data.settings.language = Language::De;
    let s = c.snapshot();
    assert_eq!(s.locale, Locale::De);
    assert_eq!(s.devices.len(), 1);
    assert_eq!(s.devices[0].error.as_ref().unwrap().key, "error.no_lights");
}

#[test]
fn changes_go_to_sorted_unique_lights_until_shutdown() {
    let mut c = Controller::with_data(Saved {
        devices: vec![device("a", "A", 1), device("b", "B", 2)],
        settings: Settings::default(),
    });
    let ids = vec!["b".to_string(), "a".to_string(), "b".to_string()];
    let plan = c.change(ids.clone()).ok().unwrap();
    let planned: Vec<&str> = plan.iter().map(|(id, _)| id.as_str()).collect();
    assert_eq!(planned, vec!["a", "b"]);
    assert_eq!(plan[0].1.as_ref().unwrap().port, 1);
    assert_eq!(plan[1].1.as_ref().unwrap().port, 2);
    c.finish_operations();
    let refused = c.change(ids).err().unwrap();
    assert!(refused.succeeded.is_empty());
    assert_eq!(refused.failed.len(), 1);
    assert_eq!(refused.failed[0].0, "");
    assert_eq!(refused.failed[0].1.key, "error.shutting_down");
}

fn param<'a>(m: &'a Message, name: &str) -> Option<&'a str> {
    m.params.iter().find(|(k, _)| k == name).map(|(_, v)| v.as_str())
}

#[test]
fn unknown_lights_fail_the_change() {
    let mut c = Controller::with_data(Saved::default());
    let ids = vec!["b".to_string(), "a".to_string(), "a".to_string()];
    let plan = c.change(ids).ok().unwrap();
    assert_eq!(plan.len(), 2);
    assert!(plan.iter().all(|(_, found)| found.as_ref().unwrap_err().key == "error.unknown_light"));
    let out = c.finish_change(plan, vec![], vec![]);
    assert!(out.succeeded.is_empty());
    let mut failed: Vec<&str> = out.failed.iter().map(|(id, _)| id.as_str()).collect();
    failed.sort();
    assert_eq!(failed, vec!["a", "b"]);
    assert!(out.failed.iter().all(|(_, e)| e.key == "error.unknown_light"));
    let m = c.message.as_ref().unwrap();
    assert_eq!(m.key, "error.partial");
    assert_eq!(param(m, "failed"), Some("2"));
    assert_eq!(param(m, "succeeded"), Some("0"));
    assert_eq!(m.causes.len(), 2);
    assert!(c.data.devices.is_empty());
}

#[test]
fn groups_report_partial_failure_and_never_confirm_failed_write() {
    let off = LightState { on: 0, brightness: 20, temperature: 200 };
    let mut a = device("a", "A", 1);
    a.state = Some(off);
    let mut b = device("b", "B", 2);
    b.state = Some(off);
    let mut c = Controller::with_data(Saved { devices: vec![a, b], settings: Settings::default() });
    let patch = Patch { on: Some(1), ..Default::default() };
    let plan = c.change(vec!["a".to_string(), "b".to_string()]).ok().unwrap();
    let next = patch.planned(Ok(off)).unwrap();
    assert_eq!(next, LightState { on: 1, ..off });
    let results = vec![
        ("a".to_string(), Ok(next)),
        ("b".to_string(), Err(Message::from_details("HTTP status server error (500)"))),
    ];
    let out = c.finish_change(plan, results, vec![]);
    assert_eq!(out.succeeded, vec!["a".to_string()]);
    assert_eq!(out.failed.len(), 1);
    assert_eq!(out.failed[0].0, "b");
    let b = c.device("b").unwrap();
    assert!(b.error.is_some());
    assert_eq!(b.state.unwrap().on, 0);
    let a = c.device("a").unwrap();
    assert!(a.error.is_none());
    assert_eq!(a.state.unwrap().on, 1);
    let m = c.message.as_ref().unwrap();
    assert_eq!(m.key, "error.partial");
    assert_eq!(param(m, "succeeded"), Some("1"));
    assert_eq!(param(m, "failed"), Some("1"));
}

#[test]
fn a_change_that_reaches_every_light_clears_the_message() {
    let mut c = one_light();
    c.message = Some(Message::new("error.scan"));
    let plan = c.change(vec!["a".to_string()]).ok().unwrap();
    let s = LightState { on: 1, brightness: 50, temperature: 250 };
    let out = c.finish_change(plan, vec![("a".to_string(), Ok(s))], vec![]);
    assert_eq!(out.succeeded, vec!["a".to_string()]);
    assert!(out.failed.is_empty());
    assert!(c.message.is_none());
    assert_eq!(c.device("a").unwrap().state, Some(s));
}

#[test]
fn failures_of_no_light_come_after_the_lights() {
    let mut c = one_light();
    let plan = c.change(vec!["a".to_string()]).ok().unwrap();
    let out = c.finish_change(
        plan,
        vec![("a".to_string(), Err(Message::new("error.no_lights")))],
        vec![Message::from_details("task failed")],
    );
    assert_eq!(out.failed.len(), 2);
    assert_eq!(out.failed[0].0, "a");
    assert_eq!(out.failed[1].0, "");
    assert_eq!(param(c.message.as_ref().unwrap(), "failed"), Some("2"));
}

#[test]
fn planned_state_applies_the_patch_or_passes_the_error() {
    let s = LightState { on: 0, brightness: 35, temperature: 200 };
    let p = Patch { brightness: Some(75), ..Default::default() };
    assert_eq!(p.planned(Ok(s)).unwrap(), LightState { brightness: 75, ..s });
    assert_eq!(p.planned(Err(Message::new("error.no_lights"))).unwrap_err().key, "error.no_lights");
    let bad = Patch { temperature: Some(345), ..Default::default() };
    assert_eq!(bad.planned(Ok(s)).unwrap_err().key, "error.invalid_setting");
}

#[test]
fn failed_reads_mark_offline_and_refresh_recovers() {
    let mut c = one_light();
    let due = c.refresh(true, &vec![]);
    assert_eq!(due, vec!["a"]);
    c.finish_refresh(&vec![("a".to_string(), Err(Message::from_details("HTTP status server error (500)")))]);
    assert!(c.device("a").unwrap().error.is_some());
    let s = LightState { on: 1, brightness: 10, temperature: 300 };
    c.finish_refresh(&vec![("a".to_string(), Ok(s))]);
    let a = c.device("a").unwrap();
    assert!(a.error.is_none());
    assert_eq!(a.state, Some(s));
}

#[test]
fn settings_are_refused_once_shutting_down() {
    let mut c = one_light();
    c.finish_operations();
    let (change, action) = c.update_settings(Some(false), Some(false), Some(Language::De));
    match action {
        SettingsAction::Finish(Err(e)) => assert_eq!(e.key, "error.shutting_down"),
        _ => panic!("the change should be refused"),
    }
    assert!(matches!(change.stage, SettingsStage::Done));
    assert_eq!(c.data.settings, Settings::default());
}

#[test]
fn failed_reads_are_retried_later_unless_forced() {
    let mut a = device("a", "A", 1);
    a.error = Some(Message::new("error.no_lights"));
    let b = device("b", "B", 2);
    let mut c2 = device("c", "C", 3);
    c2.error = Some(Message::new("error.no_lights"));
    let c = Controller::with_data(Saved { devices: vec![a, b, c2], settings: Settings::default() });
    let attempts = vec![("a".to_string(), 100u64), ("c".to_string(), 40_000u64)];
    assert_eq!(c.refresh(false, &attempts), vec!["b", "c"]);
    assert_eq!(c.refresh(true, &attempts), vec!["a", "b", "c"]);
    let later = vec![("a".to_string(), 100u64), ("a".to_string(), 31_000u64)];
    assert_eq!(c.refresh(false, &later), vec!["a", "b", "c"]);
}

#[test]
fn failed_removal_save_puts_the_light_back() {
    let mut a = device("a", "A", 1);
    a.state = Some(LightState { on: 1, brightness: 20, temperature: 300 });
    let mut c = Controller::with_data(Saved {
        devices: vec![a, device("b", "B", 2)],
        settings: Settings::default(),
    });
    let removed = c.remove("a").unwrap().unwrap();
    let e = c.settle_removal(removed, Err(Message::new("error.config_save"))).unwrap_err();
    assert_eq!(e.key, "error.config_save");
    assert_eq!(c.data.devices.len(), 2);
    assert_eq!(c.data.devices[0].id, "a");
    assert!(c.data.devices[0].state.is_some());
    let removed = c.remove("a").unwrap().unwrap();
    assert!(c.settle_removal(removed, Ok(())).is_ok());
    assert_eq!(c.data.devices.len(), 1);
    c.finish_operations();
    assert_eq!(c.remove("b").unwrap_err().key, "error.shutting_down");
    assert_eq!(c.data.devices.len(), 1);
}

#[test]
fn rename_checks_the_name_before_anything_else() {
    let c = one_light();
    assert_eq!(c.begin_rename("a", "  ").unwrap_err().key, "error.name");
    assert_eq!(c.begin_rename("a", &"x".repeat(129)).unwrap_err().key, "error.name");
    assert_eq!(c.begin_rename("zzz", "Desk").unwrap_err().key, "error.unknown_light");
    assert_eq!(c.begin_rename("a", "Desk").unwrap().id, "a");
    let mut closed = one_light();
    closed.finish_operations();
    assert_eq!(closed.begin_rename("a", "").unwrap_err().key, "error.shutting_down");
}

#[test]
fn parsed_members_give_identity_and_name() {
    let m = object_members(r#"{"macAddress":"AA:BB","displayName":"Desk"}"#);
    assert_eq!(identity_from_members(&m), Some("macAddress:aa:bb".into()));
    assert_eq!(display_name_from_members(&m), Some("Desk".into()));
    assert_eq!(identity_from_members(&None), None);
    let d = Device::from_parsed("h".into(), 1, "{}".into(), &m).unwrap();
    assert_eq!(d.name, "Desk");
}

use mybox::hotkey::HotkeyActions;
use mybox::config::{ConfigCenter, ConfigValue};
use mybox::event::{EventPayload, FrameworkEvent};

#[test]
fn action_for_id_round_trips_through_map() {
    let mut hm = HotkeyActions::new();
    hm.record(4242, "open_test_window");
    assert_eq!(hm.action_for_id(4242), Some("open_test_window".to_string()));
    assert_eq!(hm.action_for_id(9999), None);
}

#[test]
fn a_second_record_for_an_id_replaces_its_action() {
    let mut hm = HotkeyActions::default();
    hm.record(7, "toggle_palette");
    hm.record(8, "start_screenshot");
    hm.record(7, "open_test_window");
    assert_eq!(hm.action_for_id(7), Some("open_test_window".to_string()));
    assert_eq!(hm.action_for_id(8), Some("start_screenshot".to_string()));
}

#[test]
fn on_hotkey_known_id_emits_hotkey_triggered() {
    let mut hm = HotkeyActions::new();
    hm.record(7, "open_test_window");
    let e = mybox::hotkey::hotkey_triggered_event(&hm, true, 7).expect("hotkey.triggered event");
    assert_eq!(e.from, "core");
    assert_eq!(e.kind, "hotkey.triggered");
    match &e.payload {
        EventPayload::Framework(FrameworkEvent::HotkeyTriggered { id, action }) => {
            assert_eq!(*id, 7);
            assert_eq!(action, "open_test_window");
        }
        other => panic!("expected Framework(HotkeyTriggered), got {other:?}"),
    }
}

#[test]
fn on_hotkey_unknown_id_emits_nothing() {
    let hm = HotkeyActions::new();
    assert!(mybox::hotkey::hotkey_triggered_event(&hm, true, 999).is_none(), "unknown hotkey id must not emit");
}

#[test]
fn on_hotkey_released_event_is_ignored() {
    let mut hm = HotkeyActions::new();
    hm.record(7, "open_test_window");
    assert!(
        mybox::hotkey::hotkey_triggered_event(&hm, false, 7).is_none(),
        "Released hotkey events must not emit hotkey.triggered"
    );
}

#[test]
fn configured_hotkeys_lists_each_action_once_and_skips_non_strings() {

    let mut config = ConfigCenter::default();
    assert!(mybox::hotkey::configured_hotkeys(&config).is_empty(), "no [hotkeys] section");
    config.set("hotkeys", "open_test_window", ConfigValue::String("Cmd+Shift+T".to_string()));
    config.set("hotkeys", "broken", ConfigValue::Integer(5));
    config.set("hotkeys", "open_test_window", ConfigValue::String("Cmd+Shift+Y".to_string()));
    config.set("capture", "hotkey", ConfigValue::String("Cmd+Shift+S".to_string()));
    let listed = mybox::hotkey::configured_hotkeys(&config);
    assert_eq!(
        listed,
        vec![("open_test_window".to_string(), Some("Cmd+Shift+Y".to_string())), ("broken".to_string(), None)]
    );
}

#[test]
fn parses_modifier_plus_key_string() {
    let (_, a) = mybox::hotkey::prepare_hotkey("Cmd+Shift+T").expect("valid hotkey string");
    let (hk, b) = mybox::hotkey::prepare_hotkey("Cmd+Shift+T").expect("valid hotkey string");
    assert_eq!(a, b, "same combo must hash to the same id");
    assert_eq!(hk.id(), b, "the id is the parsed hotkey's id");
}

#[test]
fn rejects_invalid_hotkey_string_without_panicking() {
    match mybox::hotkey::prepare_hotkey("not-a-hotkey!!") {
        Err(mybox::error::MyboxError::HotkeyParse(msg)) => {
            assert!(msg.starts_with("invalid hotkey string 'not-a-hotkey!!': "), "{msg}");
        }
        _ => panic!("garbage string must not parse"),
    }
}

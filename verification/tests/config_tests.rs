use mybox::config::{ConfigCenter, ConfigTable, ConfigValue};

#[test]
fn get_returns_what_set_stored() {
    let mut c = ConfigCenter::default();
    assert_eq!(c.get("palette", "hotkey"), None);
    c.set("palette", "hotkey", ConfigValue::String("A".to_string()));
    c.set("capture", "hotkey", ConfigValue::Boolean(true));
    c.set("palette", "hotkey", ConfigValue::String("B".to_string()));
    assert_eq!(c.get("palette", "hotkey"), Some(ConfigValue::String("B".to_string())));
    assert_eq!(c.get("capture", "hotkey"), Some(ConfigValue::Boolean(true)));
    assert_eq!(c.get("capture", "other"), None);
}

#[test]
fn config_table_inserts_and_replaces() {
    let mut t = ConfigTable::new();
    t.insert("a", ConfigValue::Integer(1));
    t.insert("b", ConfigValue::Other);
    t.insert("a", ConfigValue::Integer(2));
    assert_eq!(t.len(), 2);
    assert_eq!(t.get("a"), Some(&ConfigValue::Integer(2)));
    assert_eq!(t.get("b").and_then(|v| v.as_str()), None);
    assert_eq!(ConfigValue::String("x".to_string()).as_str(), Some("x"));
}

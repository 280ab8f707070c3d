use mybox::config::ConfigValue;
use mybox::test_module::TestModule;
use mybox::window::WindowKind;

#[test]
fn lib_id_and_name() {
    let module = TestModule;
    assert_eq!(module.id(), "test");
    assert_eq!(module.name(), "测试模块");
}

#[test]
fn default_config_has_message_key() {
    let table = TestModule.default_config();
    assert_eq!(table.get("message"), Some(&ConfigValue::String("hello from test".to_string())));
}

#[test]
fn menu_items_contains_open_window_item() {
    let items = TestModule.menu_items();
    assert_eq!(items.len(), 1);
    assert_eq!(items[0].id(), "test.open_window");
    assert_eq!(items[0].text(), "打开测试窗口");
}

#[test]
fn only_the_open_test_window_action_opens_a_window() {
    let w = TestModule.window_for_action("open_test_window").expect("window");
    assert_eq!(w.kind, WindowKind::Panel);
    assert_eq!(w.title, "mybox test");
    assert_eq!(w.inner_size, (400, 300));
    assert!(TestModule.window_for_action("some_other_action").is_none());
}

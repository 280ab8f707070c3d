//! The demo module that exercises the module framework end to end: it
//! declares a config section, contributes a tray menu item, and opens a test
//! window when its hotkey action fires.

use vstd::prelude::*;

use crate::config::{ConfigTable, ConfigValue, ConfigValueView};
use crate::window::WindowKind;

verus! {

/// The walking-skeleton demo module.
#[derive(Clone, Copy, Debug, PartialEq, Eq, Structural)]
pub struct TestModule;

/// A tray menu item a module contributes: its id (reported back when the
/// item is clicked), its label, and whether it is enabled.
#[derive(Clone, Copy, Debug, PartialEq, Eq)]
pub struct MenuItemSpec {
    pub id: &'static str,
    pub text: &'static str,
    pub enabled: bool,
}

impl MenuItemSpec {
    /// The item's id.
    pub fn id(&self) -> (r: &'static str)
        ensures
            r == self.id,
    {
        self.id
    }

    /// The item's label.
    pub fn text(&self) -> (r: &'static str)
        ensures
            r == self.text,
    {
        self.text
    }
}

/// The window the demo module opens: a 400 by 300 panel titled `mybox test`.
#[derive(Clone, Copy, Debug, PartialEq, Eq)]
pub struct TestWindow {
    pub kind: WindowKind,
    pub title: &'static str,
    pub inner_size: (u32, u32),
}

impl TestModule {
    /// The module id (also its config section and event namespace).
    pub fn id(&self) -> (r: &'static str)
        ensures
            r@ == "test"@,
    {
        "test"
    }

    /// The module's display name.
    pub fn name(&self) -> (r: &'static str)
        ensures
            r@ == "测试模块"@,
    {
        "测试模块"
    }

    /// The default `[test]` section: `message = "hello from test"`.
    pub fn default_config(&self) -> (r: ConfigTable)
        ensures
            r.wf(),
            r@ == Map::<Seq<char>, ConfigValueView>::empty().insert("message"@, ConfigValueView::String("hello from test"@)),
    {
        let mut table = ConfigTable::new();
        table.insert("message", ConfigValue::String(String::from_str("hello from test")));
        table
    }

    /// The tray items: one enabled `test.open_window` item.
    pub fn menu_items(&self) -> (r: Vec<MenuItemSpec>)
        ensures
            r@.len() == 1,
            r@[0].id@ == "test.open_window"@,
            r@[0].text@ == "打开测试窗口"@,
            r@[0].enabled,
    {
        let mut items: Vec<MenuItemSpec> = Vec::new();
        items.push(MenuItemSpec { id: "test.open_window", text: "打开测试窗口", enabled: true });
        items
    }

    /// The window to open for a hotkey `action`: the test panel for
    /// `open_test_window`, nothing for any other action.
    pub fn window_for_action(&self, action: &str) -> (r: Option<TestWindow>)
        ensures
            action@ == "open_test_window"@ ==> (r matches Some(w) && w.kind == WindowKind::Panel && w.title@ == "mybox test"@ && w.inner_size == (400u32, 300u32)),
            action@ != "open_test_window"@ ==> r is None,
    {
        if crate::strings::str_eq(action, "open_test_window") {
            Some(TestWindow { kind: WindowKind::Panel, title: "mybox test", inner_size: (400, 300) })
        } else {
            None
        }
    }
}

} // verus!

use mybox::tray::{assemble_menu_items, MenuEntry};

#[test]
fn menu_assembly_orders_module_items_then_separator_then_quit() {
    let items = assemble_menu_items(vec!["capture.start", "capture.pin"]);
    assert_eq!(items.len(), 4, "2 module items + separator + quit");
    assert_eq!(items[0], MenuEntry::Item("capture.start"));
    assert_eq!(items[1], MenuEntry::Item("capture.pin"));
    assert_eq!(items[2], MenuEntry::Separator);
    assert_eq!(items[3], MenuEntry::Quit("退出"));
}

#[test]
fn menu_assembly_handles_no_module_items() {
    let items = assemble_menu_items(Vec::<&str>::new());
    assert_eq!(items.len(), 2, "separator + quit only");
    assert_eq!(items, vec![MenuEntry::Separator, MenuEntry::Quit("退出")]);
}

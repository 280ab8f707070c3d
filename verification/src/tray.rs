//! The tray menu's layout: the modules' items, then a separator, then the
//! quit item.

use vstd::prelude::*;

verus! {

/// One entry of the tray menu, with the module items of type `T`.
#[derive(Clone, Copy, Debug, PartialEq, Eq)]
pub enum MenuEntry<T> {
    /// A module's item, as the module built it.
    Item(T),
    Separator,
    /// The predefined quit item with its label.
    Quit(&'static str),
}

/// The label of the quit item.
pub open spec fn quit_label() -> Seq<char> {
    "退出"@
}

/// The menu entries for the modules' items: each item in order, then a
/// separator, then the quit item labelled `退出`.
pub fn assemble_menu_items<T>(module_items: Vec<T>) -> (r: Vec<MenuEntry<T>>)
    ensures
        r@.len() == module_items@.len() + 2,
        forall|i: int| 0 <= i < module_items@.len() ==> r@[i] == MenuEntry::Item(module_items@[i]),
        r@[module_items@.len() as int] == MenuEntry::<T>::Separator,
        r@[module_items@.len() as int + 1] matches MenuEntry::Quit(label) && label@ == quit_label(),
{
    let ghost items = module_items@;
    let mut out: Vec<MenuEntry<T>> = Vec::new();
    let mut rest = module_items;
    while rest.len() > 0
        invariant
            out@.len() + rest@.len() == items.len(),
            rest@ == items.subrange(out@.len() as int, items.len() as int),
            forall|i: int| 0 <= i < out@.len() ==> out@[i] == MenuEntry::Item(items[i]),
        decreases rest@.len(),
    {
        let ghost k = out@.len() as int;
        let item = rest.remove(0);
        proof {
            assert(item == items[k]);
            assert(rest@ =~= items.subrange(k + 1, items.len() as int));
        }
        out.push(MenuEntry::Item(item));
    }
    out.push(MenuEntry::Separator);
    out.push(MenuEntry::Quit("退出"));
    proof {
        reveal_strlit("退出");
    }
    out
}

} // verus!

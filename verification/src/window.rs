//! Window kinds, framework window ids, and the window profile each kind
//! gets.

use vstd::prelude::*;

verus! {

/// Three window kinds the framework supports.
#[derive(Clone, Copy, PartialEq, Eq, Debug, Structural)]
pub enum WindowKind {
    /// Fullscreen transparent overlay (screenshot selection).
    Overlay,
    /// Independent always-on-top floating window.
    Floating,
    /// Regular panel window.
    Panel,
}

/// Framework window id — a u64 incrementing counter.
pub type WindowId = u64;

/// How a window is created: visibility, transparency, decorations, stacking,
/// and the physical size and position when given.
#[derive(Clone, Copy, PartialEq, Eq, Debug)]
pub struct WindowProfile {
    pub visible: bool,
    pub transparent: bool,
    pub decorations: bool,
    pub always_on_top: bool,
    pub inner_size: Option<(u32, u32)>,
    pub position: Option<(i32, i32)>,
}

/// The creation profile of a window: an Overlay is transparent, undecorated
/// and on top; a Floating window undecorated and on top; a Panel decorated
/// and on top only when asked. Visibility, size and position are passed
/// through.
pub fn window_profile(
    kind: WindowKind,
    visible: bool,
    always_on_top: bool,
    inner_size: Option<(u32, u32)>,
    position: Option<(i32, i32)>,
) -> (r: WindowProfile)
    ensures
        r.visible == visible,
        r.transparent == (kind == WindowKind::Overlay),
        r.decorations == (kind == WindowKind::Panel),
        r.always_on_top == (kind != WindowKind::Panel || always_on_top),
        r.inner_size == inner_size,
        r.position == position,
{
    let (transparent, decorations, on_top) = match kind {
        WindowKind::Overlay => (true, false, true),
        WindowKind::Floating => (false, false, true),
        WindowKind::Panel => (false, true, false),
    };
    WindowProfile {
        visible,
        transparent,
        decorations,
        always_on_top: on_top || always_on_top,
        inner_size,
        position,
    }
}

} // verus!

//! The screenshot capture's plain data and decisions: monitor geometry, the
//! capture session (in-progress guard, selection phases and the rectangles
//! a mouse move asks for, overlay window pairing), the screen-recording
//! permission gate, the annotation list, the toolbar actions, and the
//! capture hotkey.

use vstd::prelude::*;

use crate::config::{ConfigCenter, ConfigValue};
use crate::palette::configured_hotkey;
use crate::window::WindowId;

verus! {

/// Physical-pixel geometry of one monitor in global (virtual-screen) origin.
#[derive(Clone, Copy, Debug, PartialEq, Eq, Structural)]
pub struct MonitorGeom {
    pub x: i32,
    pub y: i32,
    pub width: u32,
    pub height: u32,
}

/// Selection interaction phase: drag-select, then an adjustable selection.
#[derive(Clone, Copy, Debug, PartialEq, Eq, Structural)]
pub enum Phase {
    Idle,
    Selecting,
    Selected,
}

/// Active annotation tool.
#[derive(Clone, Copy, Debug, PartialEq, Eq, Structural)]
pub enum Tool {
    Select,
    Rect,
    Arrow,
    Pen,
    Text,
}

/// The 8 resize handles of a selection: four corners and four edge
/// midpoints.
#[derive(Clone, Copy, Debug, PartialEq, Eq, Structural)]
pub enum Handle {
    N,
    NE,
    E,
    SE,
    S,
    SW,
    W,
    NW,
}

/// A toolbar action: `Tool(t)` switches the active annotation tool;
/// `Confirm` / `Cancel` end the capture; `Undo` pops the last annotation.
#[derive(Clone, Copy, Debug, PartialEq, Eq, Structural)]
pub enum ToolAction {
    Confirm,
    Cancel,
    Undo,
    Tool(Tool),
}

/// The toolbar's buttons, left to right: confirm, cancel, undo, then the
/// rectangle, arrow, pen and text tools.
pub fn toolbar_actions() -> (r: Vec<ToolAction>)
    ensures
        r@ == seq![
            ToolAction::Confirm,
            ToolAction::Cancel,
            ToolAction::Undo,
            ToolAction::Tool(Tool::Rect),
            ToolAction::Tool(Tool::Arrow),
            ToolAction::Tool(Tool::Pen),
            ToolAction::Tool(Tool::Text),
        ],
{
    let r = vec![
        ToolAction::Confirm,
        ToolAction::Cancel,
        ToolAction::Undo,
        ToolAction::Tool(Tool::Rect),
        ToolAction::Tool(Tool::Arrow),
        ToolAction::Tool(Tool::Pen),
        ToolAction::Tool(Tool::Text),
    ];
    proof {
        assert(r@ =~= seq![
            ToolAction::Confirm,
            ToolAction::Cancel,
            ToolAction::Undo,
            ToolAction::Tool(Tool::Rect),
            ToolAction::Tool(Tool::Arrow),
            ToolAction::Tool(Tool::Pen),
            ToolAction::Tool(Tool::Text),
        ]);
    }
    r
}

/// The screen-recording permission check of this build: hosts without such
/// a gate always report access granted.
pub fn real_access_checker() -> (r: bool)
    ensures
        r,
{
    true
}

/// Gate capture on the injected checker: its verdict, unchanged.
pub fn check_access<F: Fn() -> bool>(access: F) -> (r: bool)
    requires
        access.requires(()),
    ensures
        access.ensures((), r),
{
    access()
}

/// Ask for screen-recording access: hosts without such a gate report access
/// granted.
pub fn request_access() -> (r: bool)
    ensures
        r,
{
    true
}

/// Open the system's screen-recording settings: hosts without such a gate
/// have nothing to open.
pub fn open_system_settings() {
}

/// The capture's default hotkey.
pub open spec fn default_capture_hotkey() -> Seq<char> {
    "Cmd+Shift+S"@
}

/// Read `[capture].hotkey`, defaulting to `Cmd+Shift+S` when absent or not a
/// string.
pub fn hotkey_from_config(config: &ConfigCenter) -> (r: String)
    requires
        config.wf(),
    ensures
        r@ == configured_hotkey(config@, "capture"@, default_capture_hotkey()),
{
    match config.get("capture", "hotkey") {
        Some(ConfigValue::String(s)) => s,
        _ => String::from_str("Cmd+Shift+S"),
    }
}

/// A retained, undoable list of annotations: undo removes the most recent
/// one, and the overlay redraws the whole list every frame. `A` is the
/// annotation type of the drawing layer.
pub struct AnnotationList<A> {
    pub items: Vec<A>,
}

impl<A> AnnotationList<A> {
    /// An empty list.
    pub fn new() -> (r: Self)
        ensures
            r.items@ == Seq::<A>::empty(),
    {
        AnnotationList { items: Vec::new() }
    }

    /// Append an annotation.
    pub fn push(&mut self, ann: A)
        ensures
            final(self).items@ == old(self).items@.push(ann),
    {
        self.items.push(ann);
    }

    /// Remove and return the most recent annotation, if any.
    pub fn undo(&mut self) -> (r: Option<A>)
        ensures
            old(self).items@.len() == 0 ==> r is None && final(self).items@ == old(self).items@,
            old(self).items@.len() > 0 ==> r == Some(old(self).items@.last()) && final(self).items@ == old(self).items@.drop_last(),
    {
        self.items.pop()
    }

    /// Whether the list is empty (the capture is then the original image).
    pub fn is_empty(&self) -> (r: bool)
        ensures
            r == (self.items@.len() == 0),
    {
        self.items.len() == 0
    }

    /// The retained annotations in draw order.
    pub fn as_slice(&self) -> (r: &[A])
        ensures
            r@ == self.items@,
    {
        self.items.as_slice()
    }
}

impl<A> Default for AnnotationList<A> {
    fn default() -> (r: Self)
        ensures
            r.items@ == Seq::<A>::empty(),
    {
        Self::new()
    }
}

/// Undo takes back exactly the last push.
pub proof fn lemma_undo_reverts_push<A>(items: Seq<A>, ann: A)
    ensures
        items.push(ann).len() > 0,
        items.push(ann).last() == ann,
        items.push(ann).drop_last() == items,
{
    assert(items.push(ann).drop_last() =~= items);
}

/// The state of one capture: whether a capture is in progress, the captured
/// monitors, the selection interaction, the annotations, and the pairing of
/// created overlay windows. The drawing layer supplies the monitor image
/// type `I`, the point type `P`, the selection rectangle type `S` and the
/// annotation type `A`, and computes the rectangles; the decisions are here.
pub struct SessionState<I, P, S, A> {
    /// A capture is in progress (from its trigger until it ends).
    pub active: bool,
    /// Each captured monitor's geometry and image.
    pub shots: Vec<(MonitorGeom, I)>,
    pub phase: Phase,
    /// The selection and the index of the monitor it lives on.
    pub selection: Option<(usize, S)>,
    /// Where the current drag started.
    pub drag_anchor: Option<P>,
    /// The resize handle being dragged.
    pub active_handle: Option<Handle>,
    /// The last cursor position seen on any overlay.
    pub last_cursor: Option<P>,
    pub current_tool: Tool,
    pub annotations: AnnotationList<A>,
    /// The overlay windows created so far, in creation order.
    pub overlay_ids: Vec<WindowId>,
    /// How many requested overlay windows have not been created yet.
    pub pending_overlays: usize,
}

/// What a mouse move asks the drawing layer to compute.
#[derive(Clone, Copy, Debug, PartialEq)]
pub enum MouseMove<P, S> {
    /// Nothing to recompute.
    Nothing,
    /// Drag-select: the selection on monitor `monitor` becomes the rectangle
    /// spanned by `anchor` and the cursor.
    Drag { monitor: usize, anchor: P },
    /// Resize: the selection on monitor `monitor` is `selection` with the
    /// `handle` moved to the cursor.
    Resize { monitor: usize, handle: Handle, selection: S },
}

/// How a capture trigger went.
#[derive(Clone, Copy, Debug, PartialEq, Eq, Structural)]
pub enum CaptureStart {
    /// A capture is already in progress: the trigger is ignored.
    AlreadyActive,
    /// Screen-recording access was refused even after asking: the settings
    /// were opened and the capture ended.
    Denied,
    /// The capture may proceed.
    Granted,
}

impl<I, P, S, A> SessionState<I, P, S, A> {
    /// The state holds no capture data: no shots, no selection, drag,
    /// handle or cursor, the select tool, no annotations, and no overlays.
    pub open spec fn is_clear(&self) -> bool {
        &&& self.shots@.len() == 0
        &&& self.phase == Phase::Idle
        &&& self.selection is None
        &&& self.drag_anchor is None
        &&& self.active_handle is None
        &&& self.last_cursor is None
        &&& self.current_tool == Tool::Select
        &&& self.annotations.items@.len() == 0
        &&& self.overlay_ids@.len() == 0
        &&& self.pending_overlays == 0
    }

    /// A state with no capture in progress.
    pub fn new() -> (r: Self)
        ensures
            !r.active,
            r.is_clear(),
    {
        SessionState {
            active: false,
            shots: Vec::new(),
            phase: Phase::Idle,
            selection: None,
            drag_anchor: None,
            active_handle: None,
            last_cursor: None,
            current_tool: Tool::Select,
            annotations: AnnotationList::new(),
            overlay_ids: Vec::new(),
            pending_overlays: 0,
        }
    }

    /// Start a capture unless one is in progress: the state starts afresh
    /// and active; a second trigger while active changes nothing.
    pub fn begin_capture(&mut self) -> (r: bool)
        ensures
            r == !old(self).active,
            r ==> final(self).active && final(self).is_clear(),
            !r ==> *final(self) == *old(self),
    {
        if self.active {
            return false;
        }
        *self = SessionState::new();
        self.active = true;
        true
    }

    /// End the capture and drop its data.
    pub fn deactivate(&mut self)
        ensures
            !final(self).active,
            final(self).is_clear(),
    {
        *self = SessionState::new();
    }

    /// Keep the captured monitors.
    pub fn store_shots(&mut self, shots: Vec<(MonitorGeom, I)>)
        ensures
            *final(self) == (SessionState { shots, ..*old(self) }),
    {
        self.shots = shots;
    }

    /// Expect `count` overlay windows to be created.
    pub fn expect_overlays(&mut self, count: usize)
        ensures
            *final(self) == (SessionState { pending_overlays: count, ..*old(self) }),
    {
        self.pending_overlays = count;
    }

    /// Pair a created window with a pending overlay. Returns whether the
    /// window must be destroyed at once (the capture ended before it was
    /// created). A window nothing waits for is ignored.
    pub fn window_created(&mut self, id: WindowId) -> (r: bool)
        ensures
            old(self).pending_overlays > 0 ==> {
                &&& final(self).overlay_ids@ == old(self).overlay_ids@.push(id)
                &&& final(self).pending_overlays == old(self).pending_overlays - 1
                &&& r == !old(self).active
            },
            old(self).pending_overlays == 0 ==> !r && *final(self) == *old(self),
            *final(self) == (SessionState {
                overlay_ids: final(self).overlay_ids,
                pending_overlays: final(self).pending_overlays,
                ..*old(self)
            }),
    {
        if self.pending_overlays > 0 {
            self.overlay_ids.push(id);
            self.pending_overlays = self.pending_overlays - 1;
            return !self.active;
        }
        false
    }

    /// A press on monitor `monitor` at `pos` starts a drag-select; `start`
    /// is the degenerate selection at `pos`.
    pub fn on_mouse_down(&mut self, monitor: usize, pos: P, start: S)
        ensures
            *final(self) == (SessionState {
                phase: Phase::Selecting,
                drag_anchor: Some(pos),
                active_handle: None,
                selection: Some((monitor, start)),
                ..*old(self)
            }),
    {
        self.phase = Phase::Selecting;
        self.drag_anchor = Some(pos);
        self.active_handle = None;
        self.selection = Some((monitor, start));
    }

    /// Replace the selection with the rectangle the drawing layer computed.
    pub fn set_selection(&mut self, monitor: usize, rect: S)
        ensures
            *final(self) == (SessionState { selection: Some((monitor, rect)), ..*old(self) }),
    {
        self.selection = Some((monitor, rect));
    }

    /// End a drag: `Selecting` becomes `Selected`; the drag anchor clears.
    pub fn on_mouse_up(&mut self)
        ensures
            *final(self) == (SessionState {
                phase: if old(self).phase == Phase::Selecting { Phase::Selected } else { old(self).phase },
                drag_anchor: None,
                ..*old(self)
            }),
    {
        if self.phase == Phase::Selecting {
            self.phase = Phase::Selected;
        }
        self.drag_anchor = None;
    }

    /// Set (or clear) the handle being dragged.
    pub fn set_active_handle(&mut self, h: Option<Handle>)
        ensures
            *final(self) == (SessionState { active_handle: h, ..*old(self) }),
    {
        self.active_handle = h;
    }

    /// The current phase.
    pub fn phase(&self) -> (r: Phase)
        ensures
            r == self.phase,
    {
        self.phase
    }

    /// The handle being dragged, if any.
    pub fn active_handle(&self) -> (r: Option<Handle>)
        ensures
            r == self.active_handle,
    {
        self.active_handle
    }
}

impl<I, P: Copy, S: Copy, A> SessionState<I, P, S, A> {
    /// A move on monitor `monitor` to `pos`: remember the cursor and say
    /// what to recompute. While selecting, the drag keeps the monitor the
    /// selection started on; once selected, only a handle drag on the
    /// selection's own monitor resizes it.
    pub fn on_mouse_move(&mut self, monitor: usize, pos: P) -> (r: MouseMove<P, S>)
        ensures
            *final(self) == (SessionState { last_cursor: Some(pos), ..*old(self) }),
            r == mouse_move_spec(old(self).phase, old(self).drag_anchor, old(self).active_handle, old(self).selection, monitor),
    {
        self.last_cursor = Some(pos);
        match self.phase {
            Phase::Selecting => match self.drag_anchor {
                Some(anchor) => {
                    let mi = match &self.selection {
                        Some(sel) => sel.0,
                        None => monitor,
                    };
                    MouseMove::Drag { monitor: mi, anchor }
                },
                None => MouseMove::Nothing,
            },
            Phase::Selected => match (self.active_handle, &self.selection) {
                (Some(h), Some(sel)) => {
                    if sel.0 == monitor {
                        MouseMove::Resize { monitor, handle: h, selection: sel.1 }
                    } else {
                        MouseMove::Nothing
                    }
                },
                _ => MouseMove::Nothing,
            },
            Phase::Idle => MouseMove::Nothing,
        }
    }
}

/// The recomputation a mouse move on `monitor` asks for (see
/// [`SessionState::on_mouse_move`]).
pub open spec fn mouse_move_spec<P, S>(
    phase: Phase,
    anchor: Option<P>,
    handle: Option<Handle>,
    selection: Option<(usize, S)>,
    monitor: usize,
) -> MouseMove<P, S> {
    match phase {
        Phase::Selecting => match anchor {
            Some(a) => MouseMove::Drag {
                monitor: match selection {
                    Some(sel) => sel.0,
                    None => monitor,
                },
                anchor: a,
            },
            None => MouseMove::Nothing,
        },
        Phase::Selected => match (handle, selection) {
            (Some(h), Some(sel)) => if sel.0 == monitor {
                MouseMove::Resize { monitor, handle: h, selection: sel.1 }
            } else {
                MouseMove::Nothing
            },
            _ => MouseMove::Nothing,
        },
        Phase::Idle => MouseMove::Nothing,
    }
}

impl<I, P, S, A> Default for SessionState<I, P, S, A> {
    fn default() -> (r: Self)
        ensures
            !r.active,
            r.is_clear(),
    {
        Self::new()
    }
}

/// Where the screen-recording permission check stands for a capture that
/// has just begun.
#[derive(Clone, Copy, Debug, PartialEq, Eq, Structural)]
pub enum GatePhase {
    /// Access has not been checked yet.
    FirstCheck,
    /// Access was refused once and the user has been asked; it is checked
    /// again.
    Recheck,
    /// The permission check has decided.
    Done,
}

/// What the caller does after one permission check.
#[derive(Clone, Copy, Debug, PartialEq, Eq, Structural)]
pub enum GateAction {
    /// Go on with the capture.
    Start,
    /// Show the system's permission prompt, then check access again.
    Request,
    /// Open the privacy settings; the capture has been ended.
    OpenSettingsAndAbort,
}

/// The permission decision after a check that answered `granted` in
/// `phase`: granted at either check starts the capture; the first refusal
/// asks the user and checks again; a refusal on the re-check gives up.
pub open spec fn gate_step_spec(phase: GatePhase, granted: bool) -> (GatePhase, GateAction) {
    match phase {
        GatePhase::FirstCheck => if granted {
            (GatePhase::Done, GateAction::Start)
        } else {
            (GatePhase::Recheck, GateAction::Request)
        },
        GatePhase::Recheck => if granted {
            (GatePhase::Done, GateAction::Start)
        } else {
            (GatePhase::Done, GateAction::OpenSettingsAndAbort)
        },
        GatePhase::Done => (GatePhase::Done, GateAction::Start),
    }
}

/// Take one permission answer for the active capture `session`: returns the
/// next phase and what to do, and ends the capture when the answer means
/// giving up. Only a check that has not decided yet takes a step.
pub fn gate_step<I, P, S, A>(session: &mut SessionState<I, P, S, A>, phase: GatePhase, granted: bool) -> (r: (GatePhase, GateAction))
    requires
        phase != GatePhase::Done,
    ensures
        r == gate_step_spec(phase, granted),
        r.1 == GateAction::OpenSettingsAndAbort ==> !final(session).active && final(session).is_clear(),
        r.1 != GateAction::OpenSettingsAndAbort ==> *final(session) == *old(session),
{
    match phase {
        GatePhase::FirstCheck => if granted {
            (GatePhase::Done, GateAction::Start)
        } else {
            (GatePhase::Recheck, GateAction::Request)
        },
        _ => if granted {
            (GatePhase::Done, GateAction::Start)
        } else {
            session.deactivate();
            (GatePhase::Done, GateAction::OpenSettingsAndAbort)
        },
    }
}

/// The permission check asks the user at most once: a refusal on the re-check always
/// ends it, and only the first check can lead to a request.
pub proof fn lemma_gate_asks_once(phase: GatePhase, granted: bool)
    ensures
        gate_step_spec(phase, granted).1 == GateAction::Request <==> (phase == GatePhase::FirstCheck
            && !granted),
        gate_step_spec(phase, granted).1 == GateAction::Request ==> gate_step_spec(
            gate_step_spec(phase, granted).0,
            false,
        ).1 == GateAction::OpenSettingsAndAbort,
        gate_step_spec(phase, granted).1 == GateAction::OpenSettingsAndAbort <==> (phase
            == GatePhase::Recheck && !granted),
{
}

/// Gate a capture trigger: ignore it while a capture is in progress;
/// otherwise start the capture and drive [`gate_step`] with the answers of
/// `access`: when it refuses, ask once with `request` and check again; if
/// access is still refused, end the capture and open the settings with
/// `open`.
pub fn start_capture_gate<I, P, S, A, F: Fn() -> bool, G: Fn() -> bool, H: Fn()>(
    session: &mut SessionState<I, P, S, A>,
    access: F,
    request: G,
    open: H,
) -> (r: CaptureStart)
    requires
        access.requires(()),
        request.requires(()),
        open.requires(()),
    ensures
        old(session).active ==> r == CaptureStart::AlreadyActive && *final(session) == *old(session),
        !old(session).active ==> r != CaptureStart::AlreadyActive,
        r == CaptureStart::Granted ==> final(session).active && final(session).is_clear() && access.ensures((), true),
        r == CaptureStart::Denied ==> {
            &&& !final(session).active
            &&& final(session).is_clear()
            &&& access.ensures((), false)
            &&& exists|asked: bool| request.ensures((), asked)
            &&& open.ensures((), ())
        },
{
    if !session.begin_capture() {
        return CaptureStart::AlreadyActive;
    }
    let first = check_access(&access);
    let (phase, action) = gate_step(session, GatePhase::FirstCheck, first);
    if action == GateAction::Start {
        return CaptureStart::Granted;
    }
    let asked = request();
    let again = check_access(&access);
    let (_, action) = gate_step(session, phase, again);
    if action == GateAction::Start {
        return CaptureStart::Granted;
    }
    open();
    proof {
        assert(request.ensures((), asked));
    }
    CaptureStart::Denied
}

} // verus!

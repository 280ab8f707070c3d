//! The palette session: the state machine the palette window drives.
//!
//! Six states (Hidden, Idle, Filtering, Empty, Executing, Error); every
//! transition is a method, stated as a function from the old session view to
//! the new one. The session pairs each window build with its destroy
//! (`pending_close`), guards runner completions by a generation counter, and
//! counts geometry-affecting transitions so the frame loop can resize the
//! window deterministically.

use vstd::prelude::*;

use crate::command::{clone_commands, command_views, Command, CommandView};
use crate::palette::filter::{filter_commands, filter_spec, match_views, lemma_filter_ranked, query_match, ranks_before, MatchView, MAX_QUERY_LEN};
use crate::palette::textures::{apply_delta_spec, delta_wf, ImageView, TextureId, TextureTable, TexturesDelta};
use crate::strings::{str_trim, take_chars, take_chars_string, trim};
use crate::window::WindowId;

verus! {

#[verifier::external_type_specification]
#[verifier::external_body]
pub struct ExPixmap(tiny_skia::Pixmap);

#[verifier::external_type_specification]
#[verifier::external_body]
pub struct ExEguiContext(egui::Context);

#[verifier::external_type_specification]
#[verifier::external_body]
pub struct ExEguiWinitState(egui_winit::State);

#[verifier::external_type_specification]
#[verifier::external_body]
pub struct ExWinitWindow(winit::window::Window);

#[verifier::external_type_specification]
#[verifier::external_body]
pub struct ExAnyhowError(anyhow::Error);

/// Palette interaction states.
#[derive(Clone, Copy, Debug, PartialEq, Eq, Structural)]
pub enum PaletteState {
    /// No window.
    Hidden,
    /// Summoned with empty input: full command list, no selection.
    Idle,
    /// Non-empty input: fuzzy-filtered list, selection at index 0.
    Filtering,
    /// No command matches the input.
    Empty,
    /// A command is executing (input and list disabled).
    Executing,
    /// Execution failed (any key closes).
    Error,
}

/// The modifier keys held down, as the window's modifier events report them.
#[derive(Clone, Copy, Debug, PartialEq, Eq, Structural)]
pub struct ModifiersState {
    pub shift: bool,
    pub ctrl: bool,
    pub alt: bool,
    /// The Super key (Cmd on macOS, the Windows key elsewhere).
    pub logo: bool,
}

/// No modifier held.
pub open spec fn no_modifiers() -> ModifiersState {
    ModifiersState { shift: false, ctrl: false, alt: false, logo: false }
}

impl ModifiersState {
    /// The given modifiers held.
    pub fn new(shift: bool, ctrl: bool, alt: bool, logo: bool) -> (r: Self)
        ensures
            r == (ModifiersState { shift, ctrl, alt, logo }),
    {
        ModifiersState { shift, ctrl, alt, logo }
    }

    /// No modifier held.
    pub fn empty() -> (r: Self)
        ensures
            r == no_modifiers(),
    {
        ModifiersState { shift: false, ctrl: false, alt: false, logo: false }
    }

    /// Only Control held.
    pub fn control() -> (r: Self)
        ensures
            r == (ModifiersState { shift: false, ctrl: true, alt: false, logo: false }),
    {
        ModifiersState { shift: false, ctrl: true, alt: false, logo: false }
    }

    /// Whether Control is held.
    pub fn control_key(&self) -> (r: bool)
        ensures
            r == self.ctrl,
    {
        self.ctrl
    }
}

/// Whether tiny-skia can allocate a `width` by `height` pixmap: both sides
/// non-zero, a row of 4-byte pixels fits an `i32`, and the pixel buffer fits
/// a `usize`.
pub open spec fn pixmap_fits(width: int, height: int) -> bool {
    &&& width > 0
    &&& height > 0
    &&& width * 4 <= i32::MAX
    &&& (height - 1) * (width * 4) + width * 4 <= usize::MAX
}

/// The premultiplied RGBA bytes a pixmap holds, row by row.
pub uninterp spec fn pixmap_bytes(p: tiny_skia::Pixmap) -> Seq<u8>;

/// The bytes of a freshly allocated `width` by `height` pixmap: every pixel
/// transparent black.
pub open spec fn blank_bytes(width: int, height: int) -> Seq<u8> {
    Seq::new((width * height * 4) as nat, |_i: int| 0u8)
}

/// Binding to `tiny_skia::Pixmap::new`: a pixmap filled with transparent
/// black when [`pixmap_fits`] holds, `None` otherwise.
#[verifier::external_body]
fn new_pixmap(width: u32, height: u32) -> (r: Option<tiny_skia::Pixmap>)
    ensures
        r is Some <==> pixmap_fits(width as int, height as int),
        r matches Some(p) ==> pixmap_bytes(p) == blank_bytes(width as int, height as int),
{
    tiny_skia::Pixmap::new(width, height)
}

/// The palette's render target: a pixmap and its size in physical pixels.
pub struct Framebuffer {
    pixmap: tiny_skia::Pixmap,
    width: u32,
    height: u32,
}

impl Framebuffer {
    /// The width the pixmap was allocated with.
    pub closed spec fn spec_width(&self) -> u32 {
        self.width
    }

    /// The height the pixmap was allocated with.
    pub closed spec fn spec_height(&self) -> u32 {
        self.height
    }

    /// Width in physical pixels.
    pub fn width(&self) -> (r: u32)
        ensures
            r == self.spec_width(),
    {
        self.width
    }

    /// Height in physical pixels.
    pub fn height(&self) -> (r: u32)
        ensures
            r == self.spec_height(),
    {
        self.height
    }

    /// The pixmap drawn into.
    pub closed spec fn spec_pixmap(&self) -> tiny_skia::Pixmap {
        self.pixmap
    }

    /// The pixmap itself (for blitting).
    pub fn pixmap(&self) -> (r: &tiny_skia::Pixmap)
        ensures
            *r == self.spec_pixmap(),
    {
        &self.pixmap
    }

    /// The pixmap itself, for drawing into it.
    pub fn pixmap_mut(&mut self) -> (r: &mut tiny_skia::Pixmap)
        ensures
            *r == old(self).spec_pixmap(),
            final(self).spec_pixmap() == *final(r),
            final(self).spec_width() == old(self).spec_width(),
            final(self).spec_height() == old(self).spec_height(),
    {
        &mut self.pixmap
    }
}

/// Binding to `egui::Context::default`: a fresh UI context.
#[verifier::external_body]
fn new_egui_context() -> egui::Context {
    egui::Context::default()
}

/// Binding to `egui_winit::State::new` for the root viewport of `window`,
/// sharing the UI context `ctx`, with no pixel-ratio, theme or texture-size
/// overrides.
#[verifier::external_body]
fn new_winit_state(ctx: &egui::Context, window: &winit::window::Window) -> egui_winit::State {
    egui_winit::State::new(ctx.clone(), egui::ViewportId::ROOT, window, None, None, None)
}

/// Binding to `winit::window::Window::set_ime_allowed(true)`: asks the OS to
/// deliver input-method events to the window.
#[verifier::external_body]
fn allow_ime(window: &winit::window::Window) {
    window.set_ime_allowed(true)
}

/// Binding to the alternate (`{:#}`) display of an `anyhow::Error`: the
/// error's message followed by its causes.
#[verifier::external_body]
fn error_chain_text(e: &anyhow::Error) -> String {
    format!("{e:#}")
}

/// The plain data of a palette session.
pub struct SessionView {
    pub state: PaletteState,
    pub input: Seq<char>,
    /// Position of the highlighted entry in `filtered`.
    pub selection: Option<usize>,
    /// Indices into `commands`, in display order.
    pub filtered: Seq<usize>,
    pub commands: Seq<CommandView>,
    pub window_id: Option<WindowId>,
    /// A close arrived before the window was created.
    pub pending_close: bool,
    pub generation: int,
    pub geometry_revision: int,
    pub executing_id: Option<Seq<char>>,
    pub error: Option<Seq<char>>,
    /// The framebuffer's size, when one is allocated.
    pub framebuffer: Option<(u32, u32)>,
    pub textures: Map<TextureId, ImageView>,
    /// An input-translation state exists for the current window.
    pub has_winit_state: bool,
    pub focus_requested: bool,
    pub modifiers: ModifiersState,
    pub ime_allowed: bool,
}

/// `0, 1, .., n - 1`.
pub open spec fn index_seq(n: nat) -> Seq<usize> {
    Seq::new(n, |i: int| i as usize)
}

/// The session right after construction.
pub open spec fn initial_view(v: SessionView) -> bool {
    &&& v.state == PaletteState::Hidden
    &&& v.input == Seq::<char>::empty()
    &&& v.selection is None
    &&& v.filtered == Seq::<usize>::empty()
    &&& v.commands == Seq::<CommandView>::empty()
    &&& v.window_id is None
    &&& !v.pending_close
    &&& v.generation == 0
    &&& v.geometry_revision == 0
    &&& v.executing_id is None
    &&& v.error is None
    &&& v.framebuffer is None
    &&& v.textures == Map::<TextureId, ImageView>::empty()
    &&& !v.has_winit_state
    &&& !v.focus_requested
    &&& v.modifiers == no_modifiers()
    &&& !v.ime_allowed
}

/// Summon with the command snapshot `cmds`: a new generation and geometry
/// revision, fresh modifiers and input state, Idle with the full list and no
/// selection, no window yet, focus requested.
pub open spec fn summon_spec(v: SessionView, cmds: Seq<CommandView>) -> SessionView {
    SessionView {
        state: PaletteState::Idle,
        input: Seq::empty(),
        selection: None,
        filtered: index_seq(cmds.len()),
        commands: cmds,
        window_id: None,
        pending_close: false,
        generation: v.generation + 1,
        geometry_revision: v.geometry_revision + 1,
        executing_id: None,
        error: None,
        has_winit_state: false,
        focus_requested: true,
        modifiers: no_modifiers(),
        ime_allowed: false,
        ..v
    }
}

/// The window of this session was created with `id`: a pending close is
/// consumed (the window must be destroyed, `true`), otherwise the id is
/// recorded (`false`).
pub open spec fn window_created_spec(v: SessionView, id: WindowId) -> (SessionView, bool) {
    if v.pending_close {
        (SessionView { pending_close: false, ..v }, true)
    } else {
        (SessionView { window_id: Some(id), ..v }, false)
    }
}

/// A window is shown, is being created, or a close is still pending.
pub open spec fn live_window_spec(v: SessionView) -> bool {
    v.state != PaletteState::Hidden || v.window_id is Some || v.pending_close
}

/// Window creation failed: back to Hidden with nothing in flight (no
/// window, no pending close, no error, no executing command).
pub open spec fn create_failed_spec(v: SessionView) -> SessionView {
    SessionView { state: PaletteState::Hidden, window_id: None, pending_close: false, error: None, executing_id: None, ..v }
}

/// Close: Hidden, with no error and no executing command; the recorded
/// window id is handed back to destroy, else a close of a visible session is
/// left pending for the late window.
pub open spec fn close_spec(v: SessionView) -> (SessionView, Option<WindowId>) {
    let hidden = SessionView { state: PaletteState::Hidden, window_id: None, executing_id: None, error: None, ..v };
    match v.window_id {
        Some(id) => (SessionView { pending_close: false, ..hidden }, Some(id)),
        None => if v.state != PaletteState::Hidden {
            (SessionView { pending_close: true, ..hidden }, None)
        } else {
            (hidden, None)
        },
    }
}

/// Set the input: cut to [`MAX_QUERY_LEN`] characters, bump the geometry
/// revision, and drop any error or executing command; a blank input is Idle with the full list and no selection; an
/// input that matches nothing is Empty; otherwise Filtering with the ranked
/// matches and the selection on the first.
pub open spec fn set_input_spec(v: SessionView, s: Seq<char>) -> SessionView {
    let t = take_chars(s, MAX_QUERY_LEN as nat);
    let base = SessionView { geometry_revision: v.geometry_revision + 1, input: t, executing_id: None, error: None, ..v };
    if trim(t).len() == 0 {
        SessionView { state: PaletteState::Idle, selection: None, filtered: index_seq(v.commands.len()), ..base }
    } else {
        let ms = filter_spec(v.commands, t);
        if ms.len() == 0 {
            SessionView { state: PaletteState::Empty, selection: None, filtered: Seq::empty(), ..base }
        } else {
            SessionView {
                state: PaletteState::Filtering,
                selection: Some(0),
                filtered: ms.map_values(|m: MatchView| m.cmd_index as usize),
                ..base
            }
        }
    }
}

/// Idle or Filtering: the states that navigate and execute.
pub open spec fn navigable(st: PaletteState) -> bool {
    st == PaletteState::Idle || st == PaletteState::Filtering
}

/// Move the selection by `delta` with wrap-around over the filtered list;
/// with no selection a forward move selects the first entry and a backward
/// move the last. No effect outside Idle/Filtering or on an empty list.
pub open spec fn move_selection_spec(v: SessionView, delta: int) -> SessionView {
    let len = v.filtered.len() as int;
    if !navigable(v.state) || len == 0 {
        v
    } else {
        let sel = match v.selection {
            None => if delta >= 0 {
                0
            } else {
                len - 1
            },
            Some(i) => (i + delta) % len,
        };
        SessionView { selection: Some(sel as usize), ..v }
    }
}

/// The command index Enter executes: the selected filtered entry, else the
/// first filtered entry; nothing outside Idle/Filtering.
pub open spec fn resolve_spec(v: SessionView) -> Option<usize> {
    if !navigable(v.state) {
        None
    } else {
        match v.selection {
            Some(s) if s < v.filtered.len() => Some(v.filtered[s as int]),
            _ => if v.filtered.len() > 0 {
                Some(v.filtered[0])
            } else {
                None
            },
        }
    }
}

/// Replace the framebuffer by a fresh `width` by `height` one (none when the
/// size cannot be allocated).
pub open spec fn install_framebuffer_spec(v: SessionView, width: u32, height: u32) -> SessionView {
    SessionView {
        framebuffer: if pixmap_fits(width as int, height as int) {
            Some((width, height))
        } else {
            None
        },
        ..v
    }
}

/// Resize the framebuffer: a same-size framebuffer stays; otherwise a fresh
/// one of the new size, or the old one when the new size cannot be allocated.
pub open spec fn resize_framebuffer_spec(v: SessionView, width: u32, height: u32) -> SessionView {
    if v.framebuffer == Some((width, height)) || !pixmap_fits(width as int, height as int) {
        v
    } else {
        SessionView { framebuffer: Some((width, height)), ..v }
    }
}

/// Enter Executing with command `id`, only from Idle/Filtering and only for
/// the current generation; a successful transition bumps the geometry
/// revision.
pub open spec fn set_executing_spec(v: SessionView, gen: int, id: Seq<char>) -> (SessionView, bool) {
    if !navigable(v.state) || gen != v.generation {
        (v, false)
    } else {
        (
            SessionView {
                state: PaletteState::Executing,
                executing_id: Some(id),
                geometry_revision: v.geometry_revision + 1,
                ..v
            },
            true,
        )
    }
}

/// A runner completion for generation `gen`: ignored unless it is the current
/// generation and the session is Executing. `Ok` hides the panel and hands
/// back the window id to destroy (or leaves a close pending); `Err(text)`
/// enters Error with the text, keeps the window and the executing id, and
/// bumps the geometry revision.
pub open spec fn finalize_spec(v: SessionView, gen: int, outcome: Result<(), Seq<char>>) -> (SessionView, Option<WindowId>) {
    if gen != v.generation || v.state != PaletteState::Executing {
        (v, None)
    } else {
        match outcome {
            Ok(()) => {
                let hidden = SessionView { state: PaletteState::Hidden, executing_id: None, error: None, window_id: None, ..v };
                match v.window_id {
                    Some(id) => (SessionView { pending_close: false, ..hidden }, Some(id)),
                    None => (SessionView { pending_close: true, ..hidden }, None),
                }
            },
            Err(text) => (
                SessionView {
                    state: PaletteState::Error,
                    error: Some(text),
                    geometry_revision: v.geometry_revision + 1,
                    ..v
                },
                None,
            ),
        }
    }
}

/// The character sequence of an optional string slice.
pub open spec fn opt_str_view(s: Option<&'static str>) -> Option<Seq<char>> {
    match s {
        Some(t) => Some(t@),
        None => None,
    }
}

/// The character sequence of an optional string.
pub open spec fn opt_string_view(s: Option<String>) -> Option<Seq<char>> {
    match s {
        Some(t) => Some(t@),
        None => None,
    }
}

/// The palette session.
pub struct PaletteSession<R> {
    state: PaletteState,
    input: String,
    selection: Option<usize>,
    filtered: Vec<usize>,
    commands: Vec<Command<R>>,
    window_id: Option<WindowId>,
    pending_close: bool,
    generation: u64,
    geometry_revision: u64,
    executing_id: Option<&'static str>,
    error: Option<String>,
    framebuffer: Option<Framebuffer>,
    textures: TextureTable,
    winit_state: Option<egui_winit::State>,
    focus_requested: bool,
    modifiers: ModifiersState,
    ime_allowed: bool,
    egui_ctx: egui::Context,
}

impl<R> View for PaletteSession<R> {
    type V = SessionView;

    closed spec fn view(&self) -> SessionView {
        SessionView {
            state: self.state,
            input: self.input@,
            selection: self.selection,
            filtered: self.filtered@,
            commands: command_views(self.commands@),
            window_id: self.window_id,
            pending_close: self.pending_close,
            generation: self.generation as int,
            geometry_revision: self.geometry_revision as int,
            executing_id: opt_str_view(self.executing_id),
            error: opt_string_view(self.error),
            framebuffer: match self.framebuffer {
                Some(fb) => Some((fb.width, fb.height)),
                None => None,
            },
            textures: self.textures@,
            has_winit_state: self.winit_state is Some,
            focus_requested: self.focus_requested,
            modifiers: self.modifiers,
            ime_allowed: self.ime_allowed,
        }
    }
}

/// The runners of a list of commands.
pub open spec fn command_runners<R>(s: Seq<Command<R>>) -> Seq<R> {
    s.map_values(|c: Command<R>| c.runner)
}

/// The session invariant on views: every filtered entry indexes a command,
/// no command is listed twice, the selection indexes the filtered list, an
/// error is set only in the Error state, and an executing id only while
/// executing or after a failure.
pub open spec fn view_wf(v: SessionView) -> bool {
    &&& forall|j: int| 0 <= j < v.filtered.len() ==> (#[trigger] v.filtered[j]) < v.commands.len()
    &&& forall|i: int, j: int| 0 <= i < j < v.filtered.len() ==> (#[trigger] v.filtered[i]) != (#[trigger] v.filtered[j])
    &&& v.selection matches Some(i) ==> i < v.filtered.len()
    &&& v.error is Some ==> v.state == PaletteState::Error
    &&& v.executing_id is Some ==> (v.state == PaletteState::Executing || v.state == PaletteState::Error)
    &&& v.generation <= u64::MAX
    &&& v.geometry_revision <= u64::MAX
}

impl<R> PaletteSession<R> {
    /// The runners of the command snapshot, in snapshot order.
    pub closed spec fn runners(&self) -> Seq<R> {
        command_runners(self.commands@)
    }

    /// The framebuffer slot.
    pub closed spec fn spec_framebuffer(&self) -> Option<Framebuffer> {
        self.framebuffer
    }

    /// The input-translation state slot.
    pub closed spec fn spec_winit_state(&self) -> Option<egui_winit::State> {
        self.winit_state
    }

    /// The session invariant.
    pub closed spec fn wf(&self) -> bool {
        &&& view_wf(self@)
        &&& self.textures.wf()
    }

    /// Every session reached through this API keeps the invariant on its
    /// view: the selection lies inside the filtered list, the filtered list
    /// names each command at most once and only commands of the snapshot, an
    /// error is set only in the Error state, and an executing id only while
    /// executing or after a failure.
    pub proof fn lemma_session_invariant(&self)
        requires
            self.wf(),
        ensures
            view_wf(self@),
    {
    }

    /// A hidden session with no commands, no framebuffer and no textures.
    pub fn new() -> (r: Self)
        ensures
            r.wf(),
            initial_view(r@),
    {
        let r = PaletteSession {
            state: PaletteState::Hidden,
            input: String::new(),
            selection: None,
            filtered: Vec::new(),
            commands: Vec::new(),
            window_id: None,
            pending_close: false,
            generation: 0,
            geometry_revision: 0,
            executing_id: None,
            error: None,
            framebuffer: None,
            textures: TextureTable::new(),
            winit_state: None,
            focus_requested: false,
            modifiers: ModifiersState::empty(),
            ime_allowed: false,
            egui_ctx: new_egui_context(),
        };
        proof {
            assert(command_views(r.commands@) =~= Seq::<CommandView>::empty());
        }
        r
    }

    /// Summon the palette with the command snapshot `commands`: bump the
    /// generation and the geometry revision, reset modifiers, input state,
    /// IME and window pairing, move to Idle with the full list. Returns the
    /// new generation.
    pub fn summon(&mut self, commands: Vec<Command<R>>) -> (r: u64)
        requires
            old(self).wf(),
            old(self)@.generation < u64::MAX,
            old(self)@.geometry_revision < u64::MAX,
        ensures
            final(self).runners() == command_runners(commands@),
            final(self).spec_egui_ctx() == old(self).spec_egui_ctx(),
            final(self).wf(),
            final(self)@ == summon_spec(old(self)@, command_views(commands@)),
            r == final(self)@.generation,
    {
        self.generation = self.generation + 1;
        self.geometry_revision = self.geometry_revision + 1;
        self.modifiers = ModifiersState::empty();
        self.ime_allowed = false;
        self.winit_state = None;
        self.state = PaletteState::Idle;
        self.input = String::new();
        self.selection = None;
        self.error = None;
        let n = commands.len();
        self.filtered = index_vec(n);
        self.commands = commands;
        self.window_id = None;
        self.pending_close = false;
        self.executing_id = None;
        self.focus_requested = true;
        proof {
            assert(self@.filtered =~= index_seq(n as nat));
        }
        self.generation
    }

    /// Record the window id directly (the path that does not go through
    /// [`Self::on_window_created`]).
    pub fn set_window_id(&mut self, id: WindowId)
        requires
            old(self).wf(),
        ensures
            final(self).runners() == old(self).runners(),
            final(self).spec_egui_ctx() == old(self).spec_egui_ctx(),
            final(self).wf(),
            final(self)@ == (SessionView { window_id: Some(id), ..old(self)@ }),
    {
        self.window_id = Some(id);
    }

    /// The palette's own window was created with `id`. Returns `true` when a
    /// close arrived first: the caller must destroy the window at once.
    /// Otherwise records `id` as the live window and returns `false`.
    pub fn on_window_created(&mut self, id: WindowId) -> (r: bool)
        requires
            old(self).wf(),
        ensures
            final(self).runners() == old(self).runners(),
            final(self).spec_egui_ctx() == old(self).spec_egui_ctx(),
            final(self).wf(),
            (final(self)@, r) == window_created_spec(old(self)@, id),
    {
        if self.pending_close {
            self.pending_close = false;
            return true;
        }
        self.window_id = Some(id);
        proof {
            assert(self@.filtered == old(self)@.filtered);
            assert(self@.commands == old(self)@.commands);
            assert(self@.selection == old(self)@.selection);
        }
        false
    }

    /// True while a window is shown, being created, or awaiting its pending
    /// close: a toggle must then close rather than summon again.
    pub fn has_live_window(&self) -> (r: bool)
        ensures
            r == live_window_spec(self@),
    {
        self.state != PaletteState::Hidden || self.window_id.is_some() || self.pending_close
    }

    /// The window of a summon could not be created: back to Hidden so the
    /// next toggle summons afresh.
    pub fn on_create_failed(&mut self)
        requires
            old(self).wf(),
        ensures
            final(self).runners() == old(self).runners(),
            final(self).spec_egui_ctx() == old(self).spec_egui_ctx(),
            final(self).wf(),
            final(self)@ == create_failed_spec(old(self)@),
    {
        self.state = PaletteState::Hidden;
        self.window_id = None;
        self.pending_close = false;
        self.error = None;
        self.executing_id = None;
    }

    /// Close the palette: Hidden, error and executing command cleared, and
    /// the window id to destroy. With no id
    /// recorded yet but a visible session, the close is left pending for the
    /// late window.
    pub fn close(&mut self) -> (r: Option<WindowId>)
        requires
            old(self).wf(),
        ensures
            final(self).runners() == old(self).runners(),
            final(self).spec_egui_ctx() == old(self).spec_egui_ctx(),
            final(self).wf(),
            (final(self)@, r) == close_spec(old(self)@),
    {
        let was_visible = self.state != PaletteState::Hidden;
        self.state = PaletteState::Hidden;
        self.executing_id = None;
        self.error = None;
        proof {
            assert(self@.filtered =~= old(self)@.filtered);
        }
        match self.window_id.take() {
            Some(id) => {
                self.pending_close = false;
                Some(id)
            },
            None => {
                if was_visible {
                    self.pending_close = true;
                }
                None
            },
        }
    }

    /// Consume a pending close: whether one was pending.
    pub fn consume_pending_close(&mut self) -> (r: bool)
        requires
            old(self).wf(),
        ensures
            final(self).runners() == old(self).runners(),
            final(self).spec_egui_ctx() == old(self).spec_egui_ctx(),
            final(self).wf(),
            r == old(self)@.pending_close,
            final(self)@ == (SessionView { pending_close: false, ..old(self)@ }),
    {
        let was = self.pending_close;
        self.pending_close = false;
        was
    }

    /// The current state.
    pub fn state(&self) -> (r: PaletteState)
        ensures
            r == self@.state,
    {
        self.state
    }

    /// The current generation (bumped by every summon).
    pub fn generation(&self) -> (r: u64)
        ensures
            r == self@.generation,
    {
        self.generation
    }

    /// Record the modifier keys held down.
    pub fn set_modifiers(&mut self, m: ModifiersState)
        requires
            old(self).wf(),
        ensures
            final(self).runners() == old(self).runners(),
            final(self).spec_egui_ctx() == old(self).spec_egui_ctx(),
            final(self).wf(),
            final(self)@ == (SessionView { modifiers: m, ..old(self)@ }),
    {
        self.modifiers = m;
    }

    /// The modifier keys last recorded.
    pub fn modifiers(&self) -> (r: ModifiersState)
        ensures
            r == self@.modifiers,
    {
        self.modifiers
    }

    /// Whether IME input has been requested for the current window.
    pub fn ime_allowed(&self) -> (r: bool)
        ensures
            r == self@.ime_allowed,
    {
        self.ime_allowed
    }

    /// The geometry revision: bumped by every transition that changes the
    /// window's target height.
    pub fn geometry_revision(&self) -> (r: u64)
        ensures
            r == self@.geometry_revision,
    {
        self.geometry_revision
    }

    /// The input text.
    pub fn input(&self) -> (r: String)
        ensures
            r@ == self@.input,
    {
        self.input.clone()
    }

    /// Store the input text as is, without filtering.
    pub fn set_input_raw(&mut self, s: &str)
        requires
            old(self).wf(),
        ensures
            final(self).runners() == old(self).runners(),
            final(self).spec_egui_ctx() == old(self).spec_egui_ctx(),
            final(self).wf(),
            final(self)@ == (SessionView { input: s@, ..old(self)@ }),
    {
        self.input = String::from_str(s);
    }

    /// Set the input with filtering: cut to [`MAX_QUERY_LEN`] characters;
    /// blank → Idle with the full list and no selection; no match → Empty;
    /// otherwise Filtering with the ranked list and the selection on its
    /// first entry. Bumps the geometry revision.
    #[verifier::rlimit(40)]
    pub fn set_input(&mut self, s: &str)
        requires
            old(self).wf(),
            old(self)@.geometry_revision < u64::MAX,
        ensures
            final(self).runners() == old(self).runners(),
            final(self).spec_egui_ctx() == old(self).spec_egui_ctx(),
            final(self).wf(),
            final(self)@ == set_input_spec(old(self)@, s@),
    {
        self.geometry_revision = self.geometry_revision + 1;
        self.executing_id = None;
        self.error = None;
        let truncated = take_chars_string(s, MAX_QUERY_LEN);
        let blank = str_trim(truncated.as_str()).unicode_len() == 0;
        self.input = truncated.clone();
        if blank {
            self.state = PaletteState::Idle;
            self.selection = None;
            let n = self.commands.len();
            self.filtered = index_vec(n);
            proof {
                assert(self@.filtered =~= index_seq(n as nat));
            }
            return;
        }
        let matches = filter_commands(self.commands.as_slice(), truncated.as_str());
        let ghost ms = filter_spec(command_views(self.commands@), truncated@);
        proof {
            lemma_filter_ranked(command_views(self.commands@), truncated@);
        }
        if matches.len() == 0 {
            self.state = PaletteState::Empty;
            self.selection = None;
            self.filtered.clear();
        } else {
            self.state = PaletteState::Filtering;
            let mut filtered: Vec<usize> = Vec::new();
            let mut k: usize = 0;
            while k < matches.len()
                invariant
                    k <= matches@.len(),
                    match_views(matches@) == ms,
                    filtered@ =~= ms.take(k as int).map_values(|m: MatchView| m.cmd_index as usize),
                decreases matches@.len() - k,
            {
                filtered.push(matches[k].cmd_index);
                proof {
                    assert(ms[k as int] == matches@[k as int]@);
                }
                k = k + 1;
            }
            proof {
                assert(ms.take(k as int) =~= ms);
                assert forall|j: int| 0 <= j < filtered@.len() implies (#[trigger] filtered@[j]) < self.commands@.len() by {
                    assert(ms.contains(ms[j]));
                }
                lemma_filter_indices_distinct(command_views(self.commands@), truncated@);
                assert forall|a: int, b: int| 0 <= a < b < filtered@.len() implies
                    (#[trigger] filtered@[a]) != (#[trigger] filtered@[b]) by {
                    assert(filtered@[a] == ms[a].cmd_index as usize);
                    assert(filtered@[b] == ms[b].cmd_index as usize);
                }
            }
            self.filtered = filtered;
            self.selection = Some(0);
        }
    }

    /// Move the selection by `delta` with wrap-around over the filtered list
    /// (only in Idle/Filtering with a non-empty list). With no selection a
    /// forward move selects the first entry and a backward move the last.
    pub fn move_selection(&mut self, delta: i32)
        requires
            old(self).wf(),
            old(self)@.filtered.len() <= i32::MAX,
        ensures
            final(self).runners() == old(self).runners(),
            final(self).spec_egui_ctx() == old(self).spec_egui_ctx(),
            final(self).wf(),
            final(self)@ == move_selection_spec(old(self)@, delta as int),
    {
        if !(self.state == PaletteState::Idle || self.state == PaletteState::Filtering) {
            return;
        }
        let len = self.filtered.len();
        if len == 0 {
            return;
        }
        let next: usize = match self.selection {
            None => if delta >= 0 {
                0
            } else {
                len - 1
            },
            Some(i) => wrap_index(i, delta, len),
        };
        self.selection = Some(next);
    }

    /// The command index Enter executes: the selected entry of the filtered
    /// list, else its first entry; `None` outside Idle/Filtering.
    pub fn resolve_execution_target(&self) -> (r: Option<usize>)
        ensures
            r == resolve_spec(self@),
    {
        match self.state {
            PaletteState::Idle | PaletteState::Filtering => {
                let picked = match self.selection {
                    Some(s) => if s < self.filtered.len() {
                        Some(self.filtered[s])
                    } else {
                        None
                    },
                    None => None,
                };
                match picked {
                    Some(c) => Some(c),
                    None => if self.filtered.len() > 0 {
                        Some(self.filtered[0])
                    } else {
                        None
                    },
                }
            },
            _ => None,
        }
    }

    /// The command snapshot (cloned).
    pub fn commands(&self) -> (r: Vec<Command<R>>)
        where
            R: Clone,
        ensures
            command_views(r@) == self@.commands,
            r@.len() == self.runners().len(),
            forall|i: int| 0 <= i < r@.len() ==> cloned(#[trigger] self.runners()[i], r@[i].runner),
    {
        clone_commands(&self.commands)
    }

    /// The selected position in the filtered list (`None`: no highlight).
    pub fn selection(&self) -> (r: Option<usize>)
        ensures
            r == self@.selection,
    {
        self.selection
    }

    /// The filtered command indices, in display order.
    pub fn filtered(&self) -> (r: Vec<usize>)
        ensures
            r@ == self@.filtered,
    {
        let r = self.filtered.clone();
        proof {
            assert(r@ =~= self.filtered@);
        }
        r
    }

    /// The recorded window id.
    pub fn window_id(&self) -> (r: Option<WindowId>)
        ensures
            r == self@.window_id,
    {
        self.window_id
    }

    /// Allocate (or replace) the framebuffer at `w` by `h` (none when that
    /// size cannot be allocated).
    pub fn install_framebuffer(&mut self, w: u32, h: u32)
        requires
            old(self).wf(),
        ensures
            final(self).runners() == old(self).runners(),
            final(self).spec_egui_ctx() == old(self).spec_egui_ctx(),
            final(self).wf(),
            final(self)@ == install_framebuffer_spec(old(self)@, w, h),
            pixmap_fits(w as int, h as int) ==> (final(self).spec_framebuffer() matches Some(fb)
                && pixmap_bytes(fb.spec_pixmap()) == blank_bytes(w as int, h as int)),
    {
        self.framebuffer = match new_pixmap(w, h) {
            Some(pixmap) => Some(Framebuffer { pixmap, width: w, height: h }),
            None => None,
        };
    }

    /// Resize (or allocate) the framebuffer to `w` by `h`: a same-size
    /// framebuffer is kept as is; a failed allocation keeps the old one.
    pub fn resize_framebuffer(&mut self, w: u32, h: u32)
        requires
            old(self).wf(),
        ensures
            final(self).runners() == old(self).runners(),
            final(self).spec_egui_ctx() == old(self).spec_egui_ctx(),
            final(self).wf(),
            final(self)@ == resize_framebuffer_spec(old(self)@, w, h),
            old(self)@.framebuffer == Some((w, h)) || !pixmap_fits(w as int, h as int)
                ==> final(self).spec_framebuffer() == old(self).spec_framebuffer(),
            old(self)@.framebuffer != Some((w, h)) && pixmap_fits(w as int, h as int)
                ==> (final(self).spec_framebuffer() matches Some(fb)
                && pixmap_bytes(fb.spec_pixmap()) == blank_bytes(w as int, h as int)),
    {
        let needs_resize = match &self.framebuffer {
            None => true,
            Some(fb) => fb.width != w || fb.height != h,
        };
        if !needs_resize {
            return;
        }
        match new_pixmap(w, h) {
            Some(pixmap) => {
                self.framebuffer = Some(Framebuffer { pixmap, width: w, height: h });
            },
            None => {},
        }
    }

    /// Hand `f` the framebuffer slot (the blit path); `f` may replace or
    /// draw into it.
    pub fn with_framebuffer<T, F: FnOnce(&mut Option<Framebuffer>) -> T>(&mut self, f: F) -> (r: T)
        requires
            old(self).wf(),
            forall|fb: &mut Option<Framebuffer>| f.requires((fb,)),
        ensures
            final(self).runners() == old(self).runners(),
            final(self).spec_egui_ctx() == old(self).spec_egui_ctx(),
            final(self).wf(),
            final(self)@ == (SessionView { framebuffer: final(self)@.framebuffer, ..old(self)@ }),
            exists|fb: &mut Option<Framebuffer>| {
                &&& *fb == old(self).spec_framebuffer()
                &&& *final(fb) == final(self).spec_framebuffer()
                &&& f.ensures((fb,), r)
            },
    {
        f(&mut self.framebuffer)
    }

    /// Merge a texture delta into the texture table (see
    /// [`TextureTable::apply`]).
    pub fn apply_textures(&mut self, delta: TexturesDelta)
        requires
            old(self).wf(),
            delta_wf(delta),
        ensures
            final(self).runners() == old(self).runners(),
            final(self).spec_egui_ctx() == old(self).spec_egui_ctx(),
            final(self).wf(),
            final(self)@ == (SessionView { textures: apply_delta_spec(old(self)@.textures, delta), ..old(self)@ }),
    {
        self.textures.apply(delta);
    }

    /// The texture table.
    pub fn textures(&self) -> (r: &TextureTable)
        requires
            self.wf(),
        ensures
            r@ == self@.textures,
            r.wf(),
    {
        &self.textures
    }

    /// The UI context the palette draws with (the same one for the
    /// session's whole life).
    pub closed spec fn spec_egui_ctx(&self) -> egui::Context {
        self.egui_ctx
    }

    /// The UI context the palette draws with.
    pub fn egui_ctx(&self) -> (r: &egui::Context)
        ensures
            *r == self.spec_egui_ctx(),
    {
        &self.egui_ctx
    }

    /// Build the input-translation state for `window` on its first event, and
    /// request IME input from the OS the first time after a summon (the
    /// palette's only purpose is text input).
    pub fn ensure_winit_state(&mut self, window: &winit::window::Window)
        requires
            old(self).wf(),
        ensures
            final(self).runners() == old(self).runners(),
            final(self).spec_egui_ctx() == old(self).spec_egui_ctx(),
            final(self).wf(),
            final(self)@ == (SessionView { has_winit_state: true, ime_allowed: true, ..old(self)@ }),
            old(self).spec_winit_state() is Some ==> final(self).spec_winit_state() == old(self).spec_winit_state(),
    {
        if self.winit_state.is_none() {
            self.winit_state = Some(new_winit_state(&self.egui_ctx, window));
        }
        let enable_ime = !self.ime_allowed;
        self.ime_allowed = true;
        if enable_ime {
            allow_ime(window);
        }
    }

    /// Hand `f` the input-translation state slot (the frame loop's event
    /// translation).
    pub fn with_winit_state_mut<T, F: FnOnce(&mut Option<egui_winit::State>) -> T>(&mut self, f: F) -> (r: T)
        requires
            old(self).wf(),
            forall|st: &mut Option<egui_winit::State>| f.requires((st,)),
        ensures
            final(self).runners() == old(self).runners(),
            final(self).spec_egui_ctx() == old(self).spec_egui_ctx(),
            final(self).wf(),
            final(self)@ == (SessionView { has_winit_state: final(self)@.has_winit_state, ..old(self)@ }),
            exists|st: &mut Option<egui_winit::State>| {
                &&& *st == old(self).spec_winit_state()
                &&& *final(st) == final(self).spec_winit_state()
                &&& f.ensures((st,), r)
            },
    {
        f(&mut self.winit_state)
    }

    /// Consume the focus request: whether the input field should take focus.
    pub fn take_focus_request(&mut self) -> (r: bool)
        requires
            old(self).wf(),
        ensures
            final(self).runners() == old(self).runners(),
            final(self).spec_egui_ctx() == old(self).spec_egui_ctx(),
            final(self).wf(),
            r == old(self)@.focus_requested,
            final(self)@ == (SessionView { focus_requested: false, ..old(self)@ }),
    {
        let was = self.focus_requested;
        self.focus_requested = false;
        was
    }

    /// Enter Executing with command `id`: only from Idle/Filtering and only
    /// for the current generation. Returns whether the transition happened
    /// (and only then bumps the geometry revision).
    pub fn set_executing(&mut self, gen: u64, id: &'static str) -> (r: bool)
        requires
            old(self).wf(),
            old(self)@.geometry_revision < u64::MAX,
        ensures
            final(self).runners() == old(self).runners(),
            final(self).spec_egui_ctx() == old(self).spec_egui_ctx(),
            final(self).wf(),
            (final(self)@, r) == set_executing_spec(old(self)@, gen as int, id@),
    {
        if !(self.state == PaletteState::Idle || self.state == PaletteState::Filtering) {
            return false;
        }
        if gen != self.generation {
            return false;
        }
        self.geometry_revision = self.geometry_revision + 1;
        self.state = PaletteState::Executing;
        self.executing_id = Some(id);
        proof {
            assert(self@.filtered == old(self)@.filtered);
            assert(self@.commands == old(self)@.commands);
            assert(self@.selection == old(self)@.selection);
        }
        true
    }

    /// Runner completion with its outcome as text: see [`finalize_spec`].
    pub fn finalize_text(&mut self, gen: u64, outcome: Result<(), String>) -> (r: Option<WindowId>)
        requires
            old(self).wf(),
            old(self)@.geometry_revision < u64::MAX,
        ensures
            final(self).runners() == old(self).runners(),
            final(self).spec_egui_ctx() == old(self).spec_egui_ctx(),
            final(self).wf(),
            (final(self)@, r) == finalize_spec(old(self)@, gen as int, match outcome {
                Ok(()) => Ok(()),
                Err(t) => Err(t@),
            }),
    {
        if gen != self.generation || self.state != PaletteState::Executing {
            return None;
        }
        match outcome {
            Ok(()) => {
                self.state = PaletteState::Hidden;
                self.executing_id = None;
                self.error = None;
                let r = match self.window_id.take() {
                    Some(id) => {
                        self.pending_close = false;
                        Some(id)
                    },
                    None => {
                        self.pending_close = true;
                        None
                    },
                };
                proof {
                    assert(self@.filtered == old(self)@.filtered);
                    assert(self@.commands == old(self)@.commands);
                    assert(self@.selection == old(self)@.selection);
                }
                r
            },
            Err(text) => {
                self.state = PaletteState::Error;
                self.error = Some(text);
                self.geometry_revision = self.geometry_revision + 1;
                None
            },
        }
    }

    /// Runner completion. Ignored unless `gen` is the current generation and
    /// the session is Executing. `Ok` hides the panel and returns the window
    /// id to destroy (or leaves a close pending); `Err` enters Error with the
    /// error's message and causes, keeping the window and the executing id.
    pub fn finalize(&mut self, gen: u64, result: Result<(), anyhow::Error>) -> (r: Option<WindowId>)
        requires
            old(self).wf(),
            old(self)@.geometry_revision < u64::MAX,
        ensures
            final(self).runners() == old(self).runners(),
            final(self).spec_egui_ctx() == old(self).spec_egui_ctx(),
            final(self).wf(),
            result is Ok ==> (final(self)@, r) == finalize_spec(old(self)@, gen as int, Ok(())),
            result is Err ==> exists|text: Seq<char>| (final(self)@, r) == finalize_spec(old(self)@, gen as int, Err(text)),
    {
        let outcome: Result<(), String> = match &result {
            Ok(()) => Ok(()),
            Err(e) => Err(error_chain_text(e)),
        };
        let ghost text = match &outcome {
            Ok(()) => Seq::<char>::empty(),
            Err(t) => t@,
        };
        let r = self.finalize_text(gen, outcome);
        proof {
            if result is Err {
                assert(finalize_spec(old(self)@, gen as int, Err(text)) == (self@, r));
            }
        }
        r
    }

    /// The id of the command executing, or that failed.
    pub fn executing_id(&self) -> (r: Option<&'static str>)
        ensures
            opt_str_view(r) == self@.executing_id,
    {
        self.executing_id
    }

    /// The error text (in the Error state).
    pub fn error(&self) -> (r: Option<String>)
        ensures
            opt_string_view(r) == self@.error,
    {
        match &self.error {
            Some(e) => Some(e.clone()),
            None => None,
        }
    }
}

impl<R> Default for PaletteSession<R> {
    fn default() -> (r: Self)
        ensures
            r.wf(),
            initial_view(r@),
    {
        Self::new()
    }
}

/// `[0, 1, .., n - 1]`.
fn index_vec(n: usize) -> (r: Vec<usize>)
    ensures
        r@ == index_seq(n as nat),
{
    let mut r: Vec<usize> = Vec::new();
    let mut i: usize = 0;
    while i < n
        invariant
            i <= n,
            r@ =~= index_seq(i as nat),
        decreases n - i,
    {
        r.push(i);
        i = i + 1;
    }
    r
}

/// `(i + delta)` reduced into `0..len` (Euclidean remainder).
fn wrap_index(i: usize, delta: i32, len: usize) -> (r: usize)
    requires
        0 < len <= i32::MAX,
        i < len,
    ensures
        r == (i + delta) % (len as int),
        r < len,
{
    let s: i64 = i as i64 + delta as i64;
    let n: i64 = len as i64;
    if s >= 0 {
        let m = s % n;
        proof {
            vstd::arithmetic::div_mod::lemma_fundamental_div_mod(s as int, n as int);
        }
        m as usize
    } else {
        let neg: i64 = -s;
        let m = neg % n;
        proof {
            vstd::arithmetic::div_mod::lemma_fundamental_div_mod(neg as int, n as int);
            let q = neg / n;
            assert(s == (-q - 1) * n + (n - m)) by (nonlinear_arith)
                requires
                    neg == n * q + m,
                    s == -neg,
            ;
            if m == 0 {
                assert(s == (-q) * n + 0) by (nonlinear_arith)
                    requires
                        neg == n * q + m,
                        m == 0,
                        s == -neg,
                ;
                vstd::arithmetic::div_mod::lemma_fundamental_div_mod_converse(s as int, n as int, -q, 0);
            } else {
                vstd::arithmetic::div_mod::lemma_fundamental_div_mod_converse(s as int, n as int, -q - 1, n - m);
            }
        }
        if m == 0 {
            0
        } else {
            (n - m) as usize
        }
    }
}

/// A summon, the window's creation and a close form a complete cycle: the
/// close hands back exactly that window, and nothing is left live or pending;
/// each summon starts a new generation.
pub proof fn lemma_summon_close_cycle(v: SessionView, cmds: Seq<CommandView>, id: WindowId)
    ensures
        summon_spec(v, cmds).generation == v.generation + 1,
        ({
            let (v1, late) = window_created_spec(summon_spec(v, cmds), id);
            let (v2, closed) = close_spec(v1);
            &&& !late
            &&& closed == Some(id)
            &&& v2.state == PaletteState::Hidden
            &&& !live_window_spec(v2)
            &&& !v2.pending_close
        }),
{
}

/// A close that arrives before the window exists is kept pending, and the
/// late window is then destroyed exactly once: afterwards nothing is live.
pub proof fn lemma_close_before_created(v: SessionView, cmds: Seq<CommandView>, id: WindowId)
    ensures
        ({
            let (v1, closed) = close_spec(summon_spec(v, cmds));
            let (v2, destroy) = window_created_spec(v1, id);
            &&& closed is None
            &&& v1.pending_close
            &&& destroy
            &&& !v2.pending_close
            &&& v2.window_id is None
            &&& !live_window_spec(v2)
            &&& !window_created_spec(v2, id).1
        }),
{
}

/// A failed window creation always leaves the session summonable.
pub proof fn lemma_create_failed_unwedges(v: SessionView)
    ensures
        !live_window_spec(create_failed_spec(v)),
        create_failed_spec(v).geometry_revision == v.geometry_revision,
        create_failed_spec(v).generation == v.generation,
{
}

/// Execution starts only from Idle/Filtering with the current generation; a
/// rejected start changes nothing (not even the geometry revision), an
/// accepted one bumps the revision by one. Executing never resolves a
/// target, so it cannot start twice.
pub proof fn lemma_set_executing_guard(v: SessionView, gen: int, id: Seq<char>)
    ensures
        !(navigable(v.state) && gen == v.generation) ==> set_executing_spec(v, gen, id) == (v, false),
        navigable(v.state) && gen == v.generation ==> {
            let (v1, ok) = set_executing_spec(v, gen, id);
            &&& ok
            &&& v1.state == PaletteState::Executing
            &&& v1.geometry_revision == v.geometry_revision + 1
            &&& resolve_spec(v1) is None
            &&& set_executing_spec(v1, gen, id) == (v1, false)
        },
{
}

/// A completion of another generation, or outside Executing, is a no-op:
/// it neither touches the window nor writes an error.
pub proof fn lemma_finalize_guard(v: SessionView, gen: int, outcome: Result<(), Seq<char>>)
    requires
        gen != v.generation || v.state != PaletteState::Executing,
    ensures
        finalize_spec(v, gen, outcome) == (v, None::<WindowId>),
{
}

/// A completion for a re-summoned session is stale: the fresh panel and its
/// window survive it.
pub proof fn lemma_stale_completion_after_resummon(v: SessionView, cmds: Seq<CommandView>, id: WindowId, outcome: Result<(), Seq<char>>)
    ensures
        ({
            let v1 = SessionView { window_id: Some(id), ..summon_spec(v, cmds) };
            finalize_spec(v1, v.generation, outcome) == (v1, None::<WindowId>)
        }),
{
}

/// The geometry revision moves by exactly one on summon, input changes,
/// accepted execution starts and failed completions, and on nothing else.
pub proof fn lemma_geometry_revision(v: SessionView, cmds: Seq<CommandView>, s: Seq<char>, gen: int, id: Seq<char>, delta: int, wid: WindowId, text: Seq<char>, w: u32, h: u32)
    ensures
        summon_spec(v, cmds).geometry_revision == v.geometry_revision + 1,
        set_input_spec(v, s).geometry_revision == v.geometry_revision + 1,
        set_executing_spec(v, gen, id).0.geometry_revision == v.geometry_revision + if set_executing_spec(v, gen, id).1 { 1int } else { 0int },
        gen == v.generation && v.state == PaletteState::Executing ==> finalize_spec(v, gen, Err(text)).0.geometry_revision == v.geometry_revision + 1,
        finalize_spec(v, gen, Ok(())).0.geometry_revision == v.geometry_revision,
        move_selection_spec(v, delta).geometry_revision == v.geometry_revision,
        close_spec(v).0.geometry_revision == v.geometry_revision,
        window_created_spec(v, wid).0.geometry_revision == v.geometry_revision,
        create_failed_spec(v).geometry_revision == v.geometry_revision,
        install_framebuffer_spec(v, w, h).geometry_revision == v.geometry_revision,
        resize_framebuffer_spec(v, w, h).geometry_revision == v.geometry_revision,
{
}

/// Moving the selection keeps it inside the filtered list, and a step
/// forward then back returns to the same entry (wrapping at both ends).
pub proof fn lemma_move_selection_wraps(v: SessionView, i: usize)
    requires
        view_wf(v),
        navigable(v.state),
        v.selection == Some(i),
        v.filtered.len() <= usize::MAX,
    ensures
        move_selection_spec(v, 1).selection matches Some(j) && j < v.filtered.len(),
        move_selection_spec(v, -1).selection matches Some(j) && j < v.filtered.len(),
        move_selection_spec(move_selection_spec(v, 1), -1) == v,
        move_selection_spec(move_selection_spec(v, -1), 1) == v,
{
    let len = v.filtered.len() as int;
    let f = move_selection_spec(v, 1);
    let b = move_selection_spec(v, -1);
    if i + 1 < len {
        vstd::arithmetic::div_mod::lemma_fundamental_div_mod_converse(i + 1, len, 0, i + 1);
        assert(f.selection == Some((i + 1) as usize));
        vstd::arithmetic::div_mod::lemma_fundamental_div_mod_converse(i as int, len, 0, i as int);
        assert(move_selection_spec(f, -1).selection == Some(i));
    } else {
        vstd::arithmetic::div_mod::lemma_fundamental_div_mod_converse(i + 1, len, 1, 0);
        assert(f.selection == Some(0usize));
        vstd::arithmetic::div_mod::lemma_fundamental_div_mod_converse(-1, len, -1, len - 1);
        assert(move_selection_spec(f, -1).selection == Some(i));
    }
    if i >= 1 {
        vstd::arithmetic::div_mod::lemma_fundamental_div_mod_converse(i - 1, len, 0, i - 1);
        assert(b.selection == Some((i - 1) as usize));
        vstd::arithmetic::div_mod::lemma_fundamental_div_mod_converse(i as int, len, 0, i as int);
        assert(move_selection_spec(b, 1).selection == Some(i));
    } else {
        vstd::arithmetic::div_mod::lemma_fundamental_div_mod_converse(i - 1, len, -1, len - 1);
        assert(b.selection == Some((len - 1) as usize));
        vstd::arithmetic::div_mod::lemma_fundamental_div_mod_converse(len, len, 1, 0);
        assert(move_selection_spec(b, 1).selection == Some(i));
    }
    assert(move_selection_spec(f, -1) == v);
    assert(move_selection_spec(b, 1) == v);
}

/// Enter resolves to a command of the snapshot, read through the filtered
/// list (the selected entry, else the first); never outside Idle/Filtering.
pub proof fn lemma_resolve_target(v: SessionView)
    requires
        view_wf(v),
    ensures
        !navigable(v.state) ==> resolve_spec(v) is None,
        resolve_spec(v) matches Some(c) ==> c < v.commands.len(),
        navigable(v.state) ==> (v.selection matches Some(s) ==> resolve_spec(v) == Some(v.filtered[s as int])),
        navigable(v.state) && v.selection is None && v.filtered.len() > 0 ==> resolve_spec(v) == Some(v.filtered[0]),
{
}

/// A summon resets what a previous window left behind: input, selection,
/// modifiers, IME, errors and the window pairing; the full command list is
/// shown in registration order.
pub proof fn lemma_summon_resets(v: SessionView, cmds: Seq<CommandView>)
    ensures
        ({
            let v1 = summon_spec(v, cmds);
            &&& v1.state == PaletteState::Idle
            &&& v1.input.len() == 0
            &&& v1.selection is None
            &&& v1.modifiers == no_modifiers()
            &&& !v1.ime_allowed
            &&& !v1.has_winit_state
            &&& v1.error is None
            &&& v1.window_id is None
            &&& !v1.pending_close
            &&& v1.focus_requested
            &&& v1.filtered == index_seq(cmds.len())
            &&& view_wf(v1) <== v.generation < u64::MAX && v.geometry_revision < u64::MAX && cmds.len() <= usize::MAX
        }),
{
    let v1 = summon_spec(v, cmds);
    if cmds.len() <= usize::MAX {
        assert forall|i: int, j: int| 0 <= i < j < v1.filtered.len() implies
            (#[trigger] v1.filtered[i]) != (#[trigger] v1.filtered[j]) by {
            assert(v1.filtered[i] == i);
            assert(v1.filtered[j] == j);
        }
    }
}

/// The filter lists each command at most once.
proof fn lemma_filter_indices_distinct(cmds: Seq<CommandView>, query: Seq<char>)
    ensures
        forall|a: int| 0 <= a < filter_spec(cmds, query).len() ==>
            0 <= (#[trigger] filter_spec(cmds, query)[a]).cmd_index < cmds.len(),
        forall|a: int, b: int| 0 <= a < b < filter_spec(cmds, query).len() ==>
            (#[trigger] filter_spec(cmds, query)[a]).cmd_index != (#[trigger] filter_spec(cmds, query)[b]).cmd_index,
{
    let ms = filter_spec(cmds, query);
    lemma_filter_ranked(cmds, query);
    assert forall|a: int| 0 <= a < ms.len() implies 0 <= (#[trigger] ms[a]).cmd_index < cmds.len() by {
        assert(ms.contains(ms[a]));
    }
    assert forall|a: int, b: int| 0 <= a < b < ms.len() implies
        (#[trigger] ms[a]).cmd_index != (#[trigger] ms[b]).cmd_index by {
        assert(ms.contains(ms[a]));
        assert(ms.contains(ms[b]));
        assert(ranks_before(ms[a], ms[b]));
    }
}

/// Setting the input keeps at most [`MAX_QUERY_LEN`] characters and resets
/// the selection: none when blank or unmatched, the first entry otherwise.
pub proof fn lemma_set_input_resets_selection(v: SessionView, s: Seq<char>)
    ensures
        set_input_spec(v, s).input.len() <= MAX_QUERY_LEN,
        set_input_spec(v, s).input == take_chars(s, MAX_QUERY_LEN as nat),
        set_input_spec(v, s).state == PaletteState::Filtering ==> set_input_spec(v, s).selection == Some(0usize) && set_input_spec(v, s).filtered.len() > 0,
        set_input_spec(v, s).state != PaletteState::Filtering ==> set_input_spec(v, s).selection is None,
{
}

} // verus!

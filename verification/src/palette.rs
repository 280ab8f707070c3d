//! The command palette: its session state machine, the fuzzy filter, the
//! texture table, and the decisions the palette window makes on keys, on
//! execution and on runner completion.

pub mod filter;
pub mod session;
pub mod text;
pub mod theme;
pub mod textures;

use vstd::prelude::*;

use crate::command::{command_views, Command, CommandView};
use crate::config::{config_lookup, ConfigCenter, ConfigValue, ConfigValueView};
use crate::strings::str_eq;
use crate::palette::session::{
    close_spec, finalize_spec, move_selection_spec, resolve_spec, set_executing_spec,
    ModifiersState, PaletteSession, PaletteState, SessionView,
};
use crate::window::WindowId;

verus! {

/// The palette's default toggle hotkey.
pub open spec fn default_hotkey_spec() -> Seq<char> {
    "Cmd+Shift+Space"@
}

/// The default palette hotkey (the `[palette].hotkey` setting overrides it).
pub fn default_hotkey() -> (r: String)
    ensures
        r@ == default_hotkey_spec(),
{
    String::from_str("Cmd+Shift+Space")
}

/// The hotkey a configuration selects in `section`: its `hotkey` string when
/// there is one, else `default`.
pub open spec fn configured_hotkey(m: Map<Seq<char>, Map<Seq<char>, ConfigValueView>>, section: Seq<char>, default: Seq<char>) -> Seq<char> {
    match config_lookup(m, section, "hotkey"@) {
        Some(ConfigValueView::String(s)) => s,
        _ => default,
    }
}

/// Read `[palette].hotkey`, defaulting when absent or not a string.
pub fn hotkey_from_config(config: &ConfigCenter) -> (r: String)
    requires
        config.wf(),
    ensures
        r@ == configured_hotkey(config@, "palette"@, default_hotkey_spec()),
{
    match config.get("palette", "hotkey") {
        Some(ConfigValue::String(s)) => s,
        _ => default_hotkey(),
    }
}

/// A key press the palette window routes, as far as the palette reads keys.
#[derive(Clone, Debug, PartialEq, Eq)]
pub enum PaletteKey {
    Escape,
    ArrowUp,
    ArrowDown,
    Enter,
    /// A key that types text (letters arrive this way, never as named keys).
    Character(String),
    /// Any other named key.
    Other,
}

/// What the window does after the palette routed a key.
#[derive(Clone, Copy, Debug, PartialEq, Eq)]
pub enum KeyOutcome {
    /// Not a panel key: the text input gets it.
    Ignored,
    /// The panel closed: destroy this window, when one was recorded.
    Closed(Option<WindowId>),
    /// The selection moved: repaint.
    Moved,
    /// Enter: execute the command at this index of the snapshot, if any;
    /// repaint.
    Enter(Option<usize>),
}

/// The character sequence of a key, when it types one.
pub open spec fn key_text(key: PaletteKey) -> Option<Seq<char>> {
    match key {
        PaletteKey::Character(s) => Some(s@),
        _ => None,
    }
}

/// Whether a typed text is the letter `lower` in either case.
pub open spec fn is_letter(t: Seq<char>, lower: char, upper: char) -> bool {
    t.len() == 1 && (t[0] == lower || t[0] == upper)
}

/// The palette's key routing: in the Error state any key closes; Escape
/// closes unless a command is executing; Ctrl+P / Ctrl+N and the arrows move
/// the selection back / forward; Enter resolves the command to execute;
/// every other key goes to the text input.
pub open spec fn route_key_spec(v: SessionView, key: PaletteKey, modifiers: ModifiersState) -> (SessionView, KeyOutcome) {
    if v.state == PaletteState::Error {
        let (v1, id) = close_spec(v);
        (v1, KeyOutcome::Closed(id))
    } else {
        match key {
            PaletteKey::Escape => if v.state != PaletteState::Executing {
                let (v1, id) = close_spec(v);
                (v1, KeyOutcome::Closed(id))
            } else {
                (v, KeyOutcome::Ignored)
            },
            PaletteKey::Character(s) => if modifiers.ctrl && is_letter(s@, 'p', 'P') {
                (move_selection_spec(v, -1), KeyOutcome::Moved)
            } else if modifiers.ctrl && is_letter(s@, 'n', 'N') {
                (move_selection_spec(v, 1), KeyOutcome::Moved)
            } else {
                (v, KeyOutcome::Ignored)
            },
            PaletteKey::ArrowDown => (move_selection_spec(v, 1), KeyOutcome::Moved),
            PaletteKey::ArrowUp => (move_selection_spec(v, -1), KeyOutcome::Moved),
            PaletteKey::Enter => (v, KeyOutcome::Enter(resolve_spec(v))),
            PaletteKey::Other => (v, KeyOutcome::Ignored),
        }
    }
}

/// Whether `s` is the single letter `lower` or `upper`.
fn is_letter_exec(s: &String, lower: char, upper: char) -> (r: bool)
    ensures
        r == is_letter(s@, lower, upper),
{
    let t = s.as_str();
    if t.unicode_len() != 1 {
        return false;
    }
    let c = t.get_char(0);
    c == lower || c == upper
}

/// Route a key press through the palette (see [`route_key_spec`]). The
/// caller destroys a closed window, repaints after a move or Enter, and
/// executes the resolved command on Enter.
pub fn on_palette_key<R>(session: &mut PaletteSession<R>, key: &PaletteKey, modifiers: ModifiersState) -> (r: KeyOutcome)
    requires
        old(session).wf(),
        old(session)@.filtered.len() <= i32::MAX,
    ensures
        final(session).runners() == old(session).runners(),
        final(session).spec_egui_ctx() == old(session).spec_egui_ctx(),
        final(session).wf(),
        (final(session)@, r) == route_key_spec(old(session)@, *key, modifiers),
{
    let state = session.state();
    if state == PaletteState::Error {
        return KeyOutcome::Closed(session.close());
    }
    match key {
        PaletteKey::Escape => {
            if state != PaletteState::Executing {
                KeyOutcome::Closed(session.close())
            } else {
                KeyOutcome::Ignored
            }
        },
        PaletteKey::Character(s) => {
            if modifiers.control_key() && is_letter_exec(s, 'p', 'P') {
                session.move_selection(-1);
                KeyOutcome::Moved
            } else if modifiers.control_key() && is_letter_exec(s, 'n', 'N') {
                session.move_selection(1);
                KeyOutcome::Moved
            } else {
                KeyOutcome::Ignored
            }
        },
        PaletteKey::ArrowDown => {
            session.move_selection(1);
            KeyOutcome::Moved
        },
        PaletteKey::ArrowUp => {
            session.move_selection(-1);
            KeyOutcome::Moved
        },
        PaletteKey::Enter => KeyOutcome::Enter(session.resolve_execution_target()),
        PaletteKey::Other => KeyOutcome::Ignored,
    }
}

/// How an execution request went.
#[derive(Clone, Copy, Debug, PartialEq, Eq)]
pub enum ExecuteStart {
    /// The session was not Idle/Filtering (or the generation moved on):
    /// nothing runs.
    Rejected,
    /// The runner must run now; its completion is for `generation`. The
    /// panel was closed first when the command hides it (`destroy` is then
    /// the window to destroy before the runner starts).
    Started { generation: u64, destroy: Option<WindowId> },
}

/// The execution start: Executing from Idle/Filtering for the current
/// generation; a command that hides the palette closes it first.
pub open spec fn begin_execute_spec(v: SessionView, id: Seq<char>, hide_before_execute: bool) -> (SessionView, ExecuteStart) {
    let (v1, ok) = set_executing_spec(v, v.generation, id);
    if !ok {
        (v, ExecuteStart::Rejected)
    } else if hide_before_execute {
        let (v2, destroy) = close_spec(v1);
        (v2, ExecuteStart::Started { generation: v.generation as u64, destroy })
    } else {
        (v1, ExecuteStart::Started { generation: v.generation as u64, destroy: None })
    }
}

/// Start executing command `id`: enter Executing for the current
/// generation (re-entrancy guard), and close the panel first when the
/// command must not be seen on screen.
pub fn begin_execute<R>(session: &mut PaletteSession<R>, id: &'static str, hide_before_execute: bool) -> (r: ExecuteStart)
    requires
        old(session).wf(),
        old(session)@.geometry_revision < u64::MAX,
    ensures
        final(session).runners() == old(session).runners(),
        final(session).spec_egui_ctx() == old(session).spec_egui_ctx(),
        final(session).wf(),
        (final(session)@, r) == begin_execute_spec(old(session)@, id@, hide_before_execute),
{
    let generation = session.generation();
    if !session.set_executing(generation, id) {
        return ExecuteStart::Rejected;
    }
    let destroy = if hide_before_execute {
        session.close()
    } else {
        None
    };
    ExecuteStart::Started { generation, destroy }
}

/// What the window does once a runner completed.
#[derive(Clone, Copy, Debug, PartialEq, Eq)]
pub enum CompletionAction {
    /// Destroy the palette window (success).
    Destroy(WindowId),
    /// Repaint the palette window (it shows the error).
    Redraw(WindowId),
    /// Nothing: a stale completion, or the panel is already gone.
    Nothing,
}

/// The action after a completion took the session from `v` to `v1` and
/// returned `closed`.
pub open spec fn completion_action(v1: SessionView, closed: Option<WindowId>) -> CompletionAction {
    match closed {
        Some(id) => CompletionAction::Destroy(id),
        None => if v1.state == PaletteState::Error {
            match v1.window_id {
                Some(id) => CompletionAction::Redraw(id),
                None => CompletionAction::Nothing,
            }
        } else {
            CompletionAction::Nothing
        },
    }
}

/// Apply a runner's completion for `generation` to the session and say what
/// the window must do: destroy it on success, repaint it to show the error
/// text on failure, or nothing for a stale completion. The caller renders
/// the runner's error as the text shown in the panel.
pub fn complete_execute<R>(session: &mut PaletteSession<R>, generation: u64, outcome: Result<(), String>) -> (r: CompletionAction)
    requires
        old(session).wf(),
        old(session)@.geometry_revision < u64::MAX,
    ensures
        final(session).runners() == old(session).runners(),
        final(session).spec_egui_ctx() == old(session).spec_egui_ctx(),
        final(session).wf(),
        ({
            let (v1, closed) = finalize_spec(old(session)@, generation as int, match outcome {
                Ok(()) => Ok(()),
                Err(t) => Err(t@),
            });
            final(session)@ == v1 && r == completion_action(v1, closed)
        }),
{
    match session.finalize_text(generation, outcome) {
        Some(id) => CompletionAction::Destroy(id),
        None => {
            if session.state() == PaletteState::Error {
                match session.window_id() {
                    Some(id) => CompletionAction::Redraw(id),
                    None => CompletionAction::Nothing,
                }
            } else {
                CompletionAction::Nothing
            }
        },
    }
}

/// In the Error state every key closes the panel; Escape never closes a
/// panel whose command is executing.
pub proof fn lemma_error_any_key_closes(v: SessionView, key: PaletteKey, modifiers: ModifiersState)
    ensures
        v.state == PaletteState::Error ==> route_key_spec(v, key, modifiers).1 is Closed && route_key_spec(v, key, modifiers).0.state == PaletteState::Hidden,
        v.state == PaletteState::Executing ==> route_key_spec(v, PaletteKey::Escape, modifiers) == (v, KeyOutcome::Ignored),
{
}

/// Without Control held, P and N are plain text, never navigation.
pub proof fn lemma_plain_letters_are_text(v: SessionView, s: String, modifiers: ModifiersState)
    requires
        !modifiers.ctrl,
        v.state != PaletteState::Error,
    ensures
        route_key_spec(v, PaletteKey::Character(s), modifiers) == (v, KeyOutcome::Ignored),
{
}

/// Ctrl+P / Ctrl+N navigate exactly like the up / down arrows.
pub proof fn lemma_ctrl_pn_match_arrows(v: SessionView, s: String, modifiers: ModifiersState)
    requires
        modifiers.ctrl,
        v.state != PaletteState::Error,
    ensures
        is_letter(s@, 'p', 'P') ==> route_key_spec(v, PaletteKey::Character(s), modifiers) == route_key_spec(v, PaletteKey::ArrowUp, modifiers),
        is_letter(s@, 'n', 'N') ==> route_key_spec(v, PaletteKey::Character(s), modifiers) == route_key_spec(v, PaletteKey::ArrowDown, modifiers),
{
}

/// A command that hides the palette never runs with the panel live: when its
/// execution starts the session is Hidden and either hands back the window to
/// destroy or leaves the close pending for the late window.
pub proof fn lemma_hide_before_execute(v: SessionView, id: Seq<char>)
    ensures
        begin_execute_spec(v, id, true).1 is Started ==> {
            let v1 = begin_execute_spec(v, id, true).0;
            &&& v1.state == PaletteState::Hidden
            &&& v1.window_id is None
            &&& (begin_execute_spec(v, id, true).1->destroy is None ==> v1.pending_close)
        },
{
}

/// Physical-pixel geometry of the palette window: its inner size and its
/// top-left position.
#[derive(Clone, Copy, Debug, PartialEq, Eq)]
pub struct PanelGeometry {
    pub inner_size: (u32, u32),
    pub position: (i32, i32),
}

/// At most this many rows are visible; more scroll.
pub const MAX_VISIBLE_ROWS: usize = 10;

/// The panel height in logical pixels for a state and a visible row count:
/// Idle/Filtering `80 + 48 * min(n, 10)`, Empty/Error a fixed 144, Executing
/// `112 + 48 * min(n, 10)` (a 32px status line on top), Hidden 0.
pub open spec fn window_height_spec(state: PaletteState, visible: int) -> int {
    let n = if visible <= 10 { visible } else { 10 };
    match state {
        PaletteState::Hidden => 0,
        PaletteState::Idle | PaletteState::Filtering => 80 + 48 * n,
        PaletteState::Empty | PaletteState::Error => 144,
        PaletteState::Executing => 112 + 48 * n,
    }
}

/// The panel height in logical pixels (see [`window_height_spec`]).
pub fn window_height_px(state: PaletteState, visible: usize) -> (r: u32)
    ensures
        r == window_height_spec(state, visible as int),
{
    let n: u32 = if visible <= MAX_VISIBLE_ROWS { visible as u32 } else { 10 };
    match state {
        PaletteState::Hidden => 0,
        PaletteState::Idle | PaletteState::Filtering => 80 + 48 * n,
        PaletteState::Empty | PaletteState::Error => 144,
        PaletteState::Executing => 112 + 48 * n,
    }
}

/// The panel grows with the visible rows up to ten, the Executing panel is
/// exactly one 32px status line taller than the list it dims, and a shown
/// panel is never shorter than 128 logical pixels for one row.
pub proof fn lemma_window_height(visible: int, more: int)
    requires
        0 < visible <= more,
    ensures
        window_height_spec(PaletteState::Executing, visible) == window_height_spec(PaletteState::Idle, visible) + 32,
        window_height_spec(PaletteState::Idle, visible) <= window_height_spec(PaletteState::Idle, more),
        window_height_spec(PaletteState::Idle, more) <= 560,
        window_height_spec(PaletteState::Filtering, visible) >= 128,
{
}

/// The name of the first command of `commands` with id `id`.
pub open spec fn name_lookup(commands: Seq<CommandView>, id: Seq<char>) -> Option<Seq<char>>
    decreases commands.len(),
{
    if commands.len() == 0 {
        None
    } else if commands[0].id == id {
        Some(commands[0].name)
    } else {
        name_lookup(commands.drop_first(), id)
    }
}

/// The display name of the command in the status and error lines: the name
/// of the first command with the executing id, else the id itself, else
/// nothing.
pub open spec fn command_name_spec(executing: Option<Seq<char>>, commands: Seq<CommandView>) -> Seq<char> {
    match executing {
        Some(id) => match name_lookup(commands, id) {
            Some(name) => name,
            None => id,
        },
        None => Seq::empty(),
    }
}

/// The display name of the executing (or failed) command.
pub fn command_name<R>(session: &PaletteSession<R>, commands: &[Command<R>]) -> (r: String)
    ensures
        r@ == command_name_spec(session@.executing_id, command_views(commands@)),
{
    let ghost views = command_views(commands@);
    match session.executing_id() {
        Some(id) => {
            let mut i: usize = 0;
            proof {
                assert(views.skip(0) =~= views);
            }
            while i < commands.len()
                invariant
                    i <= commands@.len(),
                    views == command_views(commands@),
                    session@.executing_id == Some(id@),
                    name_lookup(views, id@) == name_lookup(views.skip(i as int), id@),
                decreases commands@.len() - i,
            {
                proof {
                    assert(views.skip(i as int)[0] == views[i as int]);
                    assert(views.skip(i as int).drop_first() =~= views.skip(i + 1));
                    assert(views[i as int] == commands@[i as int]@);
                }
                if str_eq(commands[i].id, id) {
                    let name = commands[i].name.clone();
                    proof {
                        assert(views.skip(i as int)[0].id == id@);
                        assert(name_lookup(views.skip(i as int), id@) == Some(views[i as int].name));
                    }
                    return name;
                }
                i = i + 1;
            }
            proof {
                assert(views.skip(i as int).len() == 0);
            }
            String::from_str(id)
        },
        None => String::new(),
    }
}

} // verus!

use mybox::command::Command;
use mybox::config::{ConfigCenter, ConfigValue};
use mybox::palette::session::{ModifiersState, PaletteSession, PaletteState};
use mybox::palette::text::char_indices_to_byte_ranges;
use mybox::palette::theme::{
    ACCENT, BG, FONT_SIZE_DESC, FONT_SIZE_INPUT, FONT_SIZE_NAME, PANEL_WIDTH, PLACEHOLDER, ROW_HOVERED, ROW_SELECTED,
    SP_2XL, SP_MD, SP_SM, SP_XS, TEXT_DIM,
};
use mybox::palette::{
    begin_execute, command_name, complete_execute, default_hotkey, hotkey_from_config, on_palette_key,
    window_height_px, CompletionAction, ExecuteStart, KeyOutcome, PaletteKey,
};
use std::sync::atomic::{AtomicUsize, Ordering};
use std::sync::Arc;

fn fake_cmd(id: &'static str) -> Command<()> {
    Command {
        id,
        name: format!("name of {id}"),
        description: "d".to_string(),
        keywords: vec![],
        hide_before_execute: false,
        runner: (),
    }
}

fn rig() -> PaletteSession<()> {
    let mut s = PaletteSession::new();
    s.summon(vec![fake_cmd("a"), fake_cmd("b"), fake_cmd("c")]);
    s
}

#[test]
fn hotkey_from_config_reads_palette_section_or_defaults() {
    let mut config = ConfigCenter::default();
    assert_eq!(hotkey_from_config(&config), default_hotkey());
    config.set("palette", "hotkey", ConfigValue::String("Ctrl+Alt+Space".to_string()));
    assert_eq!(hotkey_from_config(&config), "Ctrl+Alt+Space");
}

#[test]
fn palette_hotkey_ignores_non_string_values() {
    let mut config = ConfigCenter::default();
    config.set("palette", "hotkey", ConfigValue::Integer(3));
    assert_eq!(hotkey_from_config(&config), "Cmd+Shift+Space");
}

#[test]
fn char_indices_convert_to_utf8_byte_ranges() {
    let text = "开始截图";
    assert_eq!(char_indices_to_byte_ranges(text, &[2, 3]), vec![(6, 12)], "contiguous merged");
    assert_eq!(char_indices_to_byte_ranges(text, &[0]), vec![(0, 3)]);
    assert_eq!(char_indices_to_byte_ranges(text, &[0, 2]), vec![(0, 3), (6, 9)]);
    assert_eq!(char_indices_to_byte_ranges(text, &[]), vec![]);
    assert_eq!(char_indices_to_byte_ranges(text, &[99]), vec![], "out of range skipped");
    assert_eq!(char_indices_to_byte_ranges("jietu", &[0, 3]), vec![(0, 1), (3, 4)]);
}

#[test]
fn byte_ranges_handle_mixed_widths_unsorted_and_duplicate_indices() {
    // a(0..1) é(1..3) 截(3..6) 😀(6..10) b(10..11)
    let text = "aé截😀b";
    assert_eq!(char_indices_to_byte_ranges(text, &[3, 1, 2, 2]), vec![(1, 10)]);
    assert_eq!(char_indices_to_byte_ranges(text, &[4, 0]), vec![(0, 1), (10, 11)]);
}

#[test]
fn ctrl_p_moves_selection_up() {
    let mut s = rig();
    s.move_selection(1);
    s.move_selection(1);
    assert_eq!(s.selection(), Some(1));
    let out = on_palette_key(&mut s, &PaletteKey::Character("p".to_string()), ModifiersState::control());
    assert_eq!(out, KeyOutcome::Moved);
    assert_eq!(s.selection(), Some(0));
}

#[test]
fn ctrl_n_moves_selection_down() {
    let mut s = rig();
    let out = on_palette_key(&mut s, &PaletteKey::Character("N".to_string()), ModifiersState::control());
    assert_eq!(out, KeyOutcome::Moved);
    assert_eq!(s.selection(), Some(0));
    on_palette_key(&mut s, &PaletteKey::Character("n".to_string()), ModifiersState::control());
    assert_eq!(s.selection(), Some(1));
}

#[test]
fn plain_p_without_ctrl_is_not_consumed() {
    let mut s = rig();
    let out = on_palette_key(&mut s, &PaletteKey::Character("p".to_string()), ModifiersState::empty());
    assert_eq!(out, KeyOutcome::Ignored);
    assert_eq!(s.selection(), None);
}

#[test]
fn arrows_wrap_and_enter_resolves_the_highlight() {
    let mut s = rig();
    assert_eq!(on_palette_key(&mut s, &PaletteKey::ArrowUp, ModifiersState::empty()), KeyOutcome::Moved);
    assert_eq!(s.selection(), Some(2), "first ↑ selects the last entry");
    assert_eq!(on_palette_key(&mut s, &PaletteKey::ArrowDown, ModifiersState::empty()), KeyOutcome::Moved);
    assert_eq!(s.selection(), Some(0));
    assert_eq!(on_palette_key(&mut s, &PaletteKey::Enter, ModifiersState::empty()), KeyOutcome::Enter(Some(0)));
}

#[test]
fn escape_closes_except_while_executing() {
    let mut s = rig();
    s.set_window_id(11);
    let gen = s.generation();
    assert!(s.set_executing(gen, "a"));
    assert_eq!(on_palette_key(&mut s, &PaletteKey::Escape, ModifiersState::empty()), KeyOutcome::Ignored);
    assert_eq!(s.state(), PaletteState::Executing);
    let mut t = rig();
    t.set_window_id(12);
    assert_eq!(on_palette_key(&mut t, &PaletteKey::Escape, ModifiersState::empty()), KeyOutcome::Closed(Some(12)));
    assert_eq!(t.state(), PaletteState::Hidden);
}

#[test]
fn ctrl_pn_in_error_state_closes_panel() {
    let mut s = rig();
    s.set_window_id(5);
    let gen = s.generation();
    s.set_executing(gen, "a");
    s.finalize(gen, Err(anyhow::Error::msg("boom")));
    assert_eq!(s.state(), PaletteState::Error);
    let out = on_palette_key(&mut s, &PaletteKey::Character("p".to_string()), ModifiersState::control());
    assert_eq!(out, KeyOutcome::Closed(Some(5)));
    assert_eq!(s.state(), PaletteState::Hidden);
}

#[test]
fn execute_start_hides_the_panel_first_for_capture_commands() {
    let mut s = rig();
    s.set_window_id(8);
    let start = begin_execute(&mut s, "a", true);
    assert_eq!(start, ExecuteStart::Started { generation: 1, destroy: Some(8) });
    assert_eq!(s.state(), PaletteState::Hidden);
    assert!(!s.has_live_window());
    assert_eq!(begin_execute(&mut s, "a", false), ExecuteStart::Rejected, "Hidden never executes");
}

#[test]
fn execute_start_keeps_the_panel_for_ordinary_commands() {
    let mut s = rig();
    s.set_window_id(8);
    assert_eq!(begin_execute(&mut s, "b", false), ExecuteStart::Started { generation: 1, destroy: None });
    assert_eq!(s.state(), PaletteState::Executing);
    assert_eq!(begin_execute(&mut s, "b", false), ExecuteStart::Rejected, "no re-entrancy");
}

#[test]
fn completion_destroys_on_success_and_redraws_on_error() {
    let mut s = rig();
    s.set_window_id(4);
    let gen = s.generation();
    s.set_executing(gen, "a");
    assert_eq!(complete_execute(&mut s, gen, Ok(())), CompletionAction::Destroy(4));
    let mut t = rig();
    t.set_window_id(6);
    let gen = t.generation();
    t.set_executing(gen, "a");
    assert_eq!(complete_execute(&mut t, gen, Err("x".to_string())), CompletionAction::Redraw(6));
    assert_eq!(t.error(), Some("x".to_string()), "the panel shows the runner's error text");
    let mut u = rig();
    let gen_u = u.generation();
    assert_eq!(complete_execute(&mut u, gen_u + 1, Ok(())), CompletionAction::Nothing, "stale completion");
}

#[test]
fn command_name_prefers_the_command_name_then_the_id() {
    let mut s = rig();
    let gen = s.generation();
    s.set_executing(gen, "b");
    let cmds = s.commands();
    assert_eq!(command_name(&s, &cmds), "name of b");
    assert_eq!(command_name(&s, &[]), "b");
    let idle = rig();
    assert_eq!(command_name(&idle, &cmds), "");
}

#[test]
fn window_height_follows_the_geometry_table() {
    assert_eq!(window_height_px(PaletteState::Idle, 1), 128);
    assert_eq!(window_height_px(PaletteState::Filtering, 10), 560);
    assert_eq!(window_height_px(PaletteState::Filtering, 25), 560, "ten rows at most");
    assert_eq!(window_height_px(PaletteState::Empty, 3), 144);
    assert_eq!(window_height_px(PaletteState::Error, 0), 144);
    assert_eq!(window_height_px(PaletteState::Executing, 2), 208);
    assert_eq!(window_height_px(PaletteState::Hidden, 10), 0);
}

fn rgb(r: u32, g: u32, b: u32) -> u32 {
    (r << 16) | (g << 8) | b
}

#[test]
fn ui_spec_constants_match_contract() {
    assert_eq!(BG, rgb(0x20, 0x20, 0x20));
    assert_eq!(ROW_SELECTED, rgb(0x40, 0x40, 0x40));
    assert_eq!(ROW_HOVERED, rgb(0x2E, 0x2E, 0x2E));
    assert_eq!(ACCENT, rgb(0xFF, 0x60, 0x00));
    assert_eq!(TEXT_DIM, rgb(0xA8, 0xA8, 0xA8));
    assert_eq!(PLACEHOLDER, rgb(0x6E, 0x6E, 0x6E));
    assert_eq!(SP_MD as f32, 12.0);
    assert_eq!(SP_2XL as f32, 48.0);
    assert_eq!(FONT_SIZE_INPUT as f32, 16.0);
    assert_eq!(FONT_SIZE_NAME as f32, 14.0);
    assert_eq!(FONT_SIZE_DESC as f32, 12.0);
    assert_eq!(PANEL_WIDTH as f32, 600.0);
}

#[test]
fn row_geometry_fits_48px() {
    let content_h = SP_SM as f32 + FONT_SIZE_NAME as f32 * 1.3 + SP_XS as f32 + FONT_SIZE_DESC as f32 * 1.3;
    assert!(content_h <= SP_2XL as f32, "row content must fit in {}px, got {content_h}", SP_2XL);
    let desc_bottom = SP_SM as f32 + FONT_SIZE_NAME as f32 * 1.3 + SP_XS as f32 + FONT_SIZE_DESC as f32 * 1.3;
    assert!(desc_bottom <= SP_2XL as f32, "description must end inside the row, got {desc_bottom}");
}

#[test]
fn ctrl_pn_wraps_like_arrows() {
    let mut s = rig();
    s.move_selection(1);
    assert_eq!(s.selection(), Some(0));
    assert_eq!(
        on_palette_key(&mut s, &PaletteKey::Character("p".to_string()), ModifiersState::control()),
        KeyOutcome::Moved
    );
    assert_eq!(s.selection(), Some(2), "Ctrl+P at index 0 wraps around to the last entry");
    assert_eq!(
        on_palette_key(&mut s, &PaletteKey::Character("n".to_string()), ModifiersState::control()),
        KeyOutcome::Moved
    );
    assert_eq!(s.selection(), Some(0), "Ctrl+N at the last index wraps around to index 0");
}

#[test]
fn window_height_full_table() {
    assert_eq!(window_height_px(PaletteState::Idle, 0), 80);
    assert_eq!(window_height_px(PaletteState::Idle, 1), 128);
    assert_eq!(window_height_px(PaletteState::Idle, 2), 176);
    assert_eq!(window_height_px(PaletteState::Idle, 5), 320);
    assert_eq!(window_height_px(PaletteState::Idle, 10), 560);
    assert_eq!(window_height_px(PaletteState::Idle, 15), 560, "cap at 10 rows");
    assert_eq!(window_height_px(PaletteState::Filtering, 3), 224);
    assert_eq!(window_height_px(PaletteState::Empty, 0), 144);
    assert_eq!(window_height_px(PaletteState::Error, 5), 144);
    assert_eq!(window_height_px(PaletteState::Executing, 1), 160);
    assert_eq!(window_height_px(PaletteState::Executing, 10), 592);
    assert_eq!(window_height_px(PaletteState::Executing, 12), 592, "cap at 10 rows");
    assert_eq!(window_height_px(PaletteState::Hidden, 10), 0);
}

type Runner = std::sync::Arc<dyn Fn() -> anyhow::Result<()> + Send + Sync>;

fn counting_command(id: &'static str, count: std::sync::Arc<std::sync::atomic::AtomicUsize>) -> Command<Runner> {
    Command {
        id,
        name: format!("command {id}"),
        description: "test".to_string(),
        keywords: vec![],
        hide_before_execute: false,
        runner: std::sync::Arc::new(move || {
            count.fetch_add(1, std::sync::atomic::Ordering::SeqCst);
            Ok(())
        }),
    }
}

/// Start `cmd` as the palette does and run its runner when the start was
/// accepted; the completion is left to the caller.
fn start_and_run(s: &mut PaletteSession<Runner>, cmd: &Command<Runner>) -> (ExecuteStart, Option<anyhow::Result<()>>) {
    let start = begin_execute(s, cmd.id, cmd.hide_before_execute);
    let result = match start {
        ExecuteStart::Started { .. } => Some((cmd.runner)()),
        ExecuteStart::Rejected => None,
    };
    (start, result)
}

#[test]
fn execute_enters_executing_and_finalizes_ok() {
    let mut s: PaletteSession<Runner> = PaletteSession::new();
    let gen = s.summon(vec![counting_command("a", Arc::new(AtomicUsize::new(0)))]);
    let count = Arc::new(AtomicUsize::new(0));
    let cmd = counting_command("fake.cmd", Arc::clone(&count));
    let (_, result) = start_and_run(&mut s, &cmd);
    assert!(result.expect("runner ran").is_ok());
    assert_eq!(count.load(Ordering::SeqCst), 1, "runner never ran");
    assert_eq!(s.state(), PaletteState::Executing, "Executing while the runner runs");
    s.set_window_id(3);
    let id = s.finalize(gen, Ok(()));
    assert_eq!(id, Some(3), "finalize Ok returns the window to destroy");
    assert_eq!(s.state(), PaletteState::Hidden);
}

#[test]
fn execute_failure_sets_error_state() {
    let mut s: PaletteSession<Runner> = PaletteSession::new();
    let gen = s.summon(vec![counting_command("a", Arc::new(AtomicUsize::new(0)))]);
    let count = Arc::new(AtomicUsize::new(0));
    let c = Arc::clone(&count);
    let cmd: Command<Runner> = Command {
        id: "failing.cmd",
        name: "failing".to_string(),
        description: "test".to_string(),
        keywords: vec![],
        hide_before_execute: false,
        runner: Arc::new(move || {
            c.fetch_add(1, Ordering::SeqCst);
            Err(anyhow::Error::msg("spawn failed: no such binary"))
        }),
    };
    let (_, result) = start_and_run(&mut s, &cmd);
    assert!(result.expect("runner ran").is_err());
    assert_eq!(count.load(Ordering::SeqCst), 1, "runner never ran");
    s.set_window_id(3);
    assert_eq!(s.finalize(gen, Err(anyhow::Error::msg("spawn failed"))), None);
    assert_eq!(s.state(), PaletteState::Error, "failure keeps the panel open");
    assert!(s.error().as_deref().unwrap_or_default().contains("spawn failed"), "error text surfaced in-panel");
    assert_eq!(s.window_id(), Some(3), "window stays for the error display");
}

#[test]
fn execute_ignored_when_not_idle_or_filtering() {
    let mut s: PaletteSession<Runner> = PaletteSession::new();
    let gen = s.summon(vec![counting_command("a", Arc::new(AtomicUsize::new(0)))]);
    s.set_executing(gen, "a");
    let count = Arc::new(AtomicUsize::new(0));
    let (start, result) = start_and_run(&mut s, &counting_command("b", Arc::clone(&count)));
    assert_eq!(start, ExecuteStart::Rejected);
    assert!(result.is_none());
    assert_eq!(count.load(Ordering::SeqCst), 0, "runner must not start while Executing");
}

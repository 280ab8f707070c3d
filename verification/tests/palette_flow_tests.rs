use mybox::command::Command;
use mybox::palette::session::{ModifiersState, PaletteSession, PaletteState};
use mybox::palette::{
    begin_execute, complete_execute, on_palette_key, window_height_px, CompletionAction, ExecuteStart, KeyOutcome,
    PaletteKey,
};

fn cmd(id: &'static str, name: &str, keywords: &[&'static str]) -> Command<&'static str> {
    Command {
        id,
        name: name.to_string(),
        description: format!("{name} description"),
        keywords: keywords.to_vec(),
        hide_before_execute: false,
        runner: id,
    }
}

fn five_plain() -> Vec<Command<&'static str>> {
    vec![
        cmd("c0", "Alpha One", &[]),
        cmd("c1", "Beta Two", &[]),
        cmd("c2", "Gamma Three", &[]),
        cmd("c3", "Delta Four", &[]),
        cmd("c4", "Epsilon Five", &[]),
    ]
}

fn press(s: &mut PaletteSession<&'static str>, key: PaletteKey) -> KeyOutcome {
    on_palette_key(s, &key, ModifiersState::empty())
}

#[test]
fn fuzzy_navigation_executes_the_highlighted_command() {
    let mut s = PaletteSession::new();
    s.summon(vec![
        cmd("c0", "Zero Command", &[]),
        cmd("c1", "Jietu Editor", &[]),
        cmd("capture.start", "Capture Fake", &["jietu"]),
        cmd("c3", "Three Command", &[]),
        cmd("c4", "Four Command", &[]),
    ]);
    assert!(s.on_window_created(21) == false);
    s.set_input("jietu");
    assert_eq!(s.filtered(), vec![1, 2], "name hit first, keyword hit second");
    assert_eq!(s.selection(), Some(0), "input change resets the selection to 0");
    assert_eq!(press(&mut s, PaletteKey::ArrowDown), KeyOutcome::Moved);
    assert_eq!(s.selection(), Some(1));
    let target = match press(&mut s, PaletteKey::Enter) {
        KeyOutcome::Enter(Some(i)) => i,
        other => panic!("Enter must resolve a command, got {other:?}"),
    };
    let chosen = s.commands()[target].clone();
    assert_eq!(chosen.runner, "capture.start", "the highlighted command runs, not another one");
    let generation = match begin_execute(&mut s, chosen.id, chosen.hide_before_execute) {
        ExecuteStart::Started { generation, destroy: None } => generation,
        other => panic!("expected a started execution, got {other:?}"),
    };
    assert_eq!(s.state(), PaletteState::Executing);
    assert_eq!(complete_execute(&mut s, generation, Ok(())), CompletionAction::Destroy(21));
    assert_eq!(s.state(), PaletteState::Hidden, "finalize Ok closes the panel");
}

#[test]
fn escape_summon_rounds_leave_no_residue() {
    let mut s = PaletteSession::new();
    for round in 0..5u64 {
        s.summon(five_plain());
        let id = 100 + round;
        assert!(!s.on_window_created(id));
        assert_eq!(press(&mut s, PaletteKey::Escape), KeyOutcome::Closed(Some(id)));
        assert_eq!(s.state(), PaletteState::Hidden, "round {round}: session must be Hidden");
        assert_eq!(s.generation(), round + 1, "round {round}: generation mismatch");
        assert!(!s.consume_pending_close(), "round {round}: pending_close residue");
    }
    assert!(!s.has_live_window(), "no live window may survive the rounds");
}

#[test]
fn consecutive_summons_keep_the_panel_until_escape() {
    let mut s = PaletteSession::new();
    for round in 0..4u64 {
        s.summon(five_plain());
        let id = 7 + round;
        assert!(!s.on_window_created(id));
        assert_eq!(s.window_id(), Some(id), "round {round}: the created window is recorded");
        assert_eq!(s.state(), PaletteState::Idle, "round {round}: state must be Idle");
        assert_eq!(press(&mut s, PaletteKey::Escape), KeyOutcome::Closed(Some(id)));
        assert!(!s.has_live_window(), "round {round}: no live window may remain");
        assert!(!s.consume_pending_close(), "round {round}: pending_close residue");
    }
    assert_eq!(s.state(), PaletteState::Hidden);
}

#[test]
fn committed_cjk_input_filters_by_name_and_pinyin_keyword() {
    let mut s = PaletteSession::new();
    s.summon(vec![
        cmd("capture.start", "开始截图", &["截图", "capture", "screen", "jietu"]),
        cmd("builtin.quit", "退出应用", &["退出", "quit", "exit", "tuichu"]),
    ]);
    s.set_input("截图");
    assert_eq!(s.input(), "截图");
    assert_eq!(s.state(), PaletteState::Filtering);
    assert_eq!(s.filtered(), vec![0]);
    s.set_input("tuichu");
    assert_eq!(s.filtered(), vec![1], "the pinyin alias finds the quit command");
}

#[test]
fn filtering_changes_only_the_height_and_bumps_the_revision() {
    let mut s = PaletteSession::new();
    s.summon(five_plain());
    let before = s.geometry_revision();
    let tall = window_height_px(s.state(), s.filtered().len().max(1));
    s.set_input("gamma");
    assert_eq!(s.filtered(), vec![2]);
    assert_eq!(s.geometry_revision(), before + 1, "the frame loop sees one geometry change");
    let short = window_height_px(s.state(), s.filtered().len().max(1));
    assert_eq!((tall, short), (320, 128), "five rows shrink to one");
}

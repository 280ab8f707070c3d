use mybox::command::{BuiltinCommands, Command, CommandRegistry};
use mybox::error::MyboxError;

fn sample_command(id: &'static str) -> Command<()> {
    Command {
        id,
        name: format!("command {id}"),
        description: "test command".to_string(),
        keywords: vec![],
        hide_before_execute: false,
        runner: (),
    }
}

#[test]
fn registry_rejects_duplicate_command_id() {
    let mut reg = CommandRegistry::new();
    reg.register(sample_command("capture.start")).expect("first ok");
    let err = reg
        .register(sample_command("capture.start"))
        .expect_err("duplicate id must fail");
    assert!(matches!(err, MyboxError::Command(_)));
    assert!(err.to_string().contains("capture.start"));
    assert_eq!(reg.len(), 1, "registry must be unchanged after rejection");
}

#[test]
fn registry_preserves_registration_order() {
    let mut reg = CommandRegistry::new();
    reg.register(sample_command("first")).unwrap();
    reg.register(sample_command("second")).unwrap();
    reg.register(sample_command("third")).unwrap();
    let all = reg.all();
    let ids: Vec<&'static str> = all.iter().map(|c| c.id).collect();
    assert_eq!(ids, vec!["first", "second", "third"]);
    assert_eq!(reg.len(), 3);
}

#[test]
fn registry_default_is_empty() {
    let reg: CommandRegistry<()> = CommandRegistry::default();
    assert!(reg.is_empty());
    assert_eq!(reg.len(), 0);
}

#[test]
fn duplicate_error_message_names_the_id() {
    let mut reg = CommandRegistry::new();
    reg.register(sample_command("a.b")).unwrap();
    let err = reg.register(sample_command("a.b")).unwrap_err();
    assert_eq!(err.to_string(), "command error: duplicate command id 'a.b'");
    // A different id after a rejection still registers.
    reg.register(sample_command("c.d")).unwrap();
    assert_eq!(reg.len(), 2);
}

#[test]
fn cloned_commands_keep_their_data() {
    let mut c = sample_command("x");
    c.keywords = vec!["k1", "k2"];
    c.hide_before_execute = true;
    let d = c.clone();
    assert_eq!(d.id, "x");
    assert_eq!(d.name, "command x");
    assert_eq!(d.description, "test command");
    assert_eq!(d.keywords, vec!["k1", "k2"]);
    assert!(d.hide_before_execute);
}

fn builtins() -> Vec<Command<u8>> {
    BuiltinCommands::build_with(1, 2, 3, 4)
}

#[test]
fn all_builtins_have_nonempty_name_and_description() {
    let cmds = builtins();
    assert_eq!(cmds.len(), 4);
    let mut ids: Vec<&'static str> = cmds.iter().map(|c| c.id).collect();
    ids.sort_unstable();
    assert_eq!(ids, vec!["builtin.open_config", "builtin.open_log", "builtin.quit", "builtin.restart"]);
    for cmd in &cmds {
        assert!(!cmd.name.is_empty(), "{}: name must be non-empty", cmd.id);
        assert!(!cmd.description.is_empty(), "{}: description must be non-empty", cmd.id);
        assert!(!cmd.hide_before_execute);
    }
}

#[test]
fn builtin_keywords_include_pinyin_aliases() {
    let cmds = builtins();
    let find = |id: &str| cmds.iter().find(|c| c.id == id).expect("builtin exists");
    assert!(find("builtin.quit").keywords.contains(&"tuichu"));
    assert!(find("builtin.open_config").keywords.contains(&"peizhi"));
    assert!(find("builtin.restart").keywords.contains(&"chongqi"));
    assert!(find("builtin.open_log").keywords.contains(&"rizhi"));
}

#[test]
fn builtins_carry_their_runners_in_order() {
    let runners: Vec<u8> = builtins().iter().map(|c| c.runner).collect();
    assert_eq!(runners, vec![1, 2, 3, 4]);
}

#[test]
fn no_config_dir_builtins_bail() {
    let missing: Result<std::path::PathBuf, String> = BuiltinCommands::target(None, "config directory");
    assert_eq!(missing, Err("config directory unavailable".to_string()));
    let missing_log: Result<std::path::PathBuf, String> = BuiltinCommands::target(None, "log path");
    assert_eq!(missing_log, Err("log path unavailable".to_string()));
    let dir = std::path::PathBuf::from("/tmp/mybox");
    assert_eq!(BuiltinCommands::target(Some(dir.clone()), "config directory"), Ok(dir));
}

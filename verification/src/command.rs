//! The command model and the command registry.
//!
//! A [`Command`] is data (id, name, description, keywords, whether the palette
//! must hide before it runs) plus a runner of the embedding application's
//! choice. The [`CommandRegistry`] holds every command in registration order
//! and never holds two commands with the same id.

use vstd::prelude::*;

use crate::error::MyboxError;
use crate::strings::str_eq;

verus! {

/// The plain data of a command, as the contracts speak of it.
pub struct CommandView {
    pub id: Seq<char>,
    pub name: Seq<char>,
    pub description: Seq<char>,
    pub keywords: Seq<Seq<char>>,
    pub hide_before_execute: bool,
}

/// A command the palette can list and execute. `R` is the runner: whatever
/// the application uses to run the command (an async closure in the desktop
/// application).
pub struct Command<R> {
    pub id: &'static str,
    pub name: String,
    pub description: String,
    pub keywords: Vec<&'static str>,
    pub runner: R,
    /// Close the palette window before running (the palette must never
    /// appear in a screenshot).
    pub hide_before_execute: bool,
}

/// The character sequences of a list of string slices.
pub open spec fn str_views(s: Seq<&'static str>) -> Seq<Seq<char>> {
    s.map_values(|k: &'static str| k@)
}

impl<R> View for Command<R> {
    type V = CommandView;

    open spec fn view(&self) -> CommandView {
        CommandView {
            id: self.id@,
            name: self.name@,
            description: self.description@,
            keywords: str_views(self.keywords@),
            hide_before_execute: self.hide_before_execute,
        }
    }
}

/// The views of a list of commands.
pub open spec fn command_views<R>(s: Seq<Command<R>>) -> Seq<CommandView> {
    s.map_values(|c: Command<R>| c@)
}

/// True when no two commands of `s` share an id.
pub open spec fn unique_ids(s: Seq<CommandView>) -> bool {
    forall|i: int, j: int| 0 <= i < s.len() && 0 <= j < s.len() && i != j ==> s[i].id != s[j].id
}

/// True when `id` is the id of some command of `s`.
pub open spec fn has_id(s: Seq<CommandView>, id: Seq<char>) -> bool {
    exists|i: int| 0 <= i < s.len() && s[i].id == id
}

impl<R: Clone> Clone for Command<R> {
    fn clone(&self) -> (r: Self)
        ensures
            r@ == self@,
            cloned(self.runner, r.runner),
    {
        let keywords = self.keywords.clone();
        proof {
            assert(str_views(keywords@) =~= str_views(self.keywords@));
        }
        Command {
            id: self.id,
            name: self.name.clone(),
            description: self.description.clone(),
            keywords,
            runner: self.runner.clone(),
            hide_before_execute: self.hide_before_execute,
        }
    }
}

/// Clone a list of commands, element by element.
pub fn clone_commands<R: Clone>(s: &Vec<Command<R>>) -> (r: Vec<Command<R>>)
    ensures
        command_views(r@) == command_views(s@),
        r@.len() == s@.len(),
        forall|i: int| 0 <= i < s@.len() ==> cloned(#[trigger] s@[i].runner, r@[i].runner),
{
    let mut r: Vec<Command<R>> = Vec::new();
    let mut i: usize = 0;
    while i < s.len()
        invariant
            i <= s@.len(),
            r@.len() == i,
            forall|j: int| 0 <= j < i ==> #[trigger] r@[j]@ == s@[j]@,
            forall|j: int| 0 <= j < i ==> cloned(#[trigger] s@[j].runner, r@[j].runner),
        decreases s@.len() - i,
    {
        let c = s[i].clone();
        r.push(c);
        i = i + 1;
    }
    assert(command_views(r@) =~= command_views(s@));
    r
}

/// Registry of all commands, assembled once at build time.
pub struct CommandRegistry<R> {
    commands: Vec<Command<R>>,
}

impl<R> View for CommandRegistry<R> {
    type V = Seq<CommandView>;

    closed spec fn view(&self) -> Seq<CommandView> {
        command_views(self.commands@)
    }
}

impl<R> CommandRegistry<R> {
    /// The registered commands' runners, in registration order.
    pub closed spec fn runners(&self) -> Seq<R> {
        self.commands@.map_values(|c: Command<R>| c.runner)
    }

    /// The registry's invariant: command ids are unique.
    pub closed spec fn wf(&self) -> bool {
        unique_ids(self@)
    }

    /// Create an empty registry.
    pub fn new() -> (r: Self)
        ensures
            r@ == Seq::<CommandView>::empty(),
            r.runners() == Seq::<R>::empty(),
            r.wf(),
    {
        let r = CommandRegistry { commands: Vec::new() };
        proof {
            assert(r.runners() =~= Seq::<R>::empty());
        }
        r
    }

    /// Register a command. Fails with `MyboxError::Command` (naming the id)
    /// when a command with the same id is already registered; the registry
    /// is then unchanged.
    pub fn register(&mut self, cmd: Command<R>) -> (r: Result<(), MyboxError>)
        requires
            old(self).wf(),
        ensures
            final(self).wf(),
            has_id(old(self)@, cmd@.id) ==> {
                &&& r matches Err(MyboxError::Command(msg))
                &&& msg@ == "duplicate command id '"@ + cmd@.id + "'"@
                &&& final(self)@ == old(self)@
                &&& final(self).runners() == old(self).runners()
            },
            !has_id(old(self)@, cmd@.id) ==> {
                &&& r is Ok
                &&& final(self)@ == old(self)@.push(cmd@)
                &&& final(self).runners() == old(self).runners().push(cmd.runner)
            },
    {
        let mut i: usize = 0;
        while i < self.commands.len()
            invariant
                i <= self.commands@.len(),
                self.commands@ == old(self).commands@,
                old(self).wf(),
                forall|j: int| 0 <= j < i ==> self.commands@[j]@.id != cmd@.id,
            decreases self.commands@.len() - i,
        {
            if str_eq(self.commands[i].id, cmd.id) {
                proof {
                    assert(self@[i as int].id == cmd@.id);
                }
                let msg = String::from_str("duplicate command id '").concat(cmd.id).concat("'");
                return Err(MyboxError::Command(msg));
            }
            i = i + 1;
        }
        let ghost before = self@;
        let ghost before_runners = self.runners();
        let ghost runner = cmd.runner;
        proof {
            assert forall|j: int| 0 <= j < before.len() implies before[j].id != cmd@.id by {
                assert(before[j] == self.commands@[j]@);
            }
        }
        self.commands.push(cmd);
        proof {
            assert(self@ =~= before.push(cmd@));
            assert(self.runners() =~= before_runners.push(runner));
        }
        Ok(())
    }

    /// All commands in registration order (cloned — callers snapshot the list).
    pub fn all(&self) -> (r: Vec<Command<R>>)
        where
            R: Clone,
        ensures
            command_views(r@) == self@,
            r@.len() == self@.len(),
            forall|i: int| 0 <= i < r@.len() ==> cloned(#[trigger] self.runners()[i], r@[i].runner),
    {
        clone_commands(&self.commands)
    }

    /// Number of registered commands.
    pub fn len(&self) -> (r: usize)
        ensures
            r == self@.len(),
    {
        self.commands.len()
    }

    /// True when no commands are registered.
    pub fn is_empty(&self) -> (r: bool)
        ensures
            r == (self@.len() == 0),
    {
        self.commands.len() == 0
    }
}

impl<R> Default for CommandRegistry<R> {
    fn default() -> (r: Self)
        ensures
            r@ == Seq::<CommandView>::empty(),
            r.runners() == Seq::<R>::empty(),
            r.wf(),
    {
        Self::new()
    }
}

/// The view of a builtin command: no hiding, the given data.
pub open spec fn builtin_view(id: Seq<char>, name: Seq<char>, description: Seq<char>, keywords: Seq<Seq<char>>) -> CommandView {
    CommandView { id, name, description, keywords, hide_before_execute: false }
}

/// The framework's builtin commands.
pub struct BuiltinCommands;

impl BuiltinCommands {
    /// The path an open-config or open-log runner opens: the path when the
    /// platform gave one, else the error `<what> unavailable` (nothing is
    /// opened then).
    pub fn target<P>(path: Option<P>, what: &str) -> (r: Result<P, String>)
        ensures
            match path {
                Some(p) => r == Ok::<P, String>(p),
                None => r matches Err(msg) && msg@ == what@ + " unavailable"@,
            },
    {
        match path {
            Some(p) => Ok(p),
            None => Err(String::from_str(what).concat(" unavailable")),
        }
    }

    /// The four framework builtin commands, in order: quit, open the config
    /// directory, restart, open the log file, each with Chinese and English
    /// keywords and a pinyin alias, running the given runners (the caller
    /// builds the runners with the side effects they perform).
    pub fn build_with<R>(quit: R, open_config: R, restart: R, open_log: R) -> (r: Vec<Command<R>>)
        ensures
            r@.len() == 4,
            r@[0]@ == builtin_view("builtin.quit"@, "退出应用"@, "退出 mybox 应用"@, seq!["退出"@, "quit"@, "exit"@, "tuichu"@]),
            r@[1]@ == builtin_view("builtin.open_config"@, "打开配置目录"@, "在文件管理器中打开 mybox 配置目录"@, seq!["配置"@, "config"@, "peizhi"@]),
            r@[2]@ == builtin_view("builtin.restart"@, "重启应用"@, "重启 mybox 应用"@, seq!["重启"@, "restart"@, "chongqi"@]),
            r@[3]@ == builtin_view("builtin.open_log"@, "打开日志文件"@, "打开 mybox 运行日志"@, seq!["日志"@, "log"@, "rizhi"@]),
            r@[0].runner == quit,
            r@[1].runner == open_config,
            r@[2].runner == restart,
            r@[3].runner == open_log,
    {
        let quit_cmd = Command {
            id: "builtin.quit",
            name: String::from_str("退出应用"),
            description: String::from_str("退出 mybox 应用"),
            keywords: vec!["退出", "quit", "exit", "tuichu"],
            runner: quit,
            hide_before_execute: false,
        };
        let config_cmd = Command {
            id: "builtin.open_config",
            name: String::from_str("打开配置目录"),
            description: String::from_str("在文件管理器中打开 mybox 配置目录"),
            keywords: vec!["配置", "config", "peizhi"],
            runner: open_config,
            hide_before_execute: false,
        };
        let restart_cmd = Command {
            id: "builtin.restart",
            name: String::from_str("重启应用"),
            description: String::from_str("重启 mybox 应用"),
            keywords: vec!["重启", "restart", "chongqi"],
            runner: restart,
            hide_before_execute: false,
        };
        let log_cmd = Command {
            id: "builtin.open_log",
            name: String::from_str("打开日志文件"),
            description: String::from_str("打开 mybox 运行日志"),
            keywords: vec!["日志", "log", "rizhi"],
            runner: open_log,
            hide_before_execute: false,
        };
        proof {
            assert(str_views(quit_cmd.keywords@) =~= seq!["退出"@, "quit"@, "exit"@, "tuichu"@]);
            assert(str_views(config_cmd.keywords@) =~= seq!["配置"@, "config"@, "peizhi"@]);
            assert(str_views(restart_cmd.keywords@) =~= seq!["重启"@, "restart"@, "chongqi"@]);
            assert(str_views(log_cmd.keywords@) =~= seq!["日志"@, "log"@, "rizhi"@]);
        }
        vec![quit_cmd, config_cmd, restart_cmd, log_cmd]
    }
}

} // verus!

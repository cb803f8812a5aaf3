//! The command bar's dispatcher: a finite table of built-in commands and
//! aliases, a parser that decides what a line of input asks for, and the
//! suggestion engine behind the command bar's completion list.
//!
//! The dispatcher itself performs no I/O. Commands that only compute (help,
//! version, clear, word count) come back as finished [`CommandResult`]s;
//! commands that must touch the outside world (listing a directory, running
//! a shell line) come back as a [`CommandAction`] for the host to perform,
//! whose outcome the result builders below turn into a [`CommandResult`].

use vstd::prelude::*;
use vstd::string::StrSliceExecFns;
use vstd::string::StringSliceAdditionalSpecFns;
use crate::clock::utc_now_formatted;
use crate::text::{
    append_bytes, bytes_eq, char_count, copy_bytes, count_chars, count_lines, decimal, format_u64,
    line_count, match_at, opt_bytes, split_words, sub_bytes, trim, trimmed, words_of,
};

verus! {

/// The outcome of one executed command.
pub struct CommandResult {
    pub success: bool,
    pub output: Vec<u8>,
    pub error: Option<Vec<u8>>,
    pub command_type: Vec<u8>,
}

/// The mathematical value of a [`CommandResult`].
#[verifier::ext_equal]
pub ghost struct ResultView {
    pub success: bool,
    pub output: Seq<u8>,
    pub error: Option<Seq<u8>>,
    pub command_type: Seq<u8>,
}

impl View for CommandResult {
    type V = ResultView;

    open spec fn view(&self) -> ResultView {
        ResultView {
            success: self.success,
            output: self.output@,
            error: opt_bytes(self.error),
            command_type: self.command_type@,
        }
    }
}

/// One entry of the command bar's completion list.
pub struct CommandSuggestion {
    pub command: Vec<u8>,
    pub description: Vec<u8>,
    pub category: Vec<u8>,
    pub priority: i32,
}

/// The mathematical value of a [`CommandSuggestion`].
#[verifier::ext_equal]
pub ghost struct SuggestionView {
    pub command: Seq<u8>,
    pub description: Seq<u8>,
    pub category: Seq<u8>,
    pub priority: int,
}

impl View for CommandSuggestion {
    type V = SuggestionView;

    open spec fn view(&self) -> SuggestionView {
        SuggestionView {
            command: self.command@,
            description: self.description@,
            category: self.category@,
            priority: self.priority as int,
        }
    }
}

/// The finite kinds of built-in commands.
#[derive(Clone, Copy, PartialEq, Eq, Structural, Debug)]
pub enum BuiltinCommand {
    Ls,
    Pwd,
    Mkdir,
    Clear,
    WordCount,
    Date,
    Whoami,
    Help,
    Version,
}

/// Work the host must perform against the outside world to finish a
/// command.
pub enum CommandAction {
    /// List the entries of a directory (the `ls` command).
    ListDir { path: Vec<u8> },
    /// Report the working directory (the `pwd` command).
    PrintWorkingDir,
    /// Create a directory (the `mkdir` command).
    MakeDir { path: Vec<u8> },
    /// Report the current user (the `whoami` command).
    CurrentUser,
    /// Run a line under the system shell (input prefixed with `!`).
    Shell { command_line: Vec<u8>, working_dir: Option<Vec<u8>> },
}

/// The mathematical value of a [`CommandAction`].
#[verifier::ext_equal]
pub ghost enum ActionView {
    ListDir { path: Seq<u8> },
    PrintWorkingDir,
    MakeDir { path: Seq<u8> },
    CurrentUser,
    Shell { command_line: Seq<u8>, working_dir: Option<Seq<u8>> },
}

impl View for CommandAction {
    type V = ActionView;

    open spec fn view(&self) -> ActionView {
        match self {
            CommandAction::ListDir { path } => ActionView::ListDir { path: path@ },
            CommandAction::PrintWorkingDir => ActionView::PrintWorkingDir,
            CommandAction::MakeDir { path } => ActionView::MakeDir { path: path@ },
            CommandAction::CurrentUser => ActionView::CurrentUser,
            CommandAction::Shell { command_line, working_dir } => ActionView::Shell {
                command_line: command_line@,
                working_dir: opt_bytes(*working_dir),
            },
        }
    }
}

/// What [`CommandProcessor::execute`] decides: a finished result, or outside
/// work for the host.
pub enum Execution {
    Done(CommandResult),
    Io(CommandAction),
}

/// The mathematical value of an [`Execution`].
#[verifier::ext_equal]
pub ghost enum ExecView {
    Done(ResultView),
    Io(ActionView),
}

impl View for Execution {
    type V = ExecView;

    open spec fn view(&self) -> ExecView {
        match self {
            Execution::Done(res) => ExecView::Done(res@),
            Execution::Io(act) => ExecView::Io(act@),
        }
    }
}

/// The first value bound to `key` in an association list.
pub open spec fn lookup<T>(table: Seq<(Seq<u8>, T)>, key: Seq<u8>) -> Option<T>
    decreases table.len(),
{
    if table.len() == 0 {
        None
    } else if table[0].0 == key {
        Some(table[0].1)
    } else {
        lookup(table.drop_first(), key)
    }
}

/// A failed result with no output.
pub open spec fn fail_result(msg: Seq<u8>, command_type: Seq<u8>) -> ResultView {
    ResultView { success: false, output: Seq::<u8>::empty(), error: Some(msg), command_type }
}

/// A successful result with no error.
pub open spec fn ok_result(output: Seq<u8>, command_type: Seq<u8>) -> ResultView {
    ResultView { success: true, output, error: None, command_type }
}

/// The words of the built-in command table, in registration order.
pub open spec fn default_command_table() -> Seq<(Seq<u8>, BuiltinCommand)> {
    seq![
        ("ls".spec_bytes(), BuiltinCommand::Ls),
        ("pwd".spec_bytes(), BuiltinCommand::Pwd),
        ("mkdir".spec_bytes(), BuiltinCommand::Mkdir),
        ("clear".spec_bytes(), BuiltinCommand::Clear),
        ("word-count".spec_bytes(), BuiltinCommand::WordCount),
        ("date".spec_bytes(), BuiltinCommand::Date),
        ("whoami".spec_bytes(), BuiltinCommand::Whoami),
        ("help".spec_bytes(), BuiltinCommand::Help),
        ("version".spec_bytes(), BuiltinCommand::Version),
    ]
}

/// The default alias table, in registration order.
pub open spec fn default_alias_table() -> Seq<(Seq<u8>, Seq<u8>)> {
    seq![
        ("l".spec_bytes(), "ls".spec_bytes()),
        ("dir".spec_bytes(), "ls".spec_bytes()),
        ("md".spec_bytes(), "mkdir".spec_bytes()),
        ("cls".spec_bytes(), "clear".spec_bytes()),
        ("wc".spec_bytes(), "word-count".spec_bytes()),
        ("?".spec_bytes(), "help".spec_bytes()),
        ("h".spec_bytes(), "help".spec_bytes()),
    ]
}

/// The words of `ws` from index `i` on, joined with single spaces.
pub open spec fn join_spaces(ws: Seq<Seq<u8>>, i: int) -> Seq<u8>
    decreases ws.len() - i,
{
    if i < 0 || i >= ws.len() {
        Seq::<u8>::empty()
    } else if i == ws.len() - 1 {
        ws[i]
    } else {
        ws[i] + seq![32u8] + join_spaces(ws, i + 1)
    }
}

/// The `word-count` output for `text`.
pub open spec fn word_count_output(text: Seq<u8>) -> Seq<u8> {
    "Words: ".spec_bytes() + decimal(words_of(text).len() as int) + ", Characters: ".spec_bytes()
        + decimal(char_count(text)) + ", Lines: ".spec_bytes() + decimal(line_count(text))
}

/// The `help` output.
pub open spec fn help_output() -> Seq<u8> {
    "Available Commands:\n\nFile Operations:\n  ls [path]         - List directory contents\n  pwd              - Print working directory\n  mkdir <dir>      - Create directory\n\nText Editing:\n  clear            - Clear the editor\n  word-count <text> - Count words, characters, and lines\n\nSystem:\n  date             - Show current date and time\n  whoami           - Show current user\n\nAI:\n  ai <prompt>      - Send prompt to AI assistant\n  explain <text>   - Get AI explanation of text\n  \nSpecial:\n  help             - Show this help message\n  version          - Show version information\n\nYou can also run shell commands by prefixing with '!'\nExample: !git status\n".spec_bytes()
}

/// The `version` output.
pub open spec fn version_output() -> Seq<u8> {
    "Vuno v0.1.0 - The simple, unitary text editor".spec_bytes()
}

/// What one built-in command decides, given the arguments after the command
/// word. For `date` only the shape is meaningful: its output comes from the
/// clock, and [`CommandProcessor::execute`] promises the shape alone.
pub open spec fn builtin_outcome(
    k: BuiltinCommand,
    args: Seq<Seq<u8>>,
    working_dir: Option<Seq<u8>>,
) -> ExecView {
    match k {
        BuiltinCommand::Ls => ExecView::Io(
            ActionView::ListDir {
                path: if args.len() > 0 {
                    args[0]
                } else {
                    ".".spec_bytes()
                },
            },
        ),
        BuiltinCommand::Pwd => ExecView::Io(ActionView::PrintWorkingDir),
        BuiltinCommand::Mkdir => if args.len() == 0 {
            ExecView::Done(fail_result("Usage: mkdir <directory>".spec_bytes(), "file".spec_bytes()))
        } else {
            ExecView::Io(ActionView::MakeDir { path: args[0] })
        },
        BuiltinCommand::Clear => ExecView::Done(
            ok_result("Screen cleared".spec_bytes(), "editor".spec_bytes()),
        ),
        BuiltinCommand::WordCount => ExecView::Done(
            ok_result(word_count_output(join_spaces(args, 0)), "editor".spec_bytes()),
        ),
        BuiltinCommand::Date => ExecView::Done(
            ok_result(Seq::<u8>::empty(), "system".spec_bytes()),
        ),
        BuiltinCommand::Whoami => ExecView::Io(ActionView::CurrentUser),
        BuiltinCommand::Help => ExecView::Done(ok_result(help_output(), "help".spec_bytes())),
        BuiltinCommand::Version => ExecView::Done(ok_result(version_output(), "info".spec_bytes())),
    }
}

/// The built-in command a line of input resolves to, after trimming,
/// splitting and alias resolution; nothing when the line is empty, a shell
/// line, or unknown.
pub open spec fn resolved_command(
    cmds: Seq<(Seq<u8>, BuiltinCommand)>,
    aliases: Seq<(Seq<u8>, Seq<u8>)>,
    input: Seq<u8>,
) -> Option<BuiltinCommand> {
    let t = trimmed(input);
    if t.len() == 0 || t[0] == 33 {
        None
    } else {
        let parts = words_of(t);
        if parts.len() == 0 {
            None
        } else {
            let cmd = match lookup(aliases, parts[0]) {
                Some(c) => c,
                None => parts[0],
            };
            lookup(cmds, cmd)
        }
    }
}

/// What a line of input asks for: an error for an empty line, the shell for
/// a `!` line, the resolved built-in command, or an unknown-command error.
pub open spec fn execute_outcome(
    cmds: Seq<(Seq<u8>, BuiltinCommand)>,
    aliases: Seq<(Seq<u8>, Seq<u8>)>,
    input: Seq<u8>,
    working_dir: Option<Seq<u8>>,
) -> ExecView {
    let t = trimmed(input);
    if t.len() == 0 {
        ExecView::Done(fail_result("Empty command".spec_bytes(), "error".spec_bytes()))
    } else if t[0] == 33 {
        ExecView::Io(
            ActionView::Shell { command_line: t.subrange(1, t.len() as int), working_dir },
        )
    } else {
        let parts = words_of(t);
        if parts.len() == 0 {
            ExecView::Done(fail_result("Invalid command".spec_bytes(), "error".spec_bytes()))
        } else {
            let cmd = match lookup(aliases, parts[0]) {
                Some(c) => c,
                None => parts[0],
            };
            match lookup(cmds, cmd) {
                Some(k) => builtin_outcome(k, parts.drop_first(), working_dir),
                None => ExecView::Done(
                    fail_result(
                        "Unknown command: ".spec_bytes() + parts[0]
                            + ". Type 'help' for available commands.".spec_bytes(),
                        "error".spec_bytes(),
                    ),
                ),
            }
        }
    }
}

/// The command dispatcher: the built-in command table and the alias table,
/// both held in registration order.
pub struct CommandProcessor {
    pub commands: Vec<(Vec<u8>, BuiltinCommand)>,
    pub aliases: Vec<(Vec<u8>, Vec<u8>)>,
}

impl CommandProcessor {
    /// The command table as an association list of byte strings.
    pub open spec fn command_table(self) -> Seq<(Seq<u8>, BuiltinCommand)> {
        self.commands@.map_values(|p: (Vec<u8>, BuiltinCommand)| (p.0@, p.1))
    }

    /// The alias table as an association list of byte strings.
    pub open spec fn alias_table(self) -> Seq<(Seq<u8>, Seq<u8>)> {
        self.aliases@.map_values(|p: (Vec<u8>, Vec<u8>)| (p.0@, p.1@))
    }

    /// A dispatcher with the default commands and aliases registered.
    pub fn new() -> (r: CommandProcessor)
        ensures
            r.command_table() == default_command_table(),
            r.alias_table() == default_alias_table(),
    {
        let mut r = CommandProcessor { commands: Vec::new(), aliases: Vec::new() };
        r.register_default_commands();
        r
    }

    /// Registers the built-in commands and the default aliases.
    fn register_default_commands(&mut self)
        requires
            old(self).commands@.len() == 0,
            old(self).aliases@.len() == 0,
        ensures
            final(self).command_table() == default_command_table(),
            final(self).alias_table() == default_alias_table(),
    {
        self.register_command("ls".as_bytes_vec(), BuiltinCommand::Ls);
        self.register_command("pwd".as_bytes_vec(), BuiltinCommand::Pwd);
        self.register_command("mkdir".as_bytes_vec(), BuiltinCommand::Mkdir);
        self.register_command("clear".as_bytes_vec(), BuiltinCommand::Clear);
        self.register_command("word-count".as_bytes_vec(), BuiltinCommand::WordCount);
        self.register_command("date".as_bytes_vec(), BuiltinCommand::Date);
        self.register_command("whoami".as_bytes_vec(), BuiltinCommand::Whoami);
        self.register_command("help".as_bytes_vec(), BuiltinCommand::Help);
        self.register_command("version".as_bytes_vec(), BuiltinCommand::Version);
        self.aliases.push(("l".as_bytes_vec(), "ls".as_bytes_vec()));
        self.aliases.push(("dir".as_bytes_vec(), "ls".as_bytes_vec()));
        self.aliases.push(("md".as_bytes_vec(), "mkdir".as_bytes_vec()));
        self.aliases.push(("cls".as_bytes_vec(), "clear".as_bytes_vec()));
        self.aliases.push(("wc".as_bytes_vec(), "word-count".as_bytes_vec()));
        self.aliases.push(("?".as_bytes_vec(), "help".as_bytes_vec()));
        self.aliases.push(("h".as_bytes_vec(), "help".as_bytes_vec()));
        proof {
            assert(self.command_table() =~= default_command_table());
            assert(self.alias_table() =~= default_alias_table());
        }
    }

    /// Appends one command to the table.
    pub fn register_command(&mut self, name: Vec<u8>, command: BuiltinCommand)
        ensures
            final(self).command_table() == old(self).command_table().push((name@, command)),
            final(self).aliases@ == old(self).aliases@,
    {
        self.commands.push((name, command));
        proof {
            assert(self.command_table() =~= old(self).command_table().push((name@, command)));
        }
    }

    /// The alias binding for `name`, if any.
    fn lookup_alias(&self, name: &Vec<u8>) -> (r: Option<Vec<u8>>)
        ensures
            opt_bytes(r) == lookup(self.alias_table(), name@),
    {
        let mut i: usize = 0;
        proof {
            assert(self.alias_table().subrange(0, self.alias_table().len() as int)
                =~= self.alias_table());
        }
        while i < self.aliases.len()
            invariant
                i <= self.aliases@.len(),
                lookup(self.alias_table(), name@) == lookup(
                    self.alias_table().subrange(i as int, self.alias_table().len() as int),
                    name@,
                ),
            decreases self.aliases@.len() - i,
        {
            let ghost rest = self.alias_table().subrange(i as int, self.alias_table().len() as int);
            if bytes_eq(&self.aliases[i].0, name) {
                return Some(copy_bytes(&self.aliases[i].1));
            }
            proof {
                assert(rest.drop_first() =~= self.alias_table().subrange(
                    i + 1,
                    self.alias_table().len() as int,
                ));
            }
            i += 1;
        }
        None
    }

    /// The built-in command registered under `name`, if any.
    fn lookup_command(&self, name: &Vec<u8>) -> (r: Option<BuiltinCommand>)
        ensures
            r == lookup(self.command_table(), name@),
    {
        let mut i: usize = 0;
        proof {
            assert(self.command_table().subrange(0, self.command_table().len() as int)
                =~= self.command_table());
        }
        while i < self.commands.len()
            invariant
                i <= self.commands@.len(),
                lookup(self.command_table(), name@) == lookup(
                    self.command_table().subrange(i as int, self.command_table().len() as int),
                    name@,
                ),
            decreases self.commands@.len() - i,
        {
            let ghost rest = self.command_table().subrange(
                i as int,
                self.command_table().len() as int,
            );
            if bytes_eq(&self.commands[i].0, name) {
                return Some(self.commands[i].1);
            }
            proof {
                assert(rest.drop_first() =~= self.command_table().subrange(
                    i + 1,
                    self.command_table().len() as int,
                ));
            }
            i += 1;
        }
        None
    }

    /// The completion list for `input`: every built-in whose name the
    /// lowered input is a prefix of (exact matches ranked highest), every
    /// alias likewise, and — for free-form input that names no command — the
    /// two AI hand-offs; priorities never increase along the list.
    pub fn get_suggestions(&self, input: &Vec<u8>) -> (r: Vec<CommandSuggestion>)
        ensures
            r@.map_values(|s: CommandSuggestion| s@) == suggestions_for(
                self.command_table(),
                self.alias_table(),
                input@,
            ),
    {
        let il = crate::text::lower_bytes(input);
        let ghost ctab = self.command_table();
        let ghost atab = self.alias_table();
        let mut r: Vec<CommandSuggestion> = Vec::new();
        proof {
            assert(r@.map_values(|s: CommandSuggestion| s@) =~= Seq::<SuggestionView>::empty());
            assert(exact_suggestions(ctab.subrange(0, 0), il@) =~= Seq::<SuggestionView>::empty());
        }
        let mut i: usize = 0;
        while i < self.commands.len()
            invariant
                i <= self.commands@.len(),
                ctab == self.command_table(),
                r@.map_values(|s: CommandSuggestion| s@) == exact_suggestions(
                    ctab.subrange(0, i as int),
                    il@,
                ),
            decreases self.commands@.len() - i,
        {
            let ghost prev = r@;
            if bytes_eq(&self.commands[i].0, &il) {
                let name = copy_bytes(&self.commands[i].0);
                let sugg = CommandSuggestion {
                    command: name,
                    description: description_for(&self.commands[i].0),
                    category: category_for(&self.commands[i].0),
                    priority: 100,
                };
                r.push(sugg);
            }
            proof {
                assert(ctab.subrange(0, i + 1).drop_last() =~= ctab.subrange(0, i as int));
                assert(ctab.subrange(0, i + 1).last() == ctab[i as int]);
                assert(r@.map_values(|s: CommandSuggestion| s@) =~= exact_suggestions(
                    ctab.subrange(0, i + 1),
                    il@,
                ));
            }
            i += 1;
        }
        proof {
            assert(ctab.subrange(0, ctab.len() as int) =~= ctab);
            assert(prefix_suggestions(ctab.subrange(0, 0), il@) =~= Seq::<SuggestionView>::empty());
        }
        let ghost exact_all = r@.map_values(|s: CommandSuggestion| s@);
        let mut i: usize = 0;
        while i < self.commands.len()
            invariant
                i <= self.commands@.len(),
                ctab == self.command_table(),
                exact_all == exact_suggestions(ctab, il@),
                r@.map_values(|s: CommandSuggestion| s@) == exact_all + prefix_suggestions(
                    ctab.subrange(0, i as int),
                    il@,
                ),
            decreases self.commands@.len() - i,
        {
            let ghost prev = r@;
            if crate::text::has_prefix(&self.commands[i].0, &il) && !bytes_eq(
                &self.commands[i].0,
                &il,
            ) {
                let name = copy_bytes(&self.commands[i].0);
                let sugg = CommandSuggestion {
                    command: name,
                    description: description_for(&self.commands[i].0),
                    category: category_for(&self.commands[i].0),
                    priority: 80,
                };
                r.push(sugg);
                proof {
                    assert(r@.map_values(|s: CommandSuggestion| s@) =~= prev.map_values(
                        |s: CommandSuggestion| s@,
                    ).push(sugg@));
                }
            }
            proof {
                let step = ctab.subrange(0, i + 1);
                assert(step.drop_last() =~= ctab.subrange(0, i as int));
                assert(step.last() == ctab[i as int]);
                assert(ctab[i as int].0 == self.commands@[i as int].0@);
                if match_at(ctab[i as int].0, il@, 0) && ctab[i as int].0 != il@ {
                    assert(prefix_suggestions(step, il@) =~= prefix_suggestions(
                        ctab.subrange(0, i as int),
                        il@,
                    ).push(
                        SuggestionView {
                            command: ctab[i as int].0,
                            description: description_of(ctab[i as int].0),
                            category: category_of(ctab[i as int].0),
                            priority: 80,
                        },
                    ));
                } else {
                    assert(prefix_suggestions(step, il@) =~= prefix_suggestions(
                        ctab.subrange(0, i as int),
                        il@,
                    ));
                }
                assert(r@.map_values(|s: CommandSuggestion| s@) =~= exact_all + prefix_suggestions(
                    step,
                    il@,
                ));
            }
            i += 1;
        }
        proof {
            assert(ctab.subrange(0, ctab.len() as int) =~= ctab);
            assert(alias_suggestions(atab.subrange(0, 0), il@) =~= Seq::<SuggestionView>::empty());
        }
        let ghost upto_prefix = r@.map_values(|s: CommandSuggestion| s@);
        let mut i: usize = 0;
        while i < self.aliases.len()
            invariant
                i <= self.aliases@.len(),
                atab == self.alias_table(),
                upto_prefix == exact_suggestions(ctab, il@) + prefix_suggestions(ctab, il@),
                ctab == self.command_table(),
                r@.map_values(|s: CommandSuggestion| s@) == upto_prefix + alias_suggestions(
                    atab.subrange(0, i as int),
                    il@,
                ),
            decreases self.aliases@.len() - i,
        {
            let ghost prev = r@;
            if crate::text::has_prefix(&self.aliases[i].0, &il) {
                let name = copy_bytes(&self.aliases[i].0);
                let sugg = CommandSuggestion {
                    command: name,
                    description: "Alias for command".as_bytes_vec(),
                    category: "Alias".as_bytes_vec(),
                    priority: 60,
                };
                r.push(sugg);
                proof {
                    assert(r@.map_values(|s: CommandSuggestion| s@) =~= prev.map_values(
                        |s: CommandSuggestion| s@,
                    ).push(sugg@));
                }
            }
            proof {
                let step = atab.subrange(0, i + 1);
                assert(step.drop_last() =~= atab.subrange(0, i as int));
                assert(step.last() == atab[i as int]);
                assert(atab[i as int].0 == self.aliases@[i as int].0@);
                if match_at(atab[i as int].0, il@, 0) {
                    assert(alias_suggestions(step, il@) =~= alias_suggestions(
                        atab.subrange(0, i as int),
                        il@,
                    ).push(
                        SuggestionView {
                            command: atab[i as int].0,
                            description: "Alias for command".spec_bytes(),
                            category: "Alias".spec_bytes(),
                            priority: 60,
                        },
                    ));
                } else {
                    assert(alias_suggestions(step, il@) =~= alias_suggestions(
                        atab.subrange(0, i as int),
                        il@,
                    ));
                }
                assert(r@.map_values(|s: CommandSuggestion| s@) =~= upto_prefix + alias_suggestions(
                    step,
                    il@,
                ));
            }
            i += 1;
        }
        proof {
            assert(atab.subrange(0, atab.len() as int) =~= atab);
        }
        let free_form = input.len() > 3 && !(input.len() > 0 && input[0] == 33)
            && self.lookup_command(&il).is_none();
        if free_form {
            let mut ai_cmd = "ai ".as_bytes_vec();
            append_bytes(&mut ai_cmd, input);
            r.push(
                CommandSuggestion {
                    command: ai_cmd,
                    description: "Ask AI assistant".as_bytes_vec(),
                    category: "AI".as_bytes_vec(),
                    priority: 50,
                },
            );
            let mut ex_cmd = "explain ".as_bytes_vec();
            append_bytes(&mut ex_cmd, input);
            r.push(
                CommandSuggestion {
                    command: ex_cmd,
                    description: "Get AI explanation".as_bytes_vec(),
                    category: "AI".as_bytes_vec(),
                    priority: 45,
                },
            );
        }
        proof {
            assert(r@.map_values(|s: CommandSuggestion| s@) =~= suggestions_for(
                ctab,
                atab,
                input@,
            ));
        }
        r
    }

    /// Decides what `input` asks for. Empty input, an unknown command and a
    /// misused built-in come back as failed results; pure commands come back
    /// finished; commands that need the outside world come back as the
    /// action to perform. Only the `date` command consults the clock, so for
    /// it the promise is the shape of the result, not its output.
    pub fn execute(&self, input: &Vec<u8>, working_dir: Option<Vec<u8>>) -> (r: Execution)
        ensures
            resolved_command(self.command_table(), self.alias_table(), input@) != Some(
                BuiltinCommand::Date,
            ) ==> r@ == execute_outcome(
                self.command_table(),
                self.alias_table(),
                input@,
                opt_bytes(working_dir),
            ),
            resolved_command(self.command_table(), self.alias_table(), input@) == Some(
                BuiltinCommand::Date,
            ) ==> (r@ matches ExecView::Done(res) && res.success == true && res.error is None
                && res.command_type == "system".spec_bytes()),
    {
        let t = trim(input);
        if t.len() == 0 {
            return Execution::Done(
                CommandResult {
                    success: false,
                    output: Vec::new(),
                    error: Some("Empty command".as_bytes_vec()),
                    command_type: "error".as_bytes_vec(),
                },
            );
        }
        if t[0] == 33 {
            let command_line = sub_bytes(&t, 1, t.len());
            return Execution::Io(CommandAction::Shell { command_line, working_dir });
        }
        let parts = split_words(&t);
        let ghost parts_view = parts@.map_values(|w: Vec<u8>| w@);
        if parts.len() == 0 {
            return Execution::Done(
                CommandResult {
                    success: false,
                    output: Vec::new(),
                    error: Some("Invalid command".as_bytes_vec()),
                    command_type: "error".as_bytes_vec(),
                },
            );
        }
        let cmd = match self.lookup_alias(&parts[0]) {
            Some(c) => c,
            None => copy_bytes(&parts[0]),
        };
        match self.lookup_command(&cmd) {
            Some(k) => match k {
                BuiltinCommand::Ls => {
                    let path = if parts.len() > 1 {
                        copy_bytes(&parts[1])
                    } else {
                        ".".as_bytes_vec()
                    };
                    proof {
                        if parts_view.len() > 1 {
                            assert(parts_view.drop_first()[0] == parts_view[1]);
                        }
                        assert(parts_view.drop_first().len() == parts_view.len() - 1);
                    }
                    Execution::Io(CommandAction::ListDir { path })
                },
                BuiltinCommand::Pwd => Execution::Io(CommandAction::PrintWorkingDir),
                BuiltinCommand::Mkdir => {
                    if parts.len() > 1 {
                        proof {
                            assert(parts_view.drop_first()[0] == parts_view[1]);
                            assert(parts_view.drop_first().len() == parts_view.len() - 1);
                        }
                        Execution::Io(CommandAction::MakeDir { path: copy_bytes(&parts[1]) })
                    } else {
                        proof {
                            assert(parts_view.drop_first().len() == parts_view.len() - 1);
                        }
                        Execution::Done(
                            CommandResult {
                                success: false,
                                output: Vec::new(),
                                error: Some("Usage: mkdir <directory>".as_bytes_vec()),
                                command_type: "file".as_bytes_vec(),
                            },
                        )
                    }
                },
                BuiltinCommand::Clear => Execution::Done(
                    CommandResult {
                        success: true,
                        output: "Screen cleared".as_bytes_vec(),
                        error: None,
                        command_type: "editor".as_bytes_vec(),
                    },
                ),
                BuiltinCommand::WordCount => {
                    let text = join_words(&parts, 1);
                    proof {
                        assert(join_spaces(parts_view, 1) == join_spaces(
                            parts_view.drop_first(),
                            0,
                        )) by {
                            lemma_join_drop_first(parts_view);
                        }
                    }
                    let words = split_words(&text);
                    let w = format_u64(words.len() as u64);
                    let c = format_u64(count_chars(&text) as u64);
                    let l = format_u64(count_lines(&text) as u64);
                    let mut output = "Words: ".as_bytes_vec();
                    append_bytes(&mut output, &w);
                    append_bytes(&mut output, &", Characters: ".as_bytes_vec());
                    append_bytes(&mut output, &c);
                    append_bytes(&mut output, &", Lines: ".as_bytes_vec());
                    append_bytes(&mut output, &l);
                    proof {
                        assert(output@ =~= word_count_output(text@));
                    }
                    Execution::Done(
                        CommandResult {
                            success: true,
                            output,
                            error: None,
                            command_type: "editor".as_bytes_vec(),
                        },
                    )
                },
                BuiltinCommand::Date => {
                    let output = utc_now_formatted();
                    Execution::Done(
                        CommandResult {
                            success: true,
                            output,
                            error: None,
                            command_type: "system".as_bytes_vec(),
                        },
                    )
                },
                BuiltinCommand::Whoami => Execution::Io(CommandAction::CurrentUser),
                BuiltinCommand::Help => Execution::Done(
                    CommandResult {
                        success: true,
                        output:
                            "Available Commands:\n\nFile Operations:\n  ls [path]         - List directory contents\n  pwd              - Print working directory\n  mkdir <dir>      - Create directory\n\nText Editing:\n  clear            - Clear the editor\n  word-count <text> - Count words, characters, and lines\n\nSystem:\n  date             - Show current date and time\n  whoami           - Show current user\n\nAI:\n  ai <prompt>      - Send prompt to AI assistant\n  explain <text>   - Get AI explanation of text\n  \nSpecial:\n  help             - Show this help message\n  version          - Show version information\n\nYou can also run shell commands by prefixing with '!'\nExample: !git status\n".as_bytes_vec(),
                        error: None,
                        command_type: "help".as_bytes_vec(),
                    },
                ),
                BuiltinCommand::Version => Execution::Done(
                    CommandResult {
                        success: true,
                        output: "Vuno v0.1.0 - The simple, unitary text editor".as_bytes_vec(),
                        error: None,
                        command_type: "info".as_bytes_vec(),
                    },
                ),
            },
            None => {
                let mut msg = "Unknown command: ".as_bytes_vec();
                append_bytes(&mut msg, &parts[0]);
                append_bytes(&mut msg, &". Type 'help' for available commands.".as_bytes_vec());
                Execution::Done(
                    CommandResult {
                        success: false,
                        output: Vec::new(),
                        error: Some(msg),
                        command_type: "error".as_bytes_vec(),
                    },
                )
            },
        }
    }
}

/// The completion-list description of a built-in command name.
pub open spec fn description_of(name: Seq<u8>) -> Seq<u8> {
    if name == "ls".spec_bytes() {
        "List directory contents".spec_bytes()
    } else if name == "pwd".spec_bytes() {
        "Print working directory".spec_bytes()
    } else if name == "mkdir".spec_bytes() {
        "Create directory".spec_bytes()
    } else if name == "clear".spec_bytes() {
        "Clear the editor".spec_bytes()
    } else if name == "word-count".spec_bytes() {
        "Count words, characters, and lines".spec_bytes()
    } else if name == "date".spec_bytes() {
        "Show current date and time".spec_bytes()
    } else if name == "whoami".spec_bytes() {
        "Show current user".spec_bytes()
    } else if name == "help".spec_bytes() {
        "Show help message".spec_bytes()
    } else if name == "version".spec_bytes() {
        "Show version information".spec_bytes()
    } else {
        "Custom command".spec_bytes()
    }
}

/// The completion-list category of a built-in command name.
pub open spec fn category_of(name: Seq<u8>) -> Seq<u8> {
    if name == "ls".spec_bytes() || name == "pwd".spec_bytes() || name == "mkdir".spec_bytes() {
        "File".spec_bytes()
    } else if name == "clear".spec_bytes() || name == "word-count".spec_bytes() {
        "Editor".spec_bytes()
    } else if name == "date".spec_bytes() || name == "whoami".spec_bytes() {
        "System".spec_bytes()
    } else if name == "help".spec_bytes() || name == "version".spec_bytes() {
        "Info".spec_bytes()
    } else {
        "Other".spec_bytes()
    }
}

/// The suggestions for command names equal to the lowered input, in table
/// order, at the highest priority.
pub open spec fn exact_suggestions(cmds: Seq<(Seq<u8>, BuiltinCommand)>, il: Seq<u8>) -> Seq<
    SuggestionView,
>
    decreases cmds.len(),
{
    if cmds.len() == 0 {
        Seq::<SuggestionView>::empty()
    } else {
        exact_suggestions(cmds.drop_last(), il) + if cmds.last().0 == il {
            seq![
                SuggestionView {
                    command: cmds.last().0,
                    description: description_of(cmds.last().0),
                    category: category_of(cmds.last().0),
                    priority: 100,
                },
            ]
        } else {
            Seq::<SuggestionView>::empty()
        }
    }
}

/// The suggestions for command names that merely start with the lowered
/// input, in table order.
pub open spec fn prefix_suggestions(cmds: Seq<(Seq<u8>, BuiltinCommand)>, il: Seq<u8>) -> Seq<
    SuggestionView,
>
    decreases cmds.len(),
{
    if cmds.len() == 0 {
        Seq::<SuggestionView>::empty()
    } else {
        prefix_suggestions(cmds.drop_last(), il) + if match_at(cmds.last().0, il, 0)
            && cmds.last().0 != il {
            seq![
                SuggestionView {
                    command: cmds.last().0,
                    description: description_of(cmds.last().0),
                    category: category_of(cmds.last().0),
                    priority: 80,
                },
            ]
        } else {
            Seq::<SuggestionView>::empty()
        }
    }
}

/// The suggestions for aliases that start with the lowered input, in table
/// order.
pub open spec fn alias_suggestions(aliases: Seq<(Seq<u8>, Seq<u8>)>, il: Seq<u8>) -> Seq<
    SuggestionView,
>
    decreases aliases.len(),
{
    if aliases.len() == 0 {
        Seq::<SuggestionView>::empty()
    } else {
        alias_suggestions(aliases.drop_last(), il) + if match_at(aliases.last().0, il, 0) {
            seq![
                SuggestionView {
                    command: aliases.last().0,
                    description: "Alias for command".spec_bytes(),
                    category: "Alias".spec_bytes(),
                    priority: 60,
                },
            ]
        } else {
            Seq::<SuggestionView>::empty()
        }
    }
}

/// The two AI hand-off suggestions, offered for free-form input that is
/// longer than three bytes, is no shell line and names no known command.
pub open spec fn ai_suggestions(
    cmds: Seq<(Seq<u8>, BuiltinCommand)>,
    input: Seq<u8>,
    il: Seq<u8>,
) -> Seq<SuggestionView> {
    if input.len() > 3 && !(input.len() > 0 && input[0] == 33) && lookup(cmds, il) is None {
        seq![
            SuggestionView {
                command: "ai ".spec_bytes() + input,
                description: "Ask AI assistant".spec_bytes(),
                category: "AI".spec_bytes(),
                priority: 50,
            },
            SuggestionView {
                command: "explain ".spec_bytes() + input,
                description: "Get AI explanation".spec_bytes(),
                category: "AI".spec_bytes(),
                priority: 45,
            },
        ]
    } else {
        Seq::<SuggestionView>::empty()
    }
}

/// The whole completion list for `input`: exact command matches first, then
/// prefix matches, then aliases, then the AI hand-offs — non-increasing in
/// priority by construction.
pub open spec fn suggestions_for(
    cmds: Seq<(Seq<u8>, BuiltinCommand)>,
    aliases: Seq<(Seq<u8>, Seq<u8>)>,
    input: Seq<u8>,
) -> Seq<SuggestionView> {
    let il = crate::text::lower(input);
    exact_suggestions(cmds, il) + prefix_suggestions(cmds, il) + alias_suggestions(aliases, il)
        + ai_suggestions(cmds, input, il)
}

/// Joining from the second word of a list is joining the tail from its
/// start.
proof fn lemma_join_drop_first(ws: Seq<Seq<u8>>)
    requires
        ws.len() >= 1,
    ensures
        join_spaces(ws, 1) == join_spaces(ws.drop_first(), 0),
{
    lemma_join_shift(ws, 1);
}

/// Joining `ws` from index `i >= 1` is joining the tail from `i - 1`.
proof fn lemma_join_shift(ws: Seq<Seq<u8>>, i: int)
    requires
        1 <= i,
        1 <= ws.len(),
    ensures
        join_spaces(ws, i) == join_spaces(ws.drop_first(), i - 1),
    decreases ws.len() - i,
{
    if i >= ws.len() {
    } else if i == ws.len() - 1 {
        assert(ws.drop_first()[i - 1] == ws[i]);
    } else {
        lemma_join_shift(ws, i + 1);
        assert(ws.drop_first()[i - 1] == ws[i]);
    }
}

/// The completion-list description of a built-in command name.
fn description_for(name: &Vec<u8>) -> (r: Vec<u8>)
    ensures
        r@ == description_of(name@),
{
    if bytes_eq(name, &"ls".as_bytes_vec()) {
        "List directory contents".as_bytes_vec()
    } else if bytes_eq(name, &"pwd".as_bytes_vec()) {
        "Print working directory".as_bytes_vec()
    } else if bytes_eq(name, &"mkdir".as_bytes_vec()) {
        "Create directory".as_bytes_vec()
    } else if bytes_eq(name, &"clear".as_bytes_vec()) {
        "Clear the editor".as_bytes_vec()
    } else if bytes_eq(name, &"word-count".as_bytes_vec()) {
        "Count words, characters, and lines".as_bytes_vec()
    } else if bytes_eq(name, &"date".as_bytes_vec()) {
        "Show current date and time".as_bytes_vec()
    } else if bytes_eq(name, &"whoami".as_bytes_vec()) {
        "Show current user".as_bytes_vec()
    } else if bytes_eq(name, &"help".as_bytes_vec()) {
        "Show help message".as_bytes_vec()
    } else if bytes_eq(name, &"version".as_bytes_vec()) {
        "Show version information".as_bytes_vec()
    } else {
        "Custom command".as_bytes_vec()
    }
}

/// The completion-list category of a built-in command name.
fn category_for(name: &Vec<u8>) -> (r: Vec<u8>)
    ensures
        r@ == category_of(name@),
{
    if bytes_eq(name, &"ls".as_bytes_vec()) || bytes_eq(name, &"pwd".as_bytes_vec()) || bytes_eq(
        name,
        &"mkdir".as_bytes_vec(),
    ) {
        "File".as_bytes_vec()
    } else if bytes_eq(name, &"clear".as_bytes_vec()) || bytes_eq(
        name,
        &"word-count".as_bytes_vec(),
    ) {
        "Editor".as_bytes_vec()
    } else if bytes_eq(name, &"date".as_bytes_vec()) || bytes_eq(name, &"whoami".as_bytes_vec()) {
        "System".as_bytes_vec()
    } else if bytes_eq(name, &"help".as_bytes_vec()) || bytes_eq(name, &"version".as_bytes_vec()) {
        "Info".as_bytes_vec()
    } else {
        "Other".as_bytes_vec()
    }
}

/// Each directory entry on a line of its own, in listing order.
pub open spec fn listing_output(names: Seq<Seq<u8>>) -> Seq<u8>
    decreases names.len(),
{
    if names.len() == 0 {
        Seq::<u8>::empty()
    } else {
        listing_output(names.drop_last()) + names.last() + seq![10u8]
    }
}

/// The result of a completed `ls` action: each entry on a line of its own.
pub fn listing_result(names: &Vec<Vec<u8>>) -> (r: CommandResult)
    ensures
        r@ == ok_result(listing_output(names@.map_values(|n: Vec<u8>| n@)), "file".spec_bytes()),
{
    let ghost ns = names@.map_values(|n: Vec<u8>| n@);
    let mut output: Vec<u8> = Vec::new();
    let mut i: usize = 0;
    proof {
        assert(listing_output(ns.subrange(0, 0)) =~= Seq::<u8>::empty());
        assert(output@ =~= listing_output(ns.subrange(0, 0)));
    }
    while i < names.len()
        invariant
            i <= names@.len(),
            ns == names@.map_values(|n: Vec<u8>| n@),
            output@ == listing_output(ns.subrange(0, i as int)),
        decreases names.len() - i,
    {
        append_bytes(&mut output, &names[i]);
        output.push(10);
        proof {
            assert(ns.subrange(0, i + 1).drop_last() =~= ns.subrange(0, i as int));
            assert(ns.subrange(0, i + 1).last() == ns[i as int]);
            assert(output@ =~= listing_output(ns.subrange(0, i + 1)));
        }
        i += 1;
    }
    proof {
        assert(ns.subrange(0, ns.len() as int) =~= ns);
    }
    CommandResult {
        success: true,
        output,
        error: None,
        command_type: "file".as_bytes_vec(),
    }
}

/// The result of a completed `mkdir` action.
pub fn make_dir_result(path: &Vec<u8>) -> (r: CommandResult)
    ensures
        r@ == ok_result(
            "Directory '".spec_bytes() + path@ + "' created".spec_bytes(),
            "file".spec_bytes(),
        ),
{
    let mut output = "Directory '".as_bytes_vec();
    append_bytes(&mut output, path);
    append_bytes(&mut output, &"' created".as_bytes_vec());
    CommandResult {
        success: true,
        output,
        error: None,
        command_type: "file".as_bytes_vec(),
    }
}

/// A successful result carrying `output`, as the `pwd` and `whoami` actions
/// produce one.
pub fn success_result(output: Vec<u8>, command_type: Vec<u8>) -> (r: CommandResult)
    ensures
        r@ == ok_result(output@, command_type@),
{
    CommandResult { success: true, output, error: None, command_type }
}

/// A failed result carrying the cause, as any action that hit an outside
/// error produces one.
pub fn failure_result(msg: Vec<u8>, command_type: Vec<u8>) -> (r: CommandResult)
    ensures
        r@ == fail_result(msg@, command_type@),
{
    CommandResult { success: false, output: Vec::new(), error: Some(msg), command_type }
}

/// The result of a completed shell action: the captured output, the
/// captured error text when there is any, and whether the process
/// succeeded.
pub fn shell_result(exit_ok: bool, stdout: Vec<u8>, stderr: Vec<u8>) -> (r: CommandResult)
    ensures
        r@.command_type == "shell".spec_bytes(),
        r@.success == exit_ok,
        r@.output == stdout@,
        exit_ok && stderr@.len() == 0 ==> r@.error is None,
        exit_ok && stderr@.len() > 0 ==> r@.error == Some(stderr@),
        !exit_ok ==> r@.error == Some(stderr@),
{
    if exit_ok {
        let error = if stderr.len() == 0 {
            None
        } else {
            Some(stderr)
        };
        CommandResult { success: true, output: stdout, error, command_type: "shell".as_bytes_vec() }
    } else {
        CommandResult {
            success: false,
            output: stdout,
            error: Some(stderr),
            command_type: "shell".as_bytes_vec(),
        }
    }
}

/// The words of `parts` from index `from` on, joined with single spaces.
pub fn join_words(parts: &Vec<Vec<u8>>, from: usize) -> (r: Vec<u8>)
    ensures
        r@ == join_spaces(parts@.map_values(|w: Vec<u8>| w@), from as int),
{
    let ghost ws = parts@.map_values(|w: Vec<u8>| w@);
    let mut r: Vec<u8> = Vec::new();
    if from >= parts.len() {
        proof {
            assert(r@ =~= join_spaces(ws, from as int));
        }
        return r;
    }
    let mut i: usize = from;
    while i < parts.len()
        invariant
            from <= i <= parts@.len(),
            ws == parts@.map_values(|w: Vec<u8>| w@),
            join_spaces(ws, from as int) == r@ + join_spaces(ws, i as int),
        decreases parts.len() - i,
    {
        append_bytes(&mut r, &parts[i]);
        if i + 1 < parts.len() {
            r.push(32);
        }
        proof {
            if i + 1 < parts@.len() {
                assert(join_spaces(ws, i as int) == ws[i as int] + seq![32u8] + join_spaces(
                    ws,
                    i + 1,
                ));
            } else {
                assert(join_spaces(ws, i as int) == ws[i as int]);
                assert(join_spaces(ws, i + 1) =~= Seq::<u8>::empty());
            }
            assert(join_spaces(ws, from as int) =~= r@ + join_spaces(ws, i + 1));
        }
        i += 1;
    }
    proof {
        assert(join_spaces(ws, i as int) =~= Seq::<u8>::empty());
        assert(r@ =~= join_spaces(ws, from as int));
    }
    r
}

} // verus!

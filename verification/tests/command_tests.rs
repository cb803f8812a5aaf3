use vuno::command_processor::{
    failure_result, listing_result, make_dir_result, shell_result, success_result, BuiltinCommand,
    CommandAction, CommandProcessor, Execution,
};

fn b(s: &str) -> Vec<u8> {
    s.as_bytes().to_vec()
}

fn done(e: Execution) -> vuno::command_processor::CommandResult {
    match e {
        Execution::Done(r) => r,
        Execution::Io(_) => panic!("expected a finished result"),
    }
}

fn io(e: Execution) -> CommandAction {
    match e {
        Execution::Io(a) => a,
        Execution::Done(_) => panic!("expected an action"),
    }
}

#[test]
fn empty_input_is_an_error() {
    let p = CommandProcessor::new();
    let r = done(p.execute(&b("   "), None));
    assert!(!r.success);
    assert_eq!(r.error, Some(b("Empty command")));
    assert_eq!(r.command_type, b("error"));
}

#[test]
fn unknown_command_names_itself() {
    let p = CommandProcessor::new();
    let r = done(p.execute(&b("frobnicate now"), None));
    assert!(!r.success);
    assert_eq!(
        r.error,
        Some(b("Unknown command: frobnicate. Type 'help' for available commands."))
    );
}

#[test]
fn clear_succeeds_without_io() {
    let p = CommandProcessor::new();
    let r = done(p.execute(&b("  clear  "), None));
    assert!(r.success);
    assert_eq!(r.output, b("Screen cleared"));
    assert_eq!(r.command_type, b("editor"));
}

#[test]
fn version_reports_the_editor() {
    let p = CommandProcessor::new();
    let r = done(p.execute(&b("version"), None));
    assert!(r.success);
    assert_eq!(r.output, b("Vuno v0.1.0 - The simple, unitary text editor"));
    assert_eq!(r.command_type, b("info"));
}

#[test]
fn help_lists_the_commands() {
    let p = CommandProcessor::new();
    let r = done(p.execute(&b("help"), None));
    assert!(r.success);
    assert_eq!(r.command_type, b("help"));
    let text = String::from_utf8(r.output).unwrap();
    assert!(text.starts_with("Available Commands:"));
    assert!(text.contains("word-count <text>"));
    assert!(text.contains("Example: !git status"));
}

#[test]
fn word_count_counts_words_characters_and_lines() {
    let p = CommandProcessor::new();
    let r = done(p.execute(&b("word-count hello wide world"), None));
    assert!(r.success);
    assert_eq!(r.output, b("Words: 3, Characters: 16, Lines: 1"));
}

#[test]
fn aliases_resolve_to_their_commands() {
    let p = CommandProcessor::new();
    let r = done(p.execute(&b("cls"), None));
    assert_eq!(r.output, b("Screen cleared"));
    let r2 = done(p.execute(&b("?"), None));
    assert_eq!(r2.command_type, b("help"));
    let r3 = done(p.execute(&b("wc one two"), None));
    assert_eq!(r3.output, b("Words: 2, Characters: 7, Lines: 1"));
}

#[test]
fn shell_lines_are_handed_to_the_host() {
    let p = CommandProcessor::new();
    match io(p.execute(&b("!git status"), Some(b("/tmp")))) {
        CommandAction::Shell { command_line, working_dir } => {
            assert_eq!(command_line, b("git status"));
            assert_eq!(working_dir, Some(b("/tmp")));
        },
        _ => panic!("expected a shell action"),
    }
}

#[test]
fn ls_defaults_to_the_current_directory() {
    let p = CommandProcessor::new();
    match io(p.execute(&b("ls"), None)) {
        CommandAction::ListDir { path } => assert_eq!(path, b(".")),
        _ => panic!("expected a listing action"),
    }
    match io(p.execute(&b("ls /etc"), None)) {
        CommandAction::ListDir { path } => assert_eq!(path, b("/etc")),
        _ => panic!("expected a listing action"),
    }
}

#[test]
fn mkdir_requires_an_argument() {
    let p = CommandProcessor::new();
    let r = done(p.execute(&b("mkdir"), None));
    assert!(!r.success);
    assert_eq!(r.error, Some(b("Usage: mkdir <directory>")));
    assert_eq!(r.command_type, b("file"));
    match io(p.execute(&b("md build"), None)) {
        CommandAction::MakeDir { path } => assert_eq!(path, b("build")),
        _ => panic!("expected a make-directory action"),
    }
}

#[test]
fn pwd_and_whoami_are_host_actions() {
    let p = CommandProcessor::new();
    assert!(matches!(io(p.execute(&b("pwd"), None)), CommandAction::PrintWorkingDir));
    assert!(matches!(io(p.execute(&b("whoami"), None)), CommandAction::CurrentUser));
}

#[test]
fn date_reports_the_clock() {
    let p = CommandProcessor::new();
    let r = done(p.execute(&b("date"), None));
    assert!(r.success);
    assert_eq!(r.command_type, b("system"));
    let text = String::from_utf8(r.output).unwrap();
    assert!(text.ends_with(" UTC"));
}

#[test]
fn registered_command_is_dispatched() {
    let mut p = CommandProcessor::new();
    p.register_command(b("wipe"), BuiltinCommand::Clear);
    let r = done(p.execute(&b("wipe"), None));
    assert_eq!(r.output, b("Screen cleared"));
}

#[test]
fn suggestions_rank_exact_match_first() {
    let p = CommandProcessor::new();
    let s = p.get_suggestions(&b("help"));
    assert_eq!(s[0].command, b("help"));
    assert_eq!(s[0].priority, 100);
    assert_eq!(s[0].category, b("Info"));
    assert_eq!(s[0].description, b("Show help message"));
    for w in s.windows(2) {
        assert!(w[0].priority >= w[1].priority);
    }
}

#[test]
fn suggestions_include_prefix_matches_and_aliases() {
    let p = CommandProcessor::new();
    let s = p.get_suggestions(&b("l"));
    let commands: Vec<Vec<u8>> = s.iter().map(|x| x.command.clone()).collect();
    assert_eq!(commands, vec![b("ls"), b("l")]);
    assert_eq!(s[0].priority, 80);
    assert_eq!(s[1].priority, 60);
    assert_eq!(s[1].category, b("Alias"));
}

#[test]
fn suggestions_offer_ai_for_free_form_input() {
    let p = CommandProcessor::new();
    let s = p.get_suggestions(&b("what is rust"));
    assert_eq!(s.len(), 2);
    assert_eq!(s[0].command, b("ai what is rust"));
    assert_eq!(s[0].priority, 50);
    assert_eq!(s[1].command, b("explain what is rust"));
    assert_eq!(s[1].priority, 45);
}

#[test]
fn suggestions_skip_ai_for_short_known_or_shell_input() {
    let p = CommandProcessor::new();
    assert!(p.get_suggestions(&b("xy")).is_empty());
    assert!(p.get_suggestions(&b("!rm -rf tmp")).is_empty());
    let known = p.get_suggestions(&b("version"));
    assert_eq!(known.len(), 1);
    assert_eq!(known[0].priority, 100);
}

#[test]
fn suggestion_matching_folds_case() {
    let p = CommandProcessor::new();
    let s = p.get_suggestions(&b("HE"));
    assert_eq!(s.len(), 1);
    assert_eq!(s[0].command, b("help"));
    assert_eq!(s[0].priority, 80);
}

#[test]
fn listing_result_joins_entries_with_newlines() {
    let r = listing_result(&vec![b("a.txt"), b("sub")]);
    assert!(r.success);
    assert_eq!(r.output, b("a.txt\nsub\n"));
    assert_eq!(r.command_type, b("file"));
    assert_eq!(r.error, None);
}

#[test]
fn action_result_builders_carry_their_outcome() {
    let made = make_dir_result(&b("build"));
    assert_eq!(made.output, b("Directory 'build' created"));
    let ok = success_result(b("/home/u"), b("file"));
    assert!(ok.success);
    assert_eq!(ok.output, b("/home/u"));
    let fail = failure_result(b("denied"), b("system"));
    assert!(!fail.success);
    assert_eq!(fail.error, Some(b("denied")));
    let sh = shell_result(true, b("out"), b(""));
    assert!(sh.success && sh.error.is_none());
    let sh2 = shell_result(true, b("out"), b("warning"));
    assert_eq!(sh2.error, Some(b("warning")));
    let sh3 = shell_result(false, b(""), b("boom"));
    assert!(!sh3.success);
    assert_eq!(sh3.error, Some(b("boom")));
    assert_eq!(sh3.command_type, b("shell"));
}

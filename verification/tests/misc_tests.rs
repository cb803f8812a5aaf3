use vuno::api::provider_role;
use vuno::app_state::init_app_state;
use vuno::config::{get_command_suggestions, FirstRunStore};
use vuno::copilot::{frame_message, CopilotConfig};
use vuno::key_manager::{action_for_id, binding_to_hotkey, default_key_bindings};

fn b(s: &str) -> Vec<u8> {
    s.as_bytes().to_vec()
}

#[test]
fn framed_message_carries_its_length() {
    assert_eq!(frame_message(&b("{}")), b("Content-Length: 2\r\n\r\n{}"));
    assert_eq!(frame_message(&b("")), b("Content-Length: 0\r\n\r\n"));
}

#[test]
fn copilot_defaults() {
    let c = CopilotConfig::default();
    assert!(c.enabled && c.telemetry && c.auto_trigger);
    assert_eq!(c.debounce_ms, 150);
}

#[test]
fn default_bindings_cover_the_core_actions() {
    let bs = default_key_bindings();
    assert_eq!(bs.len(), 8);
    assert_eq!(bs[0].id, b("help"));
    assert_eq!(bs[0].keys, vec![b("f1")]);
    assert_eq!(bs[0].action, b("toggle_help"));
    assert_eq!(bs[2].id, b("save_file"));
    assert_eq!(bs[2].keys, vec![b("cmdorctrl"), b("s")]);
    assert_eq!(bs[2].context, b("editor"));
    assert_eq!(bs[7].action, b("open_file"));
}

#[test]
fn chords_translate_to_hotkey_notation() {
    assert_eq!(binding_to_hotkey(&vec![b("cmdorctrl"), b("s")], false), Some(b("Control+S")));
    assert_eq!(binding_to_hotkey(&vec![b("cmdorctrl"), b("s")], true), Some(b("Command+S")));
    assert_eq!(binding_to_hotkey(&vec![b("Shift"), b("f1")], false), Some(b("Shift+F1")));
    assert_eq!(binding_to_hotkey(&vec![b("alt"), b("ctrl"), b("x")], false), Some(b("Alt+Control+X")));
    assert_eq!(binding_to_hotkey(&vec![b("meta"), b("x")], false), Some(b("X")));
    assert_eq!(binding_to_hotkey(&vec![b("escape")], false), None);
    assert_eq!(binding_to_hotkey(&vec![b("ESCAPE")], false), None);
    assert_eq!(binding_to_hotkey(&vec![], false), None);
}

#[test]
fn binding_identifiers_map_to_actions() {
    assert_eq!(action_for_id(&b("help")), Some(b("toggle_help")));
    assert_eq!(action_for_id(&b("save_file_ctrl")), Some(b("save_file")));
    assert_eq!(action_for_id(&b("command_bar")), Some(b("toggle_command_bar")));
    assert_eq!(action_for_id(&b("nonsense")), None);
}

#[test]
fn chat_roles_map_to_the_provider() {
    assert_eq!(provider_role(&b("user")), Some(b("user")));
    assert_eq!(provider_role(&b("assistant")), Some(b("model")));
    assert_eq!(provider_role(&b("system")), None);
}

#[test]
fn app_state_carries_the_version() {
    assert_eq!(init_app_state().version, "0.1.0");
}

#[test]
fn first_run_marker_lives_in_the_config_dir() {
    let store = FirstRunStore::from_config_dir(&b("/home/u/.config/vuno"));
    assert_eq!(store.has_run_path, b("/home/u/.config/vuno/has_run_before.txt"));
}

#[test]
fn command_bar_draws_twelve_suggestions_from_the_pool() {
    let r = get_command_suggestions(&b(""), &b(""), &b(""), &b(""));
    assert_eq!(r.len(), 12);
    let pool: Vec<Vec<u8>> = [
        "new markdown", "new javascript", "new python", "new html", "new rust", "new c",
        "new cpp", "new typescript", "open file", "save", "save as", "minimize", "fullscreen",
        "help", "git status", "ls", "pwd", "npm run dev", "npm start", "copilot start",
        "copilot sign in", "copilot sign out", "copilot status", "copilot stop",
        "explain this code", "optimize this code", "generate documentation", "help me debug",
    ]
    .iter()
    .map(|s| b(s))
    .collect();
    for item in &r {
        assert!(pool.contains(item));
    }
}

#[test]
fn command_bar_suggestions_follow_mode_language_and_file() {
    let r = get_command_suggestions(&b("code"), &b("rust"), &b(""), &b("main.rs"));
    assert_eq!(r.len(), 12);
    let mut pool: Vec<Vec<u8>> = [
        "new markdown", "new javascript", "new python", "new html", "new rust", "new c",
        "new cpp", "new typescript", "open file", "save", "save as", "minimize", "fullscreen",
        "help", "git status", "ls", "pwd", "npm run dev", "npm start", "cargo run",
        "cargo build", "cargo test", "rustfmt", "copilot start", "copilot sign in",
        "copilot sign out", "copilot status", "copilot stop", "explain this code",
        "optimize this code", "generate documentation", "help me debug",
    ]
    .iter()
    .map(|s| b(s))
    .collect();
    pool.push(b("rename main.rs to newname"));
    pool.push(b("delete main.rs"));
    for item in &r {
        assert!(pool.contains(item));
    }
}

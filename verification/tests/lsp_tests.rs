use vuno::lsp::{
    formatter_command, get_completions, get_diagnostics, lsp_server_command, Position,
};

fn b(s: &str) -> Vec<u8> {
    s.as_bytes().to_vec()
}

#[test]
fn rust_diagnostics_flag_dangling_function_headers() {
    let content = b("fn incomplete()\nfn fine() {\nlet x = 1;\n");
    let ds = get_diagnostics(&content, &b("rust"));
    assert_eq!(ds.len(), 1);
    assert_eq!(ds[0].line, 0);
    assert_eq!(ds[0].column, 0);
    assert_eq!(ds[0].message, "Function declaration may be incomplete");
    assert_eq!(ds[0].severity, "warning");
}

#[test]
fn javascript_diagnostics_flag_console_log() {
    let content = b("  console.log('x')\nlet a = 1\n");
    let ds = get_diagnostics(&content, &b("javascript"));
    assert_eq!(ds.len(), 1);
    assert_eq!(ds[0].line, 0);
    assert_eq!(ds[0].severity, "info");
    let ts = get_diagnostics(&content, &b("typescript"));
    assert_eq!(ts.len(), 1);
}

#[test]
fn python_diagnostics_flag_leading_print() {
    let content = b("print('x')\n  print(2)\nx = print\n");
    let ds = get_diagnostics(&content, &b("python"));
    assert_eq!(ds.len(), 2);
    assert_eq!(ds[0].line, 0);
    assert_eq!(ds[1].line, 1);
    assert_eq!(ds[0].message, "Consider using logging instead of print");
}

#[test]
fn unknown_language_has_no_diagnostics() {
    assert!(get_diagnostics(&b("anything"), &b("cobol")).is_empty());
}

#[test]
fn rust_completions_after_std_path() {
    let content = b("use std::");
    let pos = Position { line: 0, character: 9 };
    let items = get_completions(&content, &pos, &b("rust"));
    assert_eq!(items.len(), 3);
    assert_eq!(items[0].label, "std::collections");
    assert_eq!(items[1].label, "std::fs");
    assert_eq!(items[2].label, "std::io");
    assert_eq!(items[0].kind, "module");
}

#[test]
fn rust_keywords_at_token_start() {
    let content = b("    ");
    let pos = Position { line: 0, character: 2 };
    let items = get_completions(&content, &pos, &b("rust"));
    let labels: Vec<&str> = items.iter().map(|i| i.label.as_str()).collect();
    assert_eq!(labels, vec!["fn", "let", "pub"]);
}

#[test]
fn rust_mid_token_offers_nothing() {
    let content = b("let");
    let pos = Position { line: 0, character: 3 };
    assert!(get_completions(&content, &pos, &b("rust")).is_empty());
}

#[test]
fn javascript_always_offers_keywords() {
    let content = b("x");
    let pos = Position { line: 0, character: 1 };
    let items = get_completions(&content, &pos, &b("javascript"));
    let labels: Vec<&str> = items.iter().map(|i| i.label.as_str()).collect();
    assert_eq!(labels, vec!["function", "const", "let"]);
    let with_console = get_completions(&b("console."), &Position { line: 0, character: 8 }, &b(
        "javascript"
    ));
    assert_eq!(with_console.len(), 6);
    assert_eq!(with_console[0].label, "console.log");
}

#[test]
fn python_import_completions() {
    let items = get_completions(&b("import "), &Position { line: 0, character: 7 }, &b("python"));
    assert_eq!(items.len(), 6);
    assert_eq!(items[0].label, "import os");
    assert_eq!(items[3].label, "def");
}

#[test]
fn completions_respect_the_cursor_line() {
    let content = b("line one\nuse std::\n");
    let beyond = Position { line: 5, character: 0 };
    assert!(get_completions(&content, &beyond, &b("rust")).is_empty());
    let second = Position { line: 1, character: 9 };
    assert_eq!(get_completions(&content, &second, &b("rust")).len(), 3);
    let column_past_end = Position { line: 1, character: 99 };
    assert_eq!(get_completions(&content, &column_past_end, &b("rust")).len(), 3);
}

#[test]
fn server_and_formatter_tables() {
    assert_eq!(lsp_server_command(&b("rust")), Some(b("rust-analyzer")));
    assert_eq!(lsp_server_command(&b("typescript")), Some(b("typescript-language-server")));
    assert_eq!(lsp_server_command(&b("python")), Some(b("pylsp")));
    assert_eq!(lsp_server_command(&b("go")), Some(b("gopls")));
    assert_eq!(lsp_server_command(&b("c")), Some(b("clangd")));
    assert_eq!(lsp_server_command(&b("lisp")), None);
    assert_eq!(formatter_command(&b("rust")), Some(b("rustfmt")));
    assert_eq!(formatter_command(&b("python")), Some(b("black")));
    assert_eq!(formatter_command(&b("javascript")), None);
}

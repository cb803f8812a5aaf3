use vuno::language::detect_language;

fn b(s: &str) -> Vec<u8> {
    s.as_bytes().to_vec()
}

fn detect(path: Option<&str>, content: &str) -> Option<Vec<u8>> {
    detect_language(&path.map(b), &b(content))
}

#[test]
fn extension_maps_to_language() {
    assert_eq!(detect(Some("src/main.rs"), ""), Some(b("rust")));
    assert_eq!(detect(Some("app.js"), ""), Some(b("javascript")));
    assert_eq!(detect(Some("app.ts"), ""), Some(b("typescript")));
    assert_eq!(detect(Some("tool.py"), ""), Some(b("python")));
    assert_eq!(detect(Some("a/b/page.html"), ""), Some(b("html")));
    assert_eq!(detect(Some("style.css"), ""), Some(b("css")));
    assert_eq!(detect(Some("conf.yml"), ""), Some(b("yaml")));
    assert_eq!(detect(Some("conf.yaml"), ""), Some(b("yaml")));
    assert_eq!(detect(Some("lib.cc"), ""), Some(b("cpp")));
    assert_eq!(detect(Some("lib.hpp"), ""), Some(b("c")));
    assert_eq!(detect(Some("run.bash"), ""), Some(b("bash")));
    assert_eq!(detect(Some("README.md"), ""), Some(b("markdown")));
}

#[test]
fn extension_matching_ignores_case() {
    assert_eq!(detect(Some("MAIN.RS"), ""), Some(b("rust")));
    assert_eq!(detect(Some("Script.Py"), ""), Some(b("python")));
}

#[test]
fn unknown_extension_yields_no_language_even_for_telling_content() {
    assert_eq!(detect(Some("archive.gz"), "fn main() { println!(\"hi\"); }"), None);
}

#[test]
fn last_extension_wins() {
    assert_eq!(detect(Some("archive.tar.md"), ""), Some(b("markdown")));
}

#[test]
fn hidden_file_has_no_extension() {
    assert_eq!(detect(Some(".bashrc"), "#!/bin/bash\necho hi\n"), Some(b("bash")));
    assert_eq!(detect(Some("home/.profile"), ""), None);
}

#[test]
fn dot_in_directory_is_not_an_extension() {
    assert_eq!(detect(Some("some.dir/file"), ""), None);
}

#[test]
fn shebangs_decide_without_a_path() {
    assert_eq!(detect(None, "#!/bin/bash\necho"), Some(b("bash")));
    assert_eq!(detect(None, "#!/usr/bin/env bash\necho"), Some(b("bash")));
    assert_eq!(detect(None, "#!/usr/bin/env python3\nprint(1)"), Some(b("python")));
    assert_eq!(detect(None, "#!/usr/bin/python\nprint(1)"), Some(b("python")));
}

#[test]
fn content_cues_decide_without_a_path() {
    assert_eq!(detect(None, "fn main() {\n    println!(\"x\");\n}"), Some(b("rust")));
    assert_eq!(detect(None, "function f() { console.log(1); }"), Some(b("javascript")));
    assert_eq!(detect(None, "fn main() {}"), None);
    assert_eq!(detect(None, "plain prose"), None);
}

#[test]
fn rust_cue_beats_javascript_cue() {
    let both = "fn main() { println!(); }\nfunction f() { console.log(1); }";
    assert_eq!(detect(None, both), Some(b("rust")));
}

#[test]
fn created_buffer_carries_inferred_language() {
    let mut m = vuno::buffer::BufferManager::new();
    let id = m.create_buffer(b("print(1)\n"), Some(b("t.py")));
    assert_eq!(m.get_buffer(id).unwrap().language, Some(b("python")));
    let id2 = m.create_buffer(b("no clues"), None);
    assert_eq!(m.get_buffer(id2).unwrap().language, None);
}

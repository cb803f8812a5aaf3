use vuno::buffer::BufferManager;

fn b(s: &str) -> Vec<u8> {
    s.as_bytes().to_vec()
}

#[test]
fn search_finds_overlapping_matches() {
    let mut m = BufferManager::new();
    let id = m.create_buffer(b("aaaa"), None);
    let ms = m.search_in_buffer(id, &b("aa"), true).unwrap();
    assert_eq!(ms, vec![(0, 2), (1, 3), (2, 4)]);
}

#[test]
fn search_is_case_sensitive_when_asked() {
    let mut m = BufferManager::new();
    let id = m.create_buffer(b("Hello hello HELLO"), None);
    let sensitive = m.search_in_buffer(id, &b("hello"), true).unwrap();
    assert_eq!(sensitive, vec![(6, 11)]);
    let folded = m.search_in_buffer(id, &b("hello"), false).unwrap();
    assert_eq!(folded, vec![(0, 5), (6, 11), (12, 17)]);
}

#[test]
fn search_without_match_is_empty() {
    let mut m = BufferManager::new();
    let id = m.create_buffer(b("abc"), None);
    assert!(m.search_in_buffer(id, &b("zz"), true).unwrap().is_empty());
}

#[test]
fn search_empty_query_matches_every_offset() {
    let mut m = BufferManager::new();
    let id = m.create_buffer(b("ab"), None);
    let ms = m.search_in_buffer(id, &b(""), true).unwrap();
    assert_eq!(ms, vec![(0, 0), (1, 1), (2, 2)]);
}

#[test]
fn search_does_not_mark_modified() {
    let mut m = BufferManager::new();
    let id = m.create_buffer(b("abc"), None);
    m.search_in_buffer(id, &b("b"), true).unwrap();
    assert!(!m.get_buffer(id).unwrap().modified);
}

#[test]
fn replace_counts_non_overlapping_matches() {
    let mut m = BufferManager::new();
    let id = m.create_buffer(b("aaaa"), None);
    let n = m.replace_in_buffer(id, &b("aa"), &b("b"), true).unwrap();
    assert_eq!(n, 2);
    assert_eq!(m.get_content(id).unwrap(), b("bb"));
}

#[test]
fn case_insensitive_replace_keeps_unmatched_casing() {
    let mut m = BufferManager::new();
    let id = m.create_buffer(b("fooFOOfoo"), None);
    let n = m.replace_in_buffer(id, &b("Foo"), &b("X"), false).unwrap();
    assert_eq!(n, 3);
    assert_eq!(m.get_content(id).unwrap(), b("XXX"));
}

#[test]
fn case_insensitive_replace_leaves_surroundings_alone() {
    let mut m = BufferManager::new();
    let id = m.create_buffer(b("AbC-abc-ABC!"), None);
    let n = m.replace_in_buffer(id, &b("abc"), &b("xy"), false).unwrap();
    assert_eq!(n, 3);
    assert_eq!(m.get_content(id).unwrap(), b("xy-xy-xy!"));
}

#[test]
fn replace_with_longer_text_grows_content() {
    let mut m = BufferManager::new();
    let id = m.create_buffer(b("a.b.c"), None);
    let n = m.replace_in_buffer(id, &b("."), &b("--"), true).unwrap();
    assert_eq!(n, 2);
    assert_eq!(m.get_content(id).unwrap(), b("a--b--c"));
}

#[test]
fn replace_marks_modified_even_without_matches() {
    let mut m = BufferManager::new();
    let id = m.create_buffer(b("abc"), None);
    assert!(!m.get_buffer(id).unwrap().modified);
    let n = m.replace_in_buffer(id, &b("zz"), &b("y"), true).unwrap();
    assert_eq!(n, 0);
    assert_eq!(m.get_content(id).unwrap(), b("abc"));
    assert!(m.get_buffer(id).unwrap().modified);
}

#[test]
fn replace_empty_query_replaces_nothing() {
    let mut m = BufferManager::new();
    let id = m.create_buffer(b("ab"), None);
    let n = m.replace_in_buffer(id, &b(""), &b("x"), true).unwrap();
    assert_eq!(n, 0);
    assert_eq!(m.get_content(id).unwrap(), b("ab"));
}

#[test]
fn replace_does_not_touch_history() {
    let mut m = BufferManager::new();
    let id = m.create_buffer(b("aa"), None);
    m.replace_in_buffer(id, &b("a"), &b("b"), true).unwrap();
    assert!(m.get_edit_history(id).is_empty());
}

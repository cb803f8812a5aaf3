use vuno::buffer::{BufferError, BufferManager};

fn b(s: &str) -> Vec<u8> {
    s.as_bytes().to_vec()
}

#[test]
fn create_buffer_starts_clean() {
    let mut m = BufferManager::new();
    let id = m.create_buffer(b("hello"), None);
    assert_eq!(id, 1);
    let buf = m.get_buffer(id).unwrap();
    assert_eq!(buf.content, b("hello"));
    assert_eq!(buf.path, None);
    assert!(!buf.modified);
    assert_eq!(buf.cursor_position, 0);
    assert_eq!(buf.scroll_position, 0);
    assert!(buf.created_at <= buf.modified_at);
}

#[test]
fn identity_monotonic_across_close() {
    let mut m = BufferManager::new();
    let a = m.create_buffer(b("one"), None);
    let bb = m.create_buffer(b("two"), None);
    assert!(bb > a);
    m.close_buffer(a).unwrap();
    let c = m.create_buffer(b("three"), None);
    assert!(c > bb);
    assert_eq!((a, bb, c), (1, 2, 3));
}

#[test]
fn apply_edit_replaces_byte_range() {
    let mut m = BufferManager::new();
    let id = m.create_buffer(b("hello world"), None);
    m.apply_edit(id, 0, 5, &b("goodbye")).unwrap();
    assert_eq!(m.get_content(id).unwrap(), b("goodbye world"));
    let buf = m.get_buffer(id).unwrap();
    assert!(buf.modified);
}

#[test]
fn apply_edit_insert_and_delete() {
    let mut m = BufferManager::new();
    let id = m.create_buffer(b("abcd"), None);
    m.apply_edit(id, 2, 2, &b("XY")).unwrap();
    assert_eq!(m.get_content(id).unwrap(), b("abXYcd"));
    m.apply_edit(id, 0, 2, &b("")).unwrap();
    assert_eq!(m.get_content(id).unwrap(), b("XYcd"));
}

#[test]
fn apply_edit_rejects_out_of_range_offsets() {
    let mut m = BufferManager::new();
    let id = m.create_buffer(b("abc"), None);
    assert_eq!(m.apply_edit(id, 4, 4, &b("x")), Err(BufferError::InvalidRange));
    assert_eq!(m.apply_edit(id, 0, 4, &b("x")), Err(BufferError::InvalidRange));
    assert_eq!(m.apply_edit(id, 3, 3, &b("!")), Ok(()));
    assert_eq!(m.get_content(id).unwrap(), b("abc!"));
    assert_eq!(m.apply_edit(99, 0, 0, &b("x")), Err(BufferError::NotFound));
}

#[test]
fn apply_edit_with_start_after_end_keeps_overlap() {
    let mut m = BufferManager::new();
    let id = m.create_buffer(b("abcd"), None);
    m.apply_edit(id, 3, 1, &b("X")).unwrap();
    assert_eq!(m.get_content(id).unwrap(), b("abcXbcd"));
}

#[test]
fn history_records_edits_in_order() {
    let mut m = BufferManager::new();
    let id = m.create_buffer(b(""), None);
    m.apply_edit(id, 0, 0, &b("a")).unwrap();
    m.apply_edit(id, 1, 1, &b("b")).unwrap();
    let h = m.get_edit_history(id);
    assert_eq!(h.len(), 2);
    assert_eq!(h[0].text, b("a"));
    assert_eq!((h[0].start, h[0].end), (0, 0));
    assert_eq!(h[1].text, b("b"));
    assert_eq!((h[1].start, h[1].end), (1, 1));
}

#[test]
fn history_keeps_only_most_recent_hundred() {
    let mut m = BufferManager::new();
    let id = m.create_buffer(b(""), None);
    for i in 0..105u8 {
        m.apply_edit(id, 0, 0, &vec![i]).unwrap();
    }
    let h = m.get_edit_history(id);
    assert_eq!(h.len(), 100);
    assert_eq!(h[0].text, vec![5u8]);
    assert_eq!(h[99].text, vec![104u8]);
}

#[test]
fn history_of_unknown_buffer_is_empty() {
    let m = BufferManager::new();
    assert!(m.get_edit_history(7).is_empty());
}

#[test]
fn update_buffer_content_marks_modified() {
    let mut m = BufferManager::new();
    let id = m.create_buffer(b("old"), None);
    m.update_buffer_content(id, b("new")).unwrap();
    let buf = m.get_buffer(id).unwrap();
    assert_eq!(buf.content, b("new"));
    assert!(buf.modified);
    assert!(m.get_edit_history(id).is_empty());
    assert_eq!(m.update_buffer_content(9, b("x")), Err(BufferError::NotFound));
}

#[test]
fn update_buffer_leaves_flags_alone() {
    let mut m = BufferManager::new();
    let id = m.create_buffer(b("old"), None);
    m.update_buffer(id, b("new")).unwrap();
    let buf = m.get_buffer(id).unwrap();
    assert_eq!(buf.content, b("new"));
    assert!(!buf.modified);
}

#[test]
fn cursor_and_scroll_accept_any_value() {
    let mut m = BufferManager::new();
    let id = m.create_buffer(b("ab"), None);
    m.update_cursor_position(id, 999).unwrap();
    m.update_scroll_position(id, 123).unwrap();
    let buf = m.get_buffer(id).unwrap();
    assert_eq!(buf.cursor_position, 999);
    assert_eq!(buf.scroll_position, 123);
    assert_eq!(m.update_cursor_position(9, 0), Err(BufferError::NotFound));
    assert_eq!(m.update_scroll_position(9, 0), Err(BufferError::NotFound));
}

#[test]
fn mark_as_saved_is_idempotent() {
    let mut m = BufferManager::new();
    let id = m.create_buffer(b("x"), None);
    m.apply_edit(id, 0, 1, &b("y")).unwrap();
    assert!(m.get_buffer(id).unwrap().modified);
    m.mark_as_saved(id).unwrap();
    assert!(!m.get_buffer(id).unwrap().modified);
    m.mark_as_saved(id).unwrap();
    assert!(!m.get_buffer(id).unwrap().modified);
}

#[test]
fn closed_buffer_rejects_every_operation() {
    let mut m = BufferManager::new();
    let id = m.create_buffer(b("x"), None);
    m.close_buffer(id).unwrap();
    assert_eq!(m.close_buffer(id), Err(BufferError::NotFound));
    assert_eq!(m.get_content(id), Err(BufferError::NotFound));
    assert!(m.get_buffer(id).is_none());
    assert!(m.get_buffer_info(id).is_none());
    assert_eq!(m.apply_edit(id, 0, 0, &b("y")), Err(BufferError::NotFound));
    assert_eq!(m.update_buffer_content(id, b("y")), Err(BufferError::NotFound));
    assert_eq!(m.update_cursor_position(id, 0), Err(BufferError::NotFound));
    assert_eq!(m.mark_as_saved(id), Err(BufferError::NotFound));
    assert_eq!(m.search_in_buffer(id, &b("y"), true), Err(BufferError::NotFound));
    assert_eq!(m.replace_in_buffer(id, &b("y"), &b("z"), true), Err(BufferError::NotFound));
    assert!(m.get_edit_history(id).is_empty());
}

#[test]
fn buffer_info_is_computed_from_content() {
    let mut m = BufferManager::new();
    let id = m.create_buffer(b("a\nbb\nccc"), Some(b("notes.md")));
    let info = m.get_buffer_info(id).unwrap();
    assert_eq!(info.id, id);
    assert_eq!(info.size, 8);
    assert_eq!(info.lines, 3);
    assert_eq!(info.path, Some(b("notes.md")));
    assert_eq!(info.language, Some(b("markdown")));
}

#[test]
fn line_counting_rules() {
    let mut m = BufferManager::new();
    let empty = m.create_buffer(b(""), None);
    assert_eq!(m.get_buffer_info(empty).unwrap().lines, 0);
    let no_terminator = m.create_buffer(b("one line"), None);
    assert_eq!(m.get_buffer_info(no_terminator).unwrap().lines, 1);
    let terminated = m.create_buffer(b("a\nb\n"), None);
    assert_eq!(m.get_buffer_info(terminated).unwrap().lines, 2);
    let blank = m.create_buffer(b("\n"), None);
    assert_eq!(m.get_buffer_info(blank).unwrap().lines, 1);
}

#[test]
fn list_buffers_in_ascending_identity_order() {
    let mut m = BufferManager::new();
    let a = m.create_buffer(b("a"), None);
    let bb = m.create_buffer(b("b"), None);
    let c = m.create_buffer(b("c"), None);
    m.close_buffer(bb).unwrap();
    let infos = m.list_buffers();
    assert_eq!(infos.len(), 2);
    assert_eq!(infos[0].id, a);
    assert_eq!(infos[1].id, c);
}

#[test]
fn resolve_save_path_prefers_explicit_path() {
    let mut m = BufferManager::new();
    let with_path = m.create_buffer(b("x"), Some(b("a.txt")));
    let without = m.create_buffer(b("y"), None);
    assert_eq!(m.resolve_save_path(with_path, Some(b("b.txt"))), Ok(b("b.txt")));
    assert_eq!(m.resolve_save_path(with_path, None), Ok(b("a.txt")));
    assert_eq!(m.resolve_save_path(without, None), Err(BufferError::MissingPath));
    assert_eq!(m.resolve_save_path(99, None), Err(BufferError::NotFound));
}

#[test]
fn save_then_open_restores_content_and_clears_modified() {
    let mut m = BufferManager::new();
    let id = m.create_buffer(b("draft"), Some(b("d.txt")));
    m.apply_edit(id, 5, 5, &b(" two")).unwrap();
    assert!(m.get_buffer(id).unwrap().modified);
    let target = m.resolve_save_path(id, None).unwrap();
    let written = m.get_content(id).unwrap();
    m.mark_as_saved(id).unwrap();
    assert!(!m.get_buffer(id).unwrap().modified);
    let reopened = m.create_buffer(written.clone(), Some(target));
    let buf = m.get_buffer(reopened).unwrap();
    assert_eq!(buf.content, written);
    assert_eq!(buf.content, b("draft two"));
    assert!(!buf.modified);
}

#[test]
fn timestamps_never_run_backwards() {
    let mut m = BufferManager::new();
    let id = m.create_buffer(b("x"), None);
    let before = m.get_buffer(id).unwrap();
    m.apply_edit(id, 0, 0, &b("y")).unwrap();
    let after = m.get_buffer(id).unwrap();
    assert_eq!(after.created_at, before.created_at);
    assert!(after.modified_at >= before.modified_at);
    assert!(after.modified_at >= after.created_at);
}

use wrotepad::document::{compose_title, Document, SaveAction};
use wrotepad::error::IoError;

fn failure(message: &str) -> IoError {
    IoError::new(message.to_string())
}

fn loaded(path: &str, data: &str) -> Document {
    let mut doc = Document::new();
    assert_eq!(doc.load(path.to_string(), Ok(data.to_string())), Ok(()));
    doc
}

#[test]
fn new_is_empty_and_clean() {
    let doc = Document::new();
    assert_eq!(doc.content(), "");
    assert_eq!(doc.saved_snapshot(), "");
    assert_eq!(doc.file_path(), None);
    assert!(!doc.is_dirty());
    assert_eq!(doc.title(), "Untitled");
}

#[test]
fn new_document_clears_everything() {
    for text in ["", "x", "two\nlines", "snapshot"] {
        let mut doc = loaded("/tmp/notes.txt", "snapshot");
        doc.set_content(text.to_string());
        doc.new_document();
        assert_eq!(doc.content(), "");
        assert_eq!(doc.saved_snapshot(), "");
        assert_eq!(doc.file_path(), None);
        assert!(!doc.is_dirty());
        assert_eq!(doc.title(), "Untitled");
    }
}

#[test]
fn edit_makes_dirty_unless_equal_to_snapshot() {
    let mut doc = loaded("/tmp/notes.txt", "abc");
    assert!(!doc.is_dirty());
    for text in ["", "ab", "abcd", "ABC", "abc "] {
        doc.set_content(text.to_string());
        assert!(doc.is_dirty());
        assert_eq!(doc.saved_snapshot(), "abc");
        assert_eq!(doc.file_path(), Some("/tmp/notes.txt"));
    }
    doc.set_content("abc".to_string());
    assert!(!doc.is_dirty());
}

#[test]
fn edit_in_place_makes_dirty() {
    let mut doc = Document::new();
    doc.content_mut().push_str("typed");
    assert_eq!(doc.content(), "typed");
    assert_eq!(doc.saved_snapshot(), "");
    assert!(doc.is_dirty());
    doc.content_mut().clear();
    assert!(!doc.is_dirty());
}

#[test]
fn load_sets_content_snapshot_and_path() {
    let mut doc = Document::new();
    doc.set_content("scratch".to_string());
    let result = doc.load("/home/me/a.txt".to_string(), Ok("hello\r\nworld\n".to_string()));
    assert_eq!(result, Ok(()));
    assert_eq!(doc.content(), "hello\r\nworld\n");
    assert_eq!(doc.saved_snapshot(), "hello\r\nworld\n");
    assert_eq!(doc.file_path(), Some("/home/me/a.txt"));
    assert!(!doc.is_dirty());
}

#[test]
fn failed_load_changes_nothing() {
    let mut doc = loaded("/tmp/a.txt", "kept");
    doc.set_content("kept and edited".to_string());
    let result = doc.load("/tmp/missing.txt".to_string(), Err(failure("No such file")));
    assert_eq!(result, Err(failure("No such file")));
    assert_eq!(doc.content(), "kept and edited");
    assert_eq!(doc.saved_snapshot(), "kept");
    assert_eq!(doc.file_path(), Some("/tmp/a.txt"));
    assert!(doc.is_dirty());
}

#[test]
fn save_updates_snapshot_only() {
    let mut doc = loaded("/tmp/a.txt", "old");
    doc.set_content("new".to_string());
    assert_eq!(doc.save_action(), SaveAction::Write("/tmp/a.txt".to_string()));
    assert_eq!(doc.save(Ok(())), Ok(()));
    assert_eq!(doc.content(), "new");
    assert_eq!(doc.saved_snapshot(), "new");
    assert_eq!(doc.file_path(), Some("/tmp/a.txt"));
    assert!(!doc.is_dirty());
}

#[test]
fn failed_save_changes_nothing() {
    let mut doc = loaded("/tmp/a.txt", "old");
    doc.set_content("new".to_string());
    assert_eq!(doc.save(Err(failure("Permission denied"))), Err(failure("Permission denied")));
    assert_eq!(doc.content(), "new");
    assert_eq!(doc.saved_snapshot(), "old");
    assert_eq!(doc.file_path(), Some("/tmp/a.txt"));
    assert!(doc.is_dirty());
}

#[test]
fn save_without_path_asks_for_one() {
    let mut doc = Document::new();
    doc.set_content("draft".to_string());
    assert_eq!(doc.save_action(), SaveAction::ChoosePath);
    assert_eq!(doc.save(Ok(())), Ok(()));
    assert_eq!(doc.content(), "draft");
    assert_eq!(doc.saved_snapshot(), "");
    assert_eq!(doc.file_path(), None);
    assert!(doc.is_dirty());
    assert_eq!(doc.save_as("/tmp/draft.txt".to_string(), Ok(())), Ok(()));
    assert_eq!(doc.save_action(), SaveAction::Write("/tmp/draft.txt".to_string()));
    assert!(!doc.is_dirty());
}

#[test]
fn save_as_sets_path_and_snapshot() {
    let mut doc = loaded("/tmp/a.txt", "old");
    doc.set_content("new".to_string());
    assert_eq!(doc.save_as("/tmp/b.txt".to_string(), Ok(())), Ok(()));
    assert_eq!(doc.content(), "new");
    assert_eq!(doc.saved_snapshot(), "new");
    assert_eq!(doc.file_path(), Some("/tmp/b.txt"));
    assert!(!doc.is_dirty());
}

#[test]
fn failed_save_as_keeps_path_and_snapshot() {
    let mut doc = loaded("/tmp/a.txt", "old");
    doc.set_content("new".to_string());
    let result = doc.save_as("/readonly/b.txt".to_string(), Err(failure("Read-only file system")));
    assert_eq!(result, Err(failure("Read-only file system")));
    assert_eq!(doc.content(), "new");
    assert_eq!(doc.saved_snapshot(), "old");
    assert_eq!(doc.file_path(), Some("/tmp/a.txt"));
    assert!(doc.is_dirty());
    assert_eq!(doc.save_action(), SaveAction::Write("/tmp/a.txt".to_string()));

    let mut fresh = Document::new();
    fresh.set_content("draft".to_string());
    assert_eq!(
        fresh.save_as("/readonly/b.txt".to_string(), Err(failure("Read-only file system"))),
        Err(failure("Read-only file system"))
    );
    assert_eq!(fresh.file_path(), None);
    assert_eq!(fresh.saved_snapshot(), "");
}

#[test]
fn save_as_then_load_round_trip() {
    let mut doc = Document::new();
    doc.set_content("line one\nline two\n".to_string());
    let written = doc.content().to_string();
    assert_eq!(doc.save_as("/tmp/round.txt".to_string(), Ok(())), Ok(()));
    doc.set_content("edited afterwards".to_string());
    assert_eq!(doc.load("/tmp/round.txt".to_string(), Ok(written.clone())), Ok(()));
    assert_eq!(doc.content(), written);
    assert_eq!(doc.content(), "line one\nline two\n");
    assert!(!doc.is_dirty());
    assert_eq!(doc.file_path(), Some("/tmp/round.txt"));
}

#[test]
fn document_stays_usable_after_failure() {
    let mut doc = Document::new();
    assert!(doc.load("/nowhere".to_string(), Err(failure("gone"))).is_err());
    doc.set_content("still here".to_string());
    assert!(doc.save_as("/nowhere".to_string(), Err(failure("gone"))).is_err());
    assert_eq!(doc.save_as("/tmp/ok.txt".to_string(), Ok(())), Ok(()));
    assert_eq!(doc.content(), "still here");
    assert!(!doc.is_dirty());
}

#[test]
fn title_is_final_component_of_path() {
    let doc = loaded("/home/me/notes.txt", "text");
    assert_eq!(doc.title(), "notes.txt");
    let relative = loaded("notes.txt", "text");
    assert_eq!(relative.title(), "notes.txt");
    let nested = loaded("a/b/c.md", "text");
    assert_eq!(nested.title(), "c.md");
}

#[test]
fn title_carries_marker_while_dirty() {
    let mut doc = loaded("/home/me/notes.txt", "text");
    doc.set_content("text!".to_string());
    assert_eq!(doc.title(), "notes.txt*");
    assert_eq!(doc.save(Ok(())), Ok(()));
    assert_eq!(doc.title(), "notes.txt");

    let mut fresh = Document::new();
    fresh.set_content("x".to_string());
    assert_eq!(fresh.title(), "Untitled*");
}

#[test]
fn title_without_final_component_is_placeholder() {
    let parent = loaded("..", "text");
    assert_eq!(parent.title(), "Untitled");
    let root = loaded("/", "text");
    assert_eq!(root.title(), "Untitled");
    let mut above = loaded("dir/..", "text");
    above.set_content("changed".to_string());
    assert_eq!(above.title(), "Untitled*");
}

#[test]
fn compose_title_cases() {
    assert_eq!(compose_title(None, false), "Untitled");
    assert_eq!(compose_title(None, true), "Untitled*");
    assert_eq!(compose_title(Some("a.txt"), false), "a.txt");
    assert_eq!(compose_title(Some("a.txt"), true), "a.txt*");
    assert_eq!(compose_title(Some(""), true), "*");
}

#[test]
fn io_error_carries_its_message() {
    let error = IoError::new("Permission denied (os error 13)".to_string());
    assert_eq!(error.message(), "Permission denied (os error 13)");
    assert_eq!(error.clone(), error);
    assert_ne!(error, IoError::new("other".to_string()));
}

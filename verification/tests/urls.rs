use moaremotes::editor::Moaremotes;
use moaremotes::url::extract_url;

fn editor(lines: &[&str]) -> Moaremotes {
    let mut editor = Moaremotes::new(80, 24);
    editor.lines = lines.iter().map(|line| line.to_string()).collect();
    editor.check_duplicates();
    editor
}

fn rows(set: &std::collections::HashSet<usize>) -> Vec<usize> {
    let mut rows: Vec<usize> = set.iter().cloned().collect();
    rows.sort();
    rows
}

#[test]
fn addresses_are_found_in_list_entries() {
    let e = Moaremotes::new(80, 24);
    let found = |line: &str| e.extract_url_from_line(line);
    assert_eq!(
        found("  [\"http://a/b.png\", \"x\"],"),
        Some("http://a/b.png".to_string())
    );
    assert_eq!(found("[\"https://é\"]"), Some("https://é".to_string()));
    assert_eq!(found("[x \"http\" y]"), Some("http".to_string()));
    assert_eq!(found("\u{a0}[\"http\"]\t"), Some("http".to_string()));
    assert_eq!(found("[\"a\", \"http://b\"]"), None);
    assert_eq!(found("[\"htt\"]"), None);
    assert_eq!(found("[\"\"]"), None);
    assert_eq!(found("[\"http://a]"), None);
    assert_eq!(found("[http://a]"), None);
    assert_eq!(found("\"http://a\"]"), None);
    assert_eq!(found("[\"http://a\""), None);
    assert_eq!(found("[\"http://a\"];"), None);
    assert_eq!(found("[\"http://a\"] ,"), None);
    assert_eq!(found("]"), None);
    assert_eq!(found("["), None);
    assert_eq!(found(""), None);
    assert_eq!(extract_url("[\"http\"],"), Some("http".to_string()));
}

#[test]
fn an_address_starts_with_http_and_has_no_quote() {
    let url = extract_url("[\"http://a\"b\"]").unwrap();
    assert!(url.starts_with("http"));
    assert!(!url.contains('"'));
}

#[test]
fn every_row_of_a_repeated_address_is_marked() {
    let e = editor(&[
        "[",
        "[\"http://a\"],",
        "[\"http://b\"],",
        "  [\"http://a\", 1],",
        "[\"x\"],",
        "[\"x\"],",
        "[\"http://a\"]",
        "]",
    ]);
    assert_eq!(rows(&e.duplicates), [1, 3, 6]);
}

#[test]
fn no_repeats_mark_nothing() {
    let e = editor(&["[\"http://a\"]", "[\"http://b\"]", "", ""]);
    assert!(e.duplicates.is_empty());
}

#[test]
fn marked_rows_come_in_groups() {
    let e = editor(&["[\"http://a\"]", "[\"http://b\"]", "[\"http://b\"]"]);
    assert_eq!(rows(&e.duplicates), [1, 2]);
}

#[test]
fn removing_duplicates_keeps_the_first_of_each() {
    let mut e = editor(&[
        "[",
        "[\"http://a\"],",
        "[\"http://b\"],",
        "[\"http://a\", 1],",
        "x",
        "[\"http://a\"]",
        "]",
    ]);
    e.cursor_row = 4;
    e.cursor_col = 1;
    e.remove_duplicates();
    assert_eq!(
        e.lines,
        ["[", "[\"http://a\"],", "[\"http://b\"],", "x", "]"]
    );
    assert_eq!(e.cursor_row, 3);
    assert_eq!(e.cursor_col, 1);
    assert!(e.modified);
    assert!(e.duplicates.is_empty());
    assert_eq!(e.status_message, "removed 2 duplicate(s)");
    assert!(e.undo_stack.is_empty());

    let lines = e.lines.clone();
    e.remove_duplicates();
    assert_eq!(e.lines, lines);
    assert_eq!(e.cursor_row, 3);
    assert_eq!(e.status_message, "removed 0 duplicate(s)");
}

#[test]
fn a_cursor_on_a_removed_row_moves_up() {
    let mut e = editor(&["[\"http://a\"]", "[\"http://a\"]", "x"]);
    e.cursor_row = 1;
    e.remove_duplicates();
    assert_eq!(e.cursor_row, 0);
    assert_eq!(e.lines, ["[\"http://a\"]", "x"]);
}

#[test]
fn removing_missing_rows_keeps_the_others() {
    let mut e = editor(&["a", "b", "c", "d"]);
    e.cursor_row = 2;
    for row in [0, 1, 9] {
        e.missing_emotes.insert(row);
    }
    e.remove_missing_emotes();
    assert_eq!(e.lines, ["c", "d"]);
    assert_eq!(e.cursor_row, 0);
    assert!(e.modified);
    assert!(e.missing_emotes.is_empty());
    assert_eq!(e.status_message, "removed 3 404 emote(s)");
}

#[test]
fn removing_no_missing_rows_does_nothing() {
    let mut e = editor(&["a", "b"]);
    e.status_message = "before".to_string();
    e.remove_missing_emotes();
    assert_eq!(e.lines, ["a", "b"]);
    assert!(!e.modified);
    assert_eq!(e.status_message, "before");
}

#[test]
fn removing_every_row_leaves_the_cursor_at_the_top() {
    let mut e = editor(&["a", "b", "c"]);
    e.cursor_row = 2;
    for row in 0..3 {
        e.missing_emotes.insert(row);
    }
    e.remove_missing_emotes();
    assert!(e.lines.is_empty());
    assert_eq!(e.cursor_row, 0);
}

#[test]
fn removing_missing_rows_finds_duplicates_anew() {
    let mut e = editor(&["[\"http://a\"]", "[\"http://a\"]"]);
    assert_eq!(rows(&e.duplicates), [0, 1]);
    e.missing_emotes.insert(1);
    e.remove_missing_emotes();
    assert!(e.duplicates.is_empty());
}

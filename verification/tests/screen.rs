use std::collections::hash_map::DefaultHasher;
use std::hash::{Hash, Hasher};

use moaremotes::editor::Moaremotes;

fn editor(lines: &[&str], width: u16, height: u16) -> Moaremotes {
    let mut editor = Moaremotes::new(width, height);
    editor.lines = lines.iter().map(|line| line.to_string()).collect();
    editor.check_duplicates();
    editor
}

fn expected_hash(e: &Moaremotes) -> u64 {
    let mut hasher = DefaultHasher::new();
    e.cursor_row.hash(&mut hasher);
    e.cursor_col.hash(&mut hasher);
    e.scroll_offset.hash(&mut hasher);
    e.duplicates.len().hash(&mut hasher);
    e.missing_emotes.len().hash(&mut hasher);
    e.status_message.hash(&mut hasher);
    e.modified.hash(&mut hasher);
    e.checking_urls.hash(&mut hasher);
    e.check_progress.hash(&mut hasher);
    let visible_height = e.terminal_height.saturating_sub(3);
    for i in e.scroll_offset..std::cmp::min(e.scroll_offset + visible_height, e.lines.len()) {
        e.lines[i].hash(&mut hasher);
        e.duplicates.contains(&i).hash(&mut hasher);
        e.missing_emotes.contains(&i).hash(&mut hasher);
    }
    hasher.finish()
}

#[test]
fn the_fingerprint_covers_what_is_shown() {
    let mut e = editor(&["[\"http://a\"]", "é", "[\"http://a\"]", "x"], 80, 6);
    e.check_progress = (3, 300);
    e.missing_emotes.insert(1);
    if usize::BITS == 64 && 1u16.to_ne_bytes()[0] == 1 {
        assert_eq!(e.hash_screen_state(), expected_hash(&e));
    }
    let hash = e.hash_screen_state();
    assert_eq!(e.hash_screen_state(), hash);
    e.lines[3] = "y".to_string();
    assert_eq!(e.hash_screen_state(), hash);
    e.lines[2] = "y".to_string();
    assert_ne!(e.hash_screen_state(), hash);
    e.lines[2] = "[\"http://a\"]".to_string();
    assert_eq!(e.hash_screen_state(), hash);
    e.modified = true;
    assert_ne!(e.hash_screen_state(), hash);
    e.modified = false;
    e.scroll_offset = 9;
    if usize::BITS == 64 && 1u16.to_ne_bytes()[0] == 1 {
        assert_eq!(e.hash_screen_state(), expected_hash(&e));
    }
}

#[test]
fn the_view_follows_the_cursor() {
    let mut e = editor(&["x"; 40], 80, 13);
    e.adjust_scroll();
    assert_eq!(e.scroll_offset, 0);
    e.cursor_row = 9;
    e.adjust_scroll();
    assert_eq!(e.scroll_offset, 0);
    e.cursor_row = 10;
    e.adjust_scroll();
    assert_eq!(e.scroll_offset, 1);
    e.cursor_row = 30;
    e.adjust_scroll();
    assert_eq!(e.scroll_offset, 21);
    e.adjust_scroll();
    assert_eq!(e.scroll_offset, 21);
    e.cursor_row = 5;
    e.adjust_scroll();
    assert_eq!(e.scroll_offset, 5);
    e.terminal_height = 2;
    e.adjust_scroll();
    assert_eq!(e.scroll_offset, 6);
}

#[test]
fn the_screen_shows_text_status_and_cursor() {
    let mut e = editor(&["[\"http://a\"]", "plain", "[\"http://a\"]"], 60, 8);
    e.status_message = "hello".to_string();
    e.missing_emotes.insert(1);
    e.cursor_row = 1;
    e.cursor_col = 2;
    e.modified = true;
    assert!(e.is_displayable());
    let bar = " emotes.json*  row: 2 col: 3  dup: 2 404: 1  F1: help | F2: save | F10: quit  ";
    let expected = [
        "\x1b[2J\x1b[H",
        "\x1b[90m   1 \x1b[0m\x1b[41m\x1b[37m[\"http://a\"]\x1b[0m ← DUPLICATE\r\n",
        "\x1b[90m   2 \x1b[0m\x1b[45m\x1b[37mplain\x1b[0m ← MISSING/404\r\n",
        "\x1b[90m   3 \x1b[0m\x1b[41m\x1b[37m[\"http://a\"]\x1b[0m ← DUPLICATE\r\n",
        "\x1b[34m~\x1b[0m\r\n",
        "\x1b[34m~\x1b[0m",
        "\x1b[7;1H\x1b[100m\x1b[37m",
        &bar[..60],
        "\x1b[0m\x1b[8;1H\x1b[2Khello",
        "\x1b[2;8H",
    ]
    .concat();
    assert_eq!(e.force_refresh_screen(), expected);
}

#[test]
fn a_check_shows_in_the_status_bar() {
    let mut e = editor(&["0123456789"], 90, 4);
    e.filename = "x".to_string();
    e.checking_urls = true;
    e.check_progress = (5, 7);
    e.missing_emotes.insert(4);
    e.status_message = String::new();
    let bar = " x  row: 1 col: 1  checking... 5/7 (1 missing)  ";
    let expected = format!(
        "\x1b[2J\x1b[H\x1b[90m   1 \x1b[0m0123456789\x1b[3;1H\x1b[100m\x1b[37m{:90}\x1b[0m\x1b[4;1H\x1b[2K\x1b[1;6H",
        bar
    );
    assert_eq!(e.force_refresh_screen(), expected);
}

#[test]
fn long_lines_and_messages_are_cut() {
    let mut e = editor(&["0123456789"], 30, 4);
    e.status_message = "m".repeat(40);
    let output = e.force_refresh_screen();
    assert!(output.contains("\x1b[90m   1 \x1b[0m01234\x1b[3;1H"));
    assert!(output.ends_with(&format!("\x1b[4;1H\x1b[2K{}\x1b[1;6H", "m".repeat(30))));
}

#[test]
fn a_cut_inside_a_character_is_told() {
    let mut e = editor(&["ééé"], 28, 4);
    assert!(!e.is_displayable());
    e.terminal_width = 29;
    assert!(e.is_displayable());
    e.terminal_height = 0;
    assert!(!e.is_displayable());
    e.terminal_height = 4;
    e.status_message = format!("{}é", "x".repeat(28));
    assert!(!e.is_displayable());
    e.status_message = String::new();
    e.filename = format!("{}é", "x".repeat(27));
    assert!(!e.is_displayable());
    e.filename = "x".to_string();
    assert!(e.is_displayable());
    e.cursor_row = usize::MAX;
    assert!(!e.is_displayable());
}

#[test]
fn lines_out_of_view_do_not_matter() {
    let mut e = editor(&["é", "a", "b"], 26, 4);
    assert!(!e.is_displayable());
    e.cursor_row = 2;
    assert!(e.is_displayable());
    e.force_refresh_screen();
    assert_eq!(e.scroll_offset, 2);
}

#[test]
fn a_screen_is_written_once() {
    let mut e = editor(&["a"], 80, 5);
    assert!(e.can_refresh());
    let frame = e.refresh_screen().unwrap();
    assert_eq!(frame.hash, e.hash_screen_state());
    assert!(e.refresh_screen().is_some());
    e.screen_written(frame.hash);
    assert!(e.refresh_screen().is_none());
    e.insert_char('b');
    assert!(e.refresh_screen().is_some());
    e.screen_written(e.hash_screen_state());
    assert!(e.refresh_screen().is_none());
    e.checking_urls = true;
    e.screen_written(e.hash_screen_state());
    assert!(e.refresh_screen().is_some());
}

#[test]
fn a_screen_that_is_up_to_date_need_not_be_displayable() {
    let mut e = editor(&["ééé"], 28, 4);
    assert!(!e.can_refresh());
    e.screen_written(e.hash_screen_state());
    assert!(e.can_refresh());
    assert!(e.refresh_screen().is_none());
}

#[test]
fn help_is_shown() {
    let mut e = editor(&["a"], 80, 5);
    e.show_help();
    assert_eq!(
        e.status_message,
        "F2: save | F10: quit | F3: remove dupes | F4: check 404 | F5: remove missing | F6: load"
    );
}

#[test]
fn plain_text_can_be_shown_at_any_size() {
    let mut e = editor(&["[\"http://a\"]", "", "some longer line of plain text"], 80, 24);
    for checking in [false, true] {
        e.checking_urls = checking;
        for width in 0..60 {
            for height in 1..9 {
                e.terminal_width = width;
                e.terminal_height = height;
                assert!(e.is_displayable());
                e.force_refresh_screen();
            }
        }
    }
}

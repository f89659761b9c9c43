use moaremotes::editor::Moaremotes;
use moaremotes::keys::{Action, Key};
use moaremotes::model::KeyCode;

fn editor(lines: &[&str], row: usize, col: usize) -> Moaremotes {
    let mut editor = Moaremotes::new(80, 24);
    editor.lines = lines.iter().map(|line| line.to_string()).collect();
    editor.cursor_row = row;
    editor.cursor_col = col;
    editor.check_duplicates();
    editor
}

fn at(editor: &Moaremotes) -> (usize, usize) {
    (editor.cursor_row, editor.cursor_col)
}

fn key(code: KeyCode) -> Key {
    Key {
        code,
        control: false,
        alt: false,
        pressed: true,
    }
}

fn control(c: char) -> Key {
    Key {
        control: true,
        ..key(KeyCode::Char(c))
    }
}

#[test]
fn typing_puts_a_character_in() {
    let mut e = editor(&["ab"], 0, 1);
    e.insert_char('x');
    assert_eq!(e.lines, ["axb"]);
    assert_eq!(at(&e), (0, 2));
    assert!(e.modified);
    assert_eq!(e.undo_stack.len(), 1);
    assert_eq!(e.undo_stack[0].lines, ["ab"]);
    assert_eq!(e.undo_stack[0].cursor_col, 1);
}

#[test]
fn a_wide_character_moves_the_cursor_by_one_byte() {
    let mut e = editor(&["ab"], 0, 1);
    e.insert_char('é');
    assert_eq!(e.lines, ["aéb"]);
    assert_eq!(at(&e), (0, 2));
    assert!(!e.takes_key(key(KeyCode::Char('x'))));
    assert!(!e.takes_key(key(KeyCode::Enter)));
    assert!(e.takes_key(key(KeyCode::Backspace)));
    e.delete_char();
    assert_eq!(e.lines, ["ab"]);
    assert_eq!(at(&e), (0, 1));
}

#[test]
fn typing_beyond_the_line_only_puts_the_text_away() {
    let mut e = editor(&["ab"], 0, 5);
    e.insert_char('x');
    assert_eq!(e.lines, ["ab"]);
    assert_eq!(at(&e), (0, 5));
    assert!(!e.modified);
    assert_eq!(e.undo_stack.len(), 1);
}

#[test]
fn typing_where_there_is_no_line_does_nothing() {
    let mut e = editor(&["ab"], 1, 0);
    e.insert_char('x');
    e.delete_char();
    e.insert_newline();
    assert_eq!(e.lines, ["ab"]);
    assert!(e.undo_stack.is_empty());
    assert!(!e.modified);
}

#[test]
fn backspace_takes_a_character_out() {
    let mut e = editor(&["axb"], 0, 2);
    e.delete_char();
    assert_eq!(e.lines, ["ab"]);
    assert_eq!(at(&e), (0, 1));
    assert!(e.modified);
}

#[test]
fn backspace_at_the_start_joins_lines() {
    let mut e = editor(&["aé", "b", "c"], 1, 0);
    e.delete_char();
    assert_eq!(e.lines, ["aéb", "c"]);
    assert_eq!(at(&e), (0, 3));
    assert!(e.modified);
}

#[test]
fn backspace_at_the_top_only_puts_the_text_away() {
    let mut e = editor(&["a"], 0, 0);
    e.delete_char();
    assert_eq!(e.lines, ["a"]);
    assert!(!e.modified);
    assert_eq!(e.undo_stack.len(), 1);

    let mut e = editor(&["a"], 0, 7);
    e.delete_char();
    assert_eq!(e.lines, ["a"]);
    assert_eq!(at(&e), (0, 7));
    assert!(!e.modified);
}

#[test]
fn enter_breaks_the_line() {
    let mut e = editor(&["aéb", "c"], 0, 3);
    e.insert_newline();
    assert_eq!(e.lines, ["aé", "b", "c"]);
    assert_eq!(at(&e), (1, 0));
    assert!(e.modified);
}

#[test]
fn backspace_takes_back_typing_and_enter() {
    let mut e = editor(&["aéb"], 0, 3);
    e.insert_char('←');
    e.delete_char();
    assert_eq!(e.lines, ["aéb"]);
    assert_eq!(at(&e), (0, 3));
    e.insert_newline();
    e.delete_char();
    assert_eq!(e.lines, ["aéb"]);
    assert_eq!(at(&e), (0, 3));
}

#[test]
fn undo_and_redo_go_back_and_forth() {
    let mut e = editor(&["ab"], 0, 1);
    e.insert_char('x');
    e.insert_newline();
    assert_eq!(e.lines, ["ax", "b"]);
    e.modified = false;
    e.undo();
    assert_eq!(e.lines, ["axb"]);
    assert_eq!(at(&e), (0, 2));
    assert!(e.modified);
    assert_eq!(e.status_message, "undo");
    e.undo();
    assert_eq!(e.lines, ["ab"]);
    assert_eq!(at(&e), (0, 1));
    e.undo();
    assert_eq!(e.status_message, "nothing to undo");
    assert_eq!(e.lines, ["ab"]);
    e.redo();
    assert_eq!(e.lines, ["axb"]);
    assert_eq!(e.status_message, "redo");
    e.redo();
    assert_eq!(e.lines, ["ax", "b"]);
    assert_eq!(at(&e), (1, 0));
    e.redo();
    assert_eq!(e.status_message, "nothing to redo");
    e.undo();
    assert_eq!(e.lines, ["axb"]);
    assert_eq!(e.undo_stack.len(), 1);
    assert_eq!(e.redo_stack.len(), 1);
}

#[test]
fn a_change_forgets_what_could_be_redone() {
    let mut e = editor(&["a"], 0, 1);
    e.insert_char('b');
    e.undo();
    assert_eq!(e.redo_stack.len(), 1);
    e.insert_char('c');
    assert!(e.redo_stack.is_empty());
}

#[test]
fn undo_reaches_back_a_hundred_changes() {
    let mut e = editor(&[""], 0, 0);
    for _ in 0..150 {
        e.insert_char('x');
    }
    assert_eq!(e.undo_stack.len(), 100);
    for _ in 0..100 {
        e.undo();
        assert_eq!(e.undo_stack.len() + e.redo_stack.len(), 100);
    }
    assert_eq!(e.lines[0].len(), 50);
    e.undo();
    assert_eq!(e.lines[0].len(), 50);
}

#[test]
fn duplicates_are_found_with_every_change() {
    let mut e = editor(&["[\"http://a\"]", "[\"http://ab\"]"], 1, 11);
    assert!(e.duplicates.is_empty());
    e.delete_char();
    assert_eq!(e.lines[1], "[\"http://a\"]");
    assert_eq!(e.duplicates.len(), 2);
    e.undo();
    assert!(e.duplicates.is_empty());
    e.redo();
    assert_eq!(e.duplicates.len(), 2);
}

#[test]
fn saving_a_state_puts_it_away() {
    let mut e = editor(&["a"], 0, 1);
    e.max_undo_size = 2;
    for col in 0..4 {
        e.cursor_col = col;
        e.save_state();
    }
    let cols: Vec<usize> = e.undo_stack.iter().map(|state| state.cursor_col).collect();
    assert_eq!(cols, [2, 3]);
    e.max_undo_size = 0;
    e.undo_stack.clear();
    e.save_state();
    assert!(e.undo_stack.is_empty());
}

#[test]
fn arrows_move_the_cursor() {
    let mut e = editor(&["abc", "d", "efg"], 0, 3);
    e.move_cursor(KeyCode::Down);
    assert_eq!(at(&e), (1, 1));
    e.move_cursor(KeyCode::Down);
    assert_eq!(at(&e), (2, 1));
    e.move_cursor(KeyCode::Down);
    assert_eq!(at(&e), (2, 1));
    e.move_cursor(KeyCode::Up);
    e.move_cursor(KeyCode::Up);
    assert_eq!(at(&e), (0, 1));
    e.move_cursor(KeyCode::Up);
    assert_eq!(at(&e), (0, 1));
    e.move_cursor(KeyCode::Left);
    e.move_cursor(KeyCode::Left);
    assert_eq!(at(&e), (0, 0));
    e.cursor_row = 1;
    e.move_cursor(KeyCode::Left);
    assert_eq!(at(&e), (0, 3));
    e.move_cursor(KeyCode::Right);
    assert_eq!(at(&e), (1, 0));
    e.move_cursor(KeyCode::Right);
    assert_eq!(at(&e), (1, 1));
    e.move_cursor(KeyCode::Enter);
    assert_eq!(at(&e), (1, 1));
    e.cursor_row = 2;
    e.cursor_col = 3;
    e.move_cursor(KeyCode::Right);
    assert_eq!(at(&e), (2, 3));
    assert!(!e.modified);
}

#[test]
fn arrows_go_back_where_they_came_from() {
    let mut e = editor(&["ab", "", "c"], 0, 0);
    for _ in 0..5 {
        let before = at(&e);
        e.move_cursor(KeyCode::Right);
        let after = at(&e);
        e.move_cursor(KeyCode::Left);
        assert_eq!(at(&e), before);
        e.move_cursor(KeyCode::Right);
        assert_eq!(at(&e), after);
    }
    assert_eq!(at(&e), (2, 1));
}

#[test]
fn keys_edit_the_text() {
    let mut e = editor(&["ab"], 0, 1);
    assert_eq!(e.handle_key(key(KeyCode::Char('z'))), Action::Nothing);
    assert_eq!(e.lines, ["azb"]);
    assert_eq!(e.handle_key(key(KeyCode::Enter)), Action::Nothing);
    assert_eq!(e.lines, ["az", "b"]);
    assert_eq!(e.handle_key(key(KeyCode::Backspace)), Action::Nothing);
    assert_eq!(e.lines, ["azb"]);
    assert_eq!(e.handle_key(control('z')), Action::Nothing);
    assert_eq!(e.lines, ["az", "b"]);
    assert_eq!(e.handle_key(control('y')), Action::Nothing);
    assert_eq!(e.lines, ["azb"]);
    assert_eq!(e.handle_key(control('x')), Action::Nothing);
    let alt = Key {
        alt: true,
        ..key(KeyCode::Char('x'))
    };
    assert_eq!(e.handle_key(alt), Action::Nothing);
    assert_eq!(e.handle_key(key(KeyCode::Other)), Action::Nothing);
    assert_eq!(e.lines, ["azb"]);
}

#[test]
fn keys_that_go_up_are_ignored() {
    let mut e = editor(&["ab"], 0, 1);
    let up = Key {
        pressed: false,
        ..key(KeyCode::Char('x'))
    };
    assert_eq!(e.handle_key(up), Action::Nothing);
    assert_eq!(e.lines, ["ab"]);
    let quit = Key {
        pressed: false,
        ..key(KeyCode::F(10))
    };
    assert_eq!(e.handle_key(quit), Action::Nothing);
}

#[test]
fn arrow_keys_ask_for_a_refresh_where_they_move() {
    let mut e = editor(&["ab"], 0, 1);
    assert_eq!(e.handle_key(key(KeyCode::Right)), Action::Refresh);
    assert_eq!(e.handle_key(key(KeyCode::Right)), Action::Nothing);
    assert_eq!(e.handle_key(key(KeyCode::Left)), Action::Refresh);
    assert_eq!(e.handle_key(key(KeyCode::Up)), Action::Nothing);
    assert_eq!(e.handle_key(key(KeyCode::Down)), Action::Nothing);
}

#[test]
fn function_keys_do_their_work() {
    let mut e = editor(&["[\"http://a\"]", "[\"http://a\"]"], 0, 0);
    assert_eq!(e.handle_key(key(KeyCode::F(1))), Action::Nothing);
    assert_eq!(
        e.status_message,
        "F2: save | F10: quit | F3: remove dupes | F4: check 404 | F5: remove missing | F6: load"
    );
    assert_eq!(e.handle_key(key(KeyCode::F(2))), Action::Save);
    assert_eq!(e.handle_key(key(KeyCode::F(4))), Action::CheckMissing);
    e.checking_urls = true;
    assert_eq!(e.handle_key(key(KeyCode::F(4))), Action::Nothing);
    assert_eq!(e.handle_key(key(KeyCode::F(5))), Action::Nothing);
    assert_eq!(
        e.status_message,
        "no missing emotes to remove,  press F4 to check first!!11!"
    );
    assert_eq!(e.handle_key(key(KeyCode::F(6))), Action::PromptLoad);
    assert_eq!(e.handle_key(key(KeyCode::F(7))), Action::Nothing);
    assert_eq!(e.handle_key(key(KeyCode::F(10))), Action::Quit);
    assert_eq!(e.handle_key(key(KeyCode::Esc)), Action::Nothing);
    assert_eq!(e.status_message, "press F10 to quit");
    assert_eq!(e.handle_key(key(KeyCode::F(3))), Action::Nothing);
    assert_eq!(e.lines, ["[\"http://a\"]"]);
    e.missing_emotes.insert(0);
    assert_eq!(e.handle_key(key(KeyCode::F(5))), Action::Nothing);
    assert!(e.lines.is_empty());
    assert_eq!(e.status_message, "removed 1 404 emote(s)");
    assert!(!e.takes_key(key(KeyCode::Down)));
    assert!(!e.takes_key(key(KeyCode::Right)));
    assert!(e.takes_key(key(KeyCode::Up)));
    assert!(e.takes_key(key(KeyCode::Char('x'))));
}

#[test]
fn keys_are_taken_where_the_cursor_allows_it() {
    let e = editor(&["é"], 0, 1);
    assert!(!e.takes_key(key(KeyCode::Char('x'))));
    assert!(!e.takes_key(key(KeyCode::Enter)));
    assert!(e.takes_key(key(KeyCode::Backspace)));
    assert!(e.takes_key(control('z')));
    let e = editor(&["é"], 0, 2);
    assert!(e.takes_key(key(KeyCode::Char('x'))));
    assert!(e.takes_key(key(KeyCode::Enter)));
    assert!(!e.takes_key(key(KeyCode::Backspace)));
    let e = editor(&["é"], 0, 3);
    assert!(e.takes_key(key(KeyCode::Char('x'))));
    assert!(!e.takes_key(key(KeyCode::Enter)));
    assert!(e.takes_key(key(KeyCode::Backspace)));
}

#[test]
fn plain_text_takes_every_key() {
    let mut e = editor(&["abc", "d"], 0, 0);
    let keys = [
        KeyCode::Char('x'),
        KeyCode::Enter,
        KeyCode::Right,
        KeyCode::Backspace,
        KeyCode::Down,
        KeyCode::Up,
        KeyCode::Left,
        KeyCode::Backspace,
    ];
    for code in keys {
        assert!(e.takes_key(key(code)));
        e.handle_key(key(code));
        assert!(e.cursor_row < e.lines.len());
        assert!(e.cursor_col <= e.lines[e.cursor_row].len());
    }
}

#[test]
fn a_text_of_several_lines_loses_nothing_but_the_removed_rows() {
    let mut e = editor(&["a", "b", "c", "d", "e"], 3, 1);
    e.missing_emotes.insert(1);
    e.missing_emotes.insert(4);
    e.remove_missing_emotes();
    assert_eq!(e.lines, ["a", "c", "d"]);
    assert_eq!(at(&e), (2, 1));
    assert_eq!(e.lines[e.cursor_row], "d");
}

#[test]
fn every_key_leaves_the_editor_in_order() {
    let mut e = editor(&["[\"http://a\"]", "x", "[\"http://a\"]"], 1, 0);
    e.max_undo_size = 3;
    let codes = [
        key(KeyCode::Char('a')),
        key(KeyCode::Enter),
        control('z'),
        key(KeyCode::Backspace),
        key(KeyCode::Char('b')),
        key(KeyCode::Char('c')),
        control('z'),
        control('z'),
        control('y'),
        key(KeyCode::F(3)),
        key(KeyCode::Down),
        control('y'),
        key(KeyCode::F(5)),
    ];
    for k in codes {
        assert!(e.takes_key(k));
        let lines = e.lines.clone();
        e.modified = false;
        e.handle_key(k);
        assert_eq!(e.modified || e.lines == lines, true);
        assert!(e.cursor_row < e.lines.len());
        assert!(e.undo_stack.len() + e.redo_stack.len() <= 3);
        let marked = e.duplicates.clone();
        e.check_duplicates();
        assert_eq!(e.duplicates, marked);
    }
}

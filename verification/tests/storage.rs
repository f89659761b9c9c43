use moaremotes::editor::Moaremotes;
use moaremotes::storage::{
    load_source, save_checked, Failure, LoadEvent, LoadSource, LoadStep, DEFAULT_URL,
};

const LIST: &str = "[\n[\"http://a\"],\r\n[\"http://a\"]\n]\n";

#[test]
fn a_new_editor_is_empty() {
    let e = Moaremotes::new(80, 24);
    assert_eq!(e.lines, [""]);
    assert_eq!((e.cursor_row, e.cursor_col, e.scroll_offset), (0, 0, 0));
    assert_eq!((e.terminal_width, e.terminal_height), (80, 24));
    assert!(e.duplicates.is_empty());
    assert!(e.missing_emotes.is_empty());
    assert_eq!(
        e.status_message,
        "welcome to moaremotes emote thing!! press F1 for help"
    );
    assert_eq!(e.filename, "emotes.json");
    assert!(!e.modified);
    assert_eq!(e.last_screen_hash, 0);
    assert!(!e.checking_urls);
    assert_eq!(e.check_progress, (0, 0));
    assert!(e.undo_stack.is_empty());
    assert!(e.redo_stack.is_empty());
    assert_eq!(e.max_undo_size, 100);
}

#[test]
fn json_is_loaded() {
    let mut e = Moaremotes::new(80, 24);
    e.cursor_row = 3;
    e.cursor_col = 4;
    e.scroll_offset = 2;
    e.modified = true;
    assert_eq!(e.load_from_content(LIST), Ok(()));
    assert_eq!(e.lines, ["[", "[\"http://a\"],", "[\"http://a\"]", "]"]);
    assert_eq!((e.cursor_row, e.cursor_col, e.scroll_offset), (0, 0, 0));
    assert!(!e.modified);
    assert_eq!(e.duplicates.len(), 2);
}

#[test]
fn what_is_not_json_is_refused() {
    let mut e = Moaremotes::new(80, 24);
    assert_eq!(e.load_from_content("[1]"), Ok(()));
    e.modified = true;
    e.cursor_col = 2;
    assert_eq!(
        e.load_from_content("[1,"),
        Err("invalid json: EOF while parsing a value at line 1 column 3".to_string())
    );
    assert_eq!(
        e.load_from_content(""),
        Err("invalid json: EOF while parsing a value at line 1 column 0".to_string())
    );
    assert_eq!(
        e.load_from_content("[1] x"),
        Err("invalid json: trailing characters at line 1 column 5".to_string())
    );
    assert_eq!(e.lines, ["[1]"]);
    assert_eq!(e.cursor_col, 2);
    assert!(e.modified);
}

#[test]
fn the_outcome_of_the_check_decides() {
    let mut e = Moaremotes::new(80, 24);
    assert_eq!(
        e.load_checked("a\nb", Err("why".to_string())),
        Err("invalid json: why".to_string())
    );
    assert_eq!(e.lines, [""]);
    assert_eq!(e.load_checked("a\nb", Ok(())), Ok(()));
    assert_eq!(e.lines, ["a", "b"]);
    assert_eq!(e.load_checked("", Ok(())), Ok(()));
    assert_eq!(e.lines, [""]);
    assert_eq!(
        save_checked("a".to_string(), Ok(())),
        Ok("a".to_string())
    );
    assert_eq!(
        save_checked("a".to_string(), Err("why".to_string())),
        Err("cannot save invalid JSON: why".to_string())
    );
}

#[test]
fn a_file_is_loaded() {
    let mut e = Moaremotes::new(80, 24);
    assert_eq!(e.load_from_file("x.json", Ok("[1]".to_string())), Ok(()));
    assert_eq!(e.lines, ["[1]"]);
    assert_eq!(e.filename, "x.json");
    assert_eq!(e.status_message, "loaded from x.json");
    assert_eq!(
        e.load_from_file("y.json", Err("gone".to_string())),
        Err("failed to read file y.json: gone".to_string())
    );
    assert_eq!(
        e.load_from_file("y.json", Ok("{".to_string())),
        Err("invalid json: EOF while parsing an object at line 1 column 1".to_string())
    );
    assert_eq!(e.filename, "x.json");
    assert_eq!(e.status_message, "loaded from x.json");
    assert_eq!(e.lines, ["[1]"]);
}

#[test]
fn what_is_saved_can_be_loaded() {
    let mut e = Moaremotes::new(80, 24);
    assert_eq!(e.load_from_content("[\n 1,\n\n 2\n]"), Ok(()));
    e.modified = true;
    let content = e.save_file().unwrap();
    assert_eq!(content, "[\n 1,\n\n 2\n]");
    assert!(e.modified);
    assert_eq!(e.save_written(Ok(())), Ok(()));
    assert!(!e.modified);
    assert_eq!(e.status_message, "saved to emotes.json");
    let mut again = Moaremotes::new(80, 24);
    assert_eq!(again.load_from_content(&content), Ok(()));
    assert_eq!(again.lines, e.lines);
}

#[test]
fn an_empty_last_line_is_not_kept() {
    let mut e = Moaremotes::new(80, 24);
    e.lines = vec!["[1]".to_string(), "".to_string()];
    let content = e.save_file().unwrap();
    assert_eq!(content, "[1]\n");
    assert_eq!(e.load_from_content(&content), Ok(()));
    assert_eq!(e.lines, ["[1]"]);
}

#[test]
fn what_is_not_json_is_not_saved() {
    let mut e = Moaremotes::new(80, 24);
    e.lines = vec!["[".to_string(), "1".to_string()];
    e.modified = true;
    assert_eq!(
        e.save_file(),
        Err("cannot save invalid JSON: EOF while parsing a list at line 2 column 1".to_string())
    );
    assert_eq!(
        e.save_written(Err("full".to_string())),
        Err("failed to save: full".to_string())
    );
    assert!(e.modified);
}

#[test]
fn a_list_is_loaded_from_the_net() {
    let mut e = Moaremotes::new(80, 24);
    let url = "http://x/y";
    assert!(matches!(
        e.load_from_url(url, LoadEvent::Wanted),
        LoadStep::Show
    ));
    assert_eq!(e.status_message, "loading from http://x/y...");
    assert!(matches!(
        e.load_from_url(url, LoadEvent::Shown(Ok(()))),
        LoadStep::MakeClient
    ));
    assert!(matches!(
        e.load_from_url(url, LoadEvent::Client(Ok(()))),
        LoadStep::Send
    ));
    assert!(matches!(
        e.load_from_url(url, LoadEvent::Answered(Ok(200))),
        LoadStep::Receive
    ));
    match e.load_from_url(url, LoadEvent::Received(Ok("[1]".to_string()))) {
        LoadStep::Store(content) => assert_eq!(content, "[1]"),
        step => panic!("{:?}", step),
    }
    assert_eq!(e.lines, ["[1]"]);
    assert_eq!(e.filename, "emotes.json");
    assert!(matches!(
        e.load_from_url(url, LoadEvent::Stored(Ok(()))),
        LoadStep::Done
    ));
    assert_eq!(e.status_message, "successfully loaded from http://x/y");
}

fn failure(event: LoadEvent) -> String {
    let mut e = Moaremotes::new(80, 24);
    let step = e.load_from_url("u", event);
    assert_eq!(e.lines, [""]);
    assert_eq!(
        e.status_message,
        "welcome to moaremotes emote thing!! press F1 for help"
    );
    match step {
        LoadStep::Failed(error) => error,
        step => panic!("{:?}", step),
    }
}

#[test]
fn a_list_may_fail_to_load() {
    let why = || Err("why".to_string());
    assert_eq!(failure(LoadEvent::Shown(why())), "display error: why");
    assert_eq!(
        failure(LoadEvent::Client(why())),
        "failed to create client: why"
    );
    assert_eq!(
        failure(LoadEvent::Answered(Err("why".to_string()))),
        "request failed: why"
    );
    assert_eq!(
        failure(LoadEvent::Answered(Ok(404))),
        "HTTP error: 404 Not Found"
    );
    assert_eq!(
        failure(LoadEvent::Answered(Ok(199))),
        "HTTP error: 199 <unknown status code>"
    );
    assert_eq!(
        failure(LoadEvent::Answered(Ok(300))),
        "HTTP error: 300 Multiple Choices"
    );
    assert_eq!(
        failure(LoadEvent::Received(Err("why".to_string()))),
        "failed to read response: why"
    );
    assert_eq!(
        failure(LoadEvent::Received(Ok("nope".to_string()))),
        "invalid json: expected ident at line 1 column 2"
    );
    assert_eq!(failure(LoadEvent::Stored(why())), "failed to save file: why");
}

#[test]
fn failures_are_reported() {
    let mut e = Moaremotes::new(80, 24);
    e.report(Failure::Save, "x");
    assert_eq!(e.status_message, "save error: x");
    e.report(Failure::Check, "x");
    assert_eq!(e.status_message, "error checking urls: x");
    e.report(Failure::Load, "x");
    assert_eq!(e.status_message, "error: x");
    e.report(Failure::Startup, "x");
    assert_eq!(e.status_message, "warning: x");
}

#[test]
fn the_editor_starts_with_the_file_that_is_there() {
    let mut e = Moaremotes::new(80, 24);
    e.start_with(None);
    assert_eq!(
        e.status_message,
        "no emotes.json found.. press F6 to load from url or file"
    );
    e.start_with(Some(Ok("{}".to_string())));
    assert_eq!(e.lines, ["{}"]);
    assert_eq!(e.status_message, "loaded from emotes.json");
    e.start_with(Some(Err("locked".to_string())));
    assert_eq!(
        e.status_message,
        "warning: failed to read file emotes.json: locked"
    );
    e.start_with(Some(Ok("}".to_string())));
    assert_eq!(
        e.status_message,
        "warning: invalid json: expected value at line 1 column 1"
    );
    assert_eq!(e.lines, ["{}"]);
}

#[test]
fn an_answer_says_where_to_load_from() {
    match load_source(" \n") {
        LoadSource::Url(url) => assert_eq!(url, DEFAULT_URL),
        source => panic!("{:?}", source),
    }
    match load_source("  https://x/y \r\n") {
        LoadSource::Url(url) => assert_eq!(url, "https://x/y"),
        source => panic!("{:?}", source),
    }
    match load_source("httpx\n") {
        LoadSource::Url(url) => assert_eq!(url, "httpx"),
        source => panic!("{:?}", source),
    }
    match load_source(" my file.json\n") {
        LoadSource::File(path) => assert_eq!(path, "my file.json"),
        source => panic!("{:?}", source),
    }
    match load_source("htt") {
        LoadSource::File(path) => assert_eq!(path, "htt"),
        source => panic!("{:?}", source),
    }
    assert_eq!(
        DEFAULT_URL,
        "https://raw.githubusercontent.com/JustAGoodUsername/moaremotes-ext/refs/heads/patch-2/emotes.json"
    );
}

//! Where the text comes from and where it goes.

use std::collections::HashSet;
use vstd::prelude::*;
use vstd::string::StringExecFns;

use crate::editor::Moaremotes;
use crate::http::{canonical_reason, is_success, reason_of, show_status, status_text, success};
use crate::json::{check_json, json_error};
use crate::model::{loaded_lines, EditorView};
use crate::text::{chars_of, join_lines, joined, lines_of, starts_with_http, texts, trim, trimmed};

verus! {

/// Where a list comes from when nothing else is said.
pub const DEFAULT_URL: &'static str =
    "https://raw.githubusercontent.com/JustAGoodUsername/moaremotes-ext/refs/heads/patch-2/emotes.json";

/// Where to load a list from.
#[derive(Debug)]
pub enum LoadSource {
    Url(String),
    File(String),
}

/// What has happened outside of the editor while a list is loaded from the net.
#[derive(Debug)]
pub enum LoadEvent {
    /// The list is wanted.
    Wanted,
    /// The screen has been written, or why it has not.
    Shown(Result<(), String>),
    /// There is a client to ask with, or why there is none.
    Client(Result<(), String>),
    /// The status of the answer, or why there was none.
    Answered(Result<u16, String>),
    /// The list, or why it could not be read.
    Received(Result<String, String>),
    /// The list has been stored in the file, or why it has not.
    Stored(Result<(), String>),
}

/// What is to be done next, outside of the editor, to load a list from the net.
#[derive(Debug)]
pub enum LoadStep {
    /// Write the screen.
    Show,
    /// Make a client.
    MakeClient,
    /// Send the request.
    Send,
    /// Read the answer.
    Receive,
    /// Store this in the file.
    Store(String),
    /// Nothing: the list is loaded.
    Done,
    /// Nothing: the list is not loaded, or not stored, and this is why.
    Failed(String),
}

/// What is to be done next, as a mathematical value.
#[verifier::ext_equal]
pub enum LoadStepView {
    Show,
    MakeClient,
    Send,
    Receive,
    Store(Seq<char>),
    Done,
    Failed(Seq<char>),
}

impl View for LoadStep {
    type V = LoadStepView;

    open spec fn view(&self) -> LoadStepView {
        match *self {
            LoadStep::Show => LoadStepView::Show,
            LoadStep::MakeClient => LoadStepView::MakeClient,
            LoadStep::Send => LoadStepView::Send,
            LoadStep::Receive => LoadStepView::Receive,
            LoadStep::Store(content) => LoadStepView::Store(content@),
            LoadStep::Done => LoadStepView::Done,
            LoadStep::Failed(error) => LoadStepView::Failed(error@),
        }
    }
}

/// What failed.
#[derive(Debug, Clone, Copy, PartialEq, Eq, Structural)]
pub enum Failure {
    Save,
    Check,
    Load,
    Startup,
}

/// The text that a result carries.
pub open spec fn told(result: Result<(), String>) -> Result<(), Seq<char>> {
    match result {
        Ok(_) => Ok(()),
        Err(error) => Err(error@),
    }
}

/// The text that a result carries.
pub open spec fn told_text(result: Result<String, String>) -> Result<Seq<char>, Seq<char>> {
    match result {
        Ok(text) => Ok(text@),
        Err(error) => Err(error@),
    }
}

/// What the outcome of a check for JSON objects to.
pub open spec fn objection(checked: Result<(), String>) -> Option<Seq<char>> {
    match checked {
        Ok(_) => None,
        Err(error) => Some(error@),
    }
}

/// The one text behind the other.
fn concat(a: &str, b: &str) -> (s: String)
    ensures
        s@ == a@ + b@,
{
    let mut s = a.to_owned();
    s.append(b);
    s
}

impl EditorView {
    /// What an event makes of the editor while a list is loaded from `url`, and what is to be
    /// done next. `said` is what others say of the event: the objection to a list as JSON, or the
    /// phrase for the status of an answer.
    pub open spec fn load_from_url(
        self,
        url: Seq<char>,
        event: LoadEvent,
        said: Option<Seq<char>>,
    ) -> (EditorView, LoadStepView) {
        match event {
            LoadEvent::Wanted => (
                self.says("loading from "@ + url + "..."@),
                LoadStepView::Show,
            ),
            LoadEvent::Shown(Ok(_)) => (self, LoadStepView::MakeClient),
            LoadEvent::Shown(Err(error)) => (
                self,
                LoadStepView::Failed("display error: "@ + error@),
            ),
            LoadEvent::Client(Ok(_)) => (self, LoadStepView::Send),
            LoadEvent::Client(Err(error)) => (
                self,
                LoadStepView::Failed("failed to create client: "@ + error@),
            ),
            LoadEvent::Answered(Ok(code)) => (
                self,
                if success(code) {
                    LoadStepView::Receive
                } else {
                    LoadStepView::Failed("HTTP error: "@ + status_text(code, said))
                },
            ),
            LoadEvent::Answered(Err(error)) => (
                self,
                LoadStepView::Failed("request failed: "@ + error@),
            ),
            LoadEvent::Received(Ok(content)) => {
                let (loaded, outcome) = self.load(content@, said);
                (
                    loaded,
                    match outcome {
                        Ok(_) => LoadStepView::Store(content@),
                        Err(error) => LoadStepView::Failed(error),
                    },
                )
            },
            LoadEvent::Received(Err(error)) => (
                self,
                LoadStepView::Failed("failed to read response: "@ + error@),
            ),
            LoadEvent::Stored(Ok(_)) => (
                self.says("successfully loaded from "@ + url),
                LoadStepView::Done,
            ),
            LoadEvent::Stored(Err(error)) => (
                self,
                LoadStepView::Failed("failed to save file: "@ + error@),
            ),
        }
    }
}

impl Moaremotes {
    /// An editor with an empty text, on a terminal of the given size.
    pub fn new(width: u16, height: u16) -> (editor: Moaremotes)
        ensures
            editor@ == EditorView::start(width as int, height as int),
    {
        let mut lines: Vec<String> = Vec::new();
        lines.push(String::new());
        assert(texts(lines@) =~= seq![seq![]]);
        let editor = Moaremotes {
            lines,
            cursor_row: 0,
            cursor_col: 0,
            scroll_offset: 0,
            terminal_height: height as usize,
            terminal_width: width as usize,
            duplicates: HashSet::new(),
            missing_emotes: HashSet::new(),
            status_message: "welcome to moaremotes emote thing!! press F1 for help".to_owned(),
            filename: "emotes.json".to_owned(),
            modified: false,
            last_screen_hash: 0,
            checking_urls: false,
            check_progress: (0, 0),
            undo_stack: Vec::new(),
            redo_stack: Vec::new(),
            max_undo_size: 100,
        };
        assert(editor@ =~= EditorView::start(width as int, height as int));
        editor
    }

    /// Takes over `content`, where `checked` says whether it is JSON.
    pub fn load_checked(&mut self, content: &str, checked: Result<(), String>) -> (loaded: Result<
        (),
        String,
    >)
        ensures
            (final(self)@, told(loaded)) == old(self)@.load(content@, objection(checked)),
    {
        match checked {
            Ok(_) => {
                self.lines = lines_of(content);
                if self.lines.is_empty() {
                    self.lines.push(String::new());
                }
                assert(texts(self.lines@) =~= loaded_lines(content@));
                self.cursor_row = 0;
                self.cursor_col = 0;
                self.scroll_offset = 0;
                self.modified = false;
                self.check_duplicates();
                Ok(())
            },
            Err(error) => Err(concat("invalid json: ", error.as_str())),
        }
    }

    /// Takes over `content`, provided that it is JSON.
    pub fn load_from_content(&mut self, content: &str) -> (loaded: Result<(), String>)
        ensures
            (final(self)@, told(loaded)) == old(self)@.load(content@, json_error(content@)),
    {
        let checked = check_json(content);
        self.load_checked(content, checked)
    }

    /// Takes over the file `path`, where `read` is its content or why it could not be read.
    pub fn load_from_file(&mut self, path: &str, read: Result<String, String>) -> (loaded: Result<
        (),
        String,
    >)
        ensures
            (final(self)@, told(loaded)) == old(self)@.load_from_file(
                path@,
                told_text(read),
                match read {
                    Ok(content) => json_error(content@),
                    Err(_) => None,
                },
            ),
    {
        match read {
            Ok(content) => match self.load_from_content(content.as_str()) {
                Ok(_) => {
                    self.filename = path.to_owned();
                    self.status_message = concat("loaded from ", path);
                    Ok(())
                },
                Err(error) => Err(error),
            },
            Err(error) => {
                let mut message = "failed to read file ".to_owned();
                message.append(path);
                message.append(": ");
                message.append(error.as_str());
                Err(message)
            },
        }
    }

    /// Takes note of an event while a list is loaded from `url`, and says what is to be done
    /// next.
    pub fn load_from_url(&mut self, url: &str, event: LoadEvent) -> (step: LoadStep)
        ensures
            (final(self)@, step@) == old(self)@.load_from_url(
                url@,
                event,
                match event {
                    LoadEvent::Received(Ok(content)) => json_error(content@),
                    LoadEvent::Answered(Ok(code)) => canonical_reason(code),
                    _ => None,
                },
            ),
    {
        match event {
            LoadEvent::Wanted => {
                let mut message = concat("loading from ", url);
                message.append("...");
                self.status_message = message;
                LoadStep::Show
            },
            LoadEvent::Shown(Ok(_)) => LoadStep::MakeClient,
            LoadEvent::Shown(Err(error)) => LoadStep::Failed(
                concat("display error: ", error.as_str()),
            ),
            LoadEvent::Client(Ok(_)) => LoadStep::Send,
            LoadEvent::Client(Err(error)) => LoadStep::Failed(
                concat("failed to create client: ", error.as_str()),
            ),
            LoadEvent::Answered(Ok(code)) => {
                if is_success(code) {
                    LoadStep::Receive
                } else {
                    let reason = reason_of(code);
                    let status = show_status(code, &reason);
                    LoadStep::Failed(concat("HTTP error: ", status.as_str()))
                }
            },
            LoadEvent::Answered(Err(error)) => LoadStep::Failed(
                concat("request failed: ", error.as_str()),
            ),
            LoadEvent::Received(Ok(content)) => match self.load_from_content(content.as_str()) {
                Ok(_) => LoadStep::Store(content),
                Err(error) => LoadStep::Failed(error),
            },
            LoadEvent::Received(Err(error)) => LoadStep::Failed(
                concat("failed to read response: ", error.as_str()),
            ),
            LoadEvent::Stored(Ok(_)) => {
                self.status_message = concat("successfully loaded from ", url);
                LoadStep::Done
            },
            LoadEvent::Stored(Err(error)) => LoadStep::Failed(
                concat("failed to save file: ", error.as_str()),
            ),
        }
    }

    /// What to write to the file, provided that the text is JSON.
    pub fn save_file(&self) -> (saved: Result<String, String>)
        ensures
            told_text(saved) == saved_text(
                joined(self@.document.lines),
                json_error(joined(self@.document.lines)),
            ),
    {
        let content = join_lines(&self.lines);
        let checked = check_json(content.as_str());
        save_checked(content, checked)
    }

    /// Says that the file is written, or why it is not.
    pub fn save_written(&mut self, written: Result<(), String>) -> (outcome: Result<(), String>)
        ensures
            (final(self)@, told(outcome)) == old(self)@.save_written(told(written)),
    {
        match written {
            Ok(_) => {
                self.modified = false;
                self.status_message = concat("saved to ", self.filename.as_str());
                Ok(())
            },
            Err(error) => Err(concat("failed to save: ", error.as_str())),
        }
    }

    /// Shows what failed, and why.
    pub fn report(&mut self, failure: Failure, error: &str)
        ensures
            final(self)@ == old(self)@.says(failure_prefix(failure) + error@),
    {
        let prefix = match failure {
            Failure::Save => "save error: ",
            Failure::Check => "error checking urls: ",
            Failure::Load => "error: ",
            Failure::Startup => "warning: ",
        };
        self.status_message = concat(prefix, error);
    }

    /// Takes over the file that lies in the working directory, where there is one; `file` is
    /// its content or why it could not be read.
    pub fn start_with(&mut self, file: Option<Result<String, String>>)
        ensures
            final(self)@ == (match file {
                Some(read) => {
                    let (loaded, outcome) = old(self)@.load_from_file(
                        "emotes.json"@,
                        told_text(read),
                        match read {
                            Ok(content) => json_error(content@),
                            Err(_) => None,
                        },
                    );
                    match outcome {
                        Ok(_) => loaded,
                        Err(error) => loaded.says("warning: "@ + error),
                    }
                },
                None => old(self)@.says(
                    "no emotes.json found.. press F6 to load from url or file"@,
                ),
            }),
    {
        match file {
            Some(read) => match self.load_from_file("emotes.json", read) {
                Ok(_) => {},
                Err(error) => self.report(Failure::Startup, error.as_str()),
            },
            None => {
                self.status_message =
                "no emotes.json found.. press F6 to load from url or file".to_owned();
            },
        }
    }
}

/// What can be written to the file: `content`, where there is no objection to it as JSON.
pub open spec fn saved_text(content: Seq<char>, objection: Option<Seq<char>>) -> Result<
    Seq<char>,
    Seq<char>,
> {
    match objection {
        None => Ok(content),
        Some(error) => Err("cannot save invalid JSON: "@ + error),
    }
}

/// Gives back `content` as what to write to the file, where `checked` says that it is JSON.
pub fn save_checked(content: String, checked: Result<(), String>) -> (saved: Result<
    String,
    String,
>)
    ensures
        told_text(saved) == saved_text(content@, objection(checked)),
{
    match checked {
        Ok(_) => Ok(content),
        Err(error) => Err(concat("cannot save invalid JSON: ", error.as_str())),
    }
}

/// What a message about a failure starts with.
pub open spec fn failure_prefix(failure: Failure) -> Seq<char> {
    match failure {
        Failure::Save => "save error: "@,
        Failure::Check => "error checking urls: "@,
        Failure::Load => "error: "@,
        Failure::Startup => "warning: "@,
    }
}

/// Where an answer to the question for a list points: to the net where it starts with `http`,
/// to the default list where it is empty, and otherwise to a file.
pub fn load_source(input: &str) -> (source: LoadSource)
    ensures
        match source {
            LoadSource::Url(url) => {
                ||| trimmed(input@).len() == 0 && url@ == DEFAULT_URL@
                ||| starts_with_http(trimmed(input@)) && url@ == trimmed(input@)
            },
            LoadSource::File(path) => {
                &&& trimmed(input@).len() > 0
                &&& !starts_with_http(trimmed(input@))
                &&& path@ == trimmed(input@)
            },
        },
{
    let answer = trim(input);
    let chars = chars_of(answer.as_str());
    if chars.len() == 0 {
        LoadSource::Url(DEFAULT_URL.to_owned())
    } else if chars.len() >= 4 && chars[0] == 'h' && chars[1] == 't' && chars[2] == 't' && chars[3]
        == 'p' {
        LoadSource::Url(answer)
    } else {
        LoadSource::File(answer)
    }
}

} // verus!

//! What the terminal shows.

use std::collections::hash_map::DefaultHasher;
use std::hash::Hasher;
use vstd::bytes::{spec_u64_to_le_bytes, u64_to_le_bytes};
use vstd::prelude::*;
use vstd::std_specs::hash::DefaultHasherAdditionalSpecFns;
use vstd::string::StringExecFns;
use vstd::utf8::encode_utf8;

use crate::editor::Moaremotes;
use crate::model::EditorView;
use crate::text::{
    byte_len, clip, clipped, clips, decimal, is_boundary, len_in_bytes, padded,
    push_decimal, push_padded, push_spaces, spaces,
};

verus! {

broadcast use vstd::std_specs::hash::group_hash_axioms;

/// The rows of the terminal that do not show text.
pub const RESERVED_ROWS: usize = 3;

/// The columns of the terminal that a line of text leaves free.
pub const RESERVED_COLUMNS: usize = 25;

/// A screen to be written to the terminal.
#[derive(Debug)]
pub struct Frame {
    /// What to write.
    pub output: String,
    /// The fingerprint of what the screen was made from.
    pub hash: u64,
}

/// `a - b`, or nothing where `b` is more than `a`.
pub open spec fn less(a: int, b: int) -> int {
    if a > b {
        a - b
    } else {
        0
    }
}

/// The bytes by which a number enters the fingerprint.
pub open spec fn number_bytes(n: int) -> Seq<u8> {
    spec_u64_to_le_bytes(n as u64)
}

/// The byte by which a flag enters the fingerprint.
pub open spec fn flag_bytes(b: bool) -> Seq<u8> {
    if b {
        seq![1u8]
    } else {
        seq![0u8]
    }
}

/// How a text enters the fingerprint: its bytes, and one byte that no text holds.
pub open spec fn text_writes(s: Seq<char>) -> Seq<Seq<u8>> {
    seq![encode_utf8(s), seq![0xffu8]]
}

impl EditorView {
    /// How many lines of text the terminal shows.
    pub open spec fn visible_height(self) -> int {
        less(self.terminal_height, RESERVED_ROWS as int)
    }

    /// The editor scrolled, by as little as possible, so that the cursor can be seen.
    pub open spec fn adjust_scroll(self) -> EditorView {
        EditorView {
            scroll_offset: if self.document.cursor_row < self.scroll_offset {
                self.document.cursor_row
            } else if self.document.cursor_row >= self.scroll_offset + self.visible_height() {
                self.document.cursor_row - self.visible_height() + 1
            } else {
                self.scroll_offset
            },
            ..self
        }
    }

    /// Whether scrolling to the cursor takes no number that the machine does not have.
    pub open spec fn scrollable(self) -> bool {
        &&& self.document.cursor_row >= self.scroll_offset ==> self.scroll_offset
            + self.visible_height() <= usize::MAX
        &&& self.visible_height() == 0 ==> self.document.cursor_row + 1 <= usize::MAX
    }

    /// How the rows from `from` up to `to` enter the fingerprint.
    pub open spec fn row_writes(self, from: int, to: int) -> Seq<Seq<u8>>
        decreases to - from,
    {
        if to <= from {
            seq![]
        } else {
            self.row_writes(from, to - 1) + text_writes(self.document.lines[to - 1]) + seq![
                flag_bytes(self.duplicates.contains((to - 1) as usize)),
                flag_bytes(self.missing_emotes.contains((to - 1) as usize)),
            ]
        }
    }

    /// Where the visible lines end.
    pub open spec fn visible_end(self) -> int {
        if self.scroll_offset + self.visible_height() < self.document.lines.len() {
            self.scroll_offset + self.visible_height()
        } else {
            self.document.lines.len() as int
        }
    }

    /// Everything that enters the fingerprint of the screen, in order.
    pub open spec fn screen_writes(self) -> Seq<Seq<u8>> {
        seq![
            number_bytes(self.document.cursor_row),
            number_bytes(self.document.cursor_col),
            number_bytes(self.scroll_offset),
            number_bytes(self.duplicates.len() as int),
            number_bytes(self.missing_emotes.len() as int),
        ] + text_writes(self.status_message) + seq![
            flag_bytes(self.modified),
            flag_bytes(self.checking_urls),
            number_bytes(self.check_progress.0),
            number_bytes(self.check_progress.1),
        ] + self.row_writes(self.scroll_offset, self.visible_end())
    }

    /// The fingerprint of the screen.
    pub open spec fn screen_hash(self) -> u64 {
        DefaultHasher::spec_finish(self.screen_writes())
    }

    /// Whether the screen has to be written anew.
    pub open spec fn needs_refresh(self) -> bool {
        self.screen_hash() != self.last_screen_hash || self.checking_urls
    }

    /// How much of a line there is room for.
    pub open spec fn line_width(self) -> int {
        less(self.terminal_width, RESERVED_COLUMNS as int)
    }

    /// Row `row` of the text, as it is shown.
    pub open spec fn line_text(self, row: int) -> Seq<char> {
        let line = clipped(self.document.lines[row], self.line_width());
        "\x1b[90m"@ + padded(decimal(row + 1), 4) + " \x1b[0m"@ + (if self.duplicates.contains(
            row as usize,
        ) {
            "\x1b[41m\x1b[37m"@ + line + "\x1b[0m ← DUPLICATE"@
        } else if self.missing_emotes.contains(row as usize) {
            "\x1b[45m\x1b[37m"@ + line + "\x1b[0m ← MISSING/404"@
        } else {
            line
        })
    }

    /// Row `i` of the terminal.
    pub open spec fn row_text(self, i: int) -> Seq<char> {
        (if self.scroll_offset + i < self.document.lines.len() {
            self.line_text(self.scroll_offset + i)
        } else {
            "\x1b[34m~\x1b[0m"@
        }) + (if i < self.visible_height() - 1 {
            "\r\n"@
        } else {
            seq![]
        })
    }

    /// The first `n` rows of the terminal.
    pub open spec fn rows_text(self, n: int) -> Seq<char>
        decreases n,
    {
        if n <= 0 {
            seq![]
        } else {
            self.rows_text(n - 1) + self.row_text(n - 1)
        }
    }

    /// The status bar.
    pub open spec fn status_bar(self) -> Seq<char> {
        let start = " "@ + self.filename + (if self.modified {
            "*"@
        } else {
            ""@
        }) + "  row: "@ + decimal(self.document.cursor_row + 1) + " col: "@ + decimal(
            self.document.cursor_col + 1,
        );
        if self.checking_urls {
            start + "  checking... "@ + decimal(self.check_progress.0) + "/"@ + decimal(
                self.check_progress.1,
            ) + " ("@ + decimal(self.missing_emotes.len() as int) + " missing)  "@
        } else {
            start + "  dup: "@ + decimal(self.duplicates.len() as int) + " 404: "@ + decimal(
                self.missing_emotes.len() as int,
            ) + "  F1: help | F2: save | F10: quit  "@
        }
    }

    /// The screen: the text, the status bar over the whole width, the status message, and the
    /// cursor at its place.
    pub open spec fn screen_text(self) -> Seq<char> {
        let bar = clipped(self.status_bar(), self.terminal_width);
        "\x1b[2J\x1b[H"@ + self.rows_text(self.visible_height()) + "\x1b["@ + decimal(
            self.terminal_height - 1,
        ) + ";1H"@ + "\x1b[100m\x1b[37m"@ + bar + spaces(self.terminal_width - byte_len(bar))
            + "\x1b[0m"@ + "\x1b["@ + decimal(self.terminal_height) + ";1H\x1b[2K"@ + clipped(
            self.status_message,
            self.terminal_width,
        ) + "\x1b["@ + decimal(less(self.document.cursor_row, self.scroll_offset) + 1) + ";"@
            + decimal(self.document.cursor_col + 6) + "H"@
    }

    /// Whether the numbers on the screen are numbers that the machine has.
    pub open spec fn countable(self) -> bool {
        &&& self.scroll_offset + self.visible_height() <= usize::MAX
        &&& self.document.cursor_row + 1 <= usize::MAX
        &&& self.document.cursor_col + 6 <= usize::MAX
    }

    /// Whether the terminal has a row for the status message, and nothing that is cut off is
    /// cut inside a character.
    pub open spec fn displayable(self) -> bool {
        let shown = self.adjust_scroll();
        &&& self.countable()
        &&& self.terminal_height >= 1
        &&& forall|row: int|
            shown.scroll_offset <= row < shown.visible_end() ==> clips(
                #[trigger] self.document.lines[row],
                self.line_width(),
            )
        &&& clips(self.status_bar(), self.terminal_width)
        &&& clips(self.status_message, self.terminal_width)
    }

    /// Whether the screen can be shown, or need not be.
    pub open spec fn refreshable(self) -> bool {
        &&& self.scroll_offset + self.visible_height() <= usize::MAX
        &&& self.needs_refresh() ==> self.displayable()
    }
}

/// Feeds a number to the fingerprint.
fn write_number(hasher: &mut DefaultHasher, n: usize)
    ensures
        final(hasher)@ == old(hasher)@.push(number_bytes(n as int)),
{
    let bytes = u64_to_le_bytes(n as u64);
    hasher.write(bytes.as_slice());
}

/// Feeds a flag to the fingerprint.
fn write_flag(hasher: &mut DefaultHasher, b: bool)
    ensures
        final(hasher)@ == old(hasher)@.push(flag_bytes(b)),
{
    let mut bytes: Vec<u8> = Vec::new();
    bytes.push(
        if b {
            1
        } else {
            0
        },
    );
    assert(bytes@ =~= flag_bytes(b));
    hasher.write(bytes.as_slice());
}

/// Feeds a text to the fingerprint.
fn write_text(hasher: &mut DefaultHasher, s: &str)
    ensures
        final(hasher)@ == old(hasher)@ + text_writes(s@),
{
    hasher.write(s.as_bytes());
    let mut end: Vec<u8> = Vec::new();
    end.push(0xff);
    assert(end@ =~= seq![0xffu8]);
    hasher.write(end.as_slice());
    assert(hasher@ =~= old(hasher)@ + text_writes(s@));
}

impl Moaremotes {
    /// How many lines of text the terminal shows.
    fn visible_height(&self) -> (n: usize)
        ensures
            n == self@.visible_height(),
    {
        self.terminal_height.saturating_sub(RESERVED_ROWS)
    }

    /// The fingerprint of what the screen shows.
    pub fn hash_screen_state(&self) -> (hash: u64)
        requires
            self@.scroll_offset + self@.visible_height() <= usize::MAX,
        ensures
            hash == self@.screen_hash(),
    {
        let mut hasher = DefaultHasher::new();
        write_number(&mut hasher, self.cursor_row);
        write_number(&mut hasher, self.cursor_col);
        write_number(&mut hasher, self.scroll_offset);
        write_number(&mut hasher, self.duplicates.len());
        write_number(&mut hasher, self.missing_emotes.len());
        write_text(&mut hasher, self.status_message.as_str());
        write_flag(&mut hasher, self.modified);
        write_flag(&mut hasher, self.checking_urls);
        write_number(&mut hasher, self.check_progress.0);
        write_number(&mut hasher, self.check_progress.1);
        let ghost head = hasher@;
        let from: usize = self.scroll_offset;
        let limit: usize = from + self.visible_height();
        let end: usize = if limit < self.lines.len() {
            limit
        } else {
            self.lines.len()
        };
        let mut i: usize = from;
        assert(hasher@ =~= head + self@.row_writes(from as int, from as int));
        while i < end
            invariant
                from <= i,
                i <= end || i == from,
                end <= self.lines.len(),
                hasher@ == head + self@.row_writes(from as int, i as int),
            decreases end - i,
        {
            assert(self@.document.lines[i as int] == self.lines@[i as int]@);
            let ghost before = hasher@;
            write_text(&mut hasher, self.lines[i].as_str());
            write_flag(&mut hasher, self.duplicates.contains(&i));
            write_flag(&mut hasher, self.missing_emotes.contains(&i));
            assert(hasher@ =~= head + self@.row_writes(from as int, i + 1));
            i += 1;
        }
        assert(self@.row_writes(from as int, i as int) =~= self@.row_writes(
            from as int,
            self@.visible_end(),
        ));
        assert(hasher@ =~= self@.screen_writes());
        hasher.finish()
    }

    /// Where the view has to start so that the cursor can be seen.
    fn adjusted_scroll(&self) -> (offset: usize)
        requires
            self@.scrollable(),
        ensures
            offset == self@.adjust_scroll().scroll_offset,
    {
        let visible_height: usize = self.visible_height();
        if self.cursor_row < self.scroll_offset {
            self.cursor_row
        } else if self.cursor_row >= self.scroll_offset + visible_height {
            self.cursor_row - visible_height + 1
        } else {
            self.scroll_offset
        }
    }

    /// Scrolls, by as little as possible, so that the cursor can be seen.
    pub fn adjust_scroll(&mut self)
        requires
            old(self)@.scrollable(),
        ensures
            final(self)@ == old(self)@.adjust_scroll(),
    {
        self.scroll_offset = self.adjusted_scroll();
    }

    /// The status bar.
    fn status_bar(&self) -> (bar: String)
        requires
            self@.countable(),
        ensures
            bar@ == self@.status_bar(),
    {
        let mut bar = " ".to_owned();
        bar.append(self.filename.as_str());
        if self.modified {
            bar.append("*");
        } else {
            bar.append("");
        }
        bar.append("  row: ");
        push_decimal(&mut bar, self.cursor_row + 1);
        bar.append(" col: ");
        push_decimal(&mut bar, self.cursor_col + 1);
        if self.checking_urls {
            bar.append("  checking... ");
            push_decimal(&mut bar, self.check_progress.0);
            bar.append("/");
            push_decimal(&mut bar, self.check_progress.1);
            bar.append(" (");
            push_decimal(&mut bar, self.missing_emotes.len());
            bar.append(" missing)  ");
        } else {
            bar.append("  dup: ");
            push_decimal(&mut bar, self.duplicates.len());
            bar.append(" 404: ");
            push_decimal(&mut bar, self.missing_emotes.len());
            bar.append("  F1: help | F2: save | F10: quit  ");
        }
        bar
    }

    /// Whether the screen can be shown.
    pub fn is_displayable(&self) -> (b: bool)
        ensures
            b == self@.displayable(),
    {
        let visible_height: usize = self.visible_height();
        if self.scroll_offset > usize::MAX - visible_height || self.cursor_row == usize::MAX
            || self.cursor_col > usize::MAX - 6 || self.terminal_height == 0 {
            return false;
        }
        let bar = self.status_bar();
        if !can_clip(bar.as_str(), self.terminal_width) || !can_clip(
            self.status_message.as_str(),
            self.terminal_width,
        ) {
            return false;
        }
        let width: usize = self.terminal_width.saturating_sub(RESERVED_COLUMNS);
        let from: usize = self.adjusted_scroll();
        let ghost shown = self@.adjust_scroll();
        let mut i: usize = 0;
        while i < visible_height && from + i < self.lines.len()
            invariant
                shown == self@.adjust_scroll(),
                from == shown.scroll_offset,
                visible_height == shown.visible_height() == self@.visible_height(),
                from + visible_height <= usize::MAX,
                width == self@.line_width(),
                i <= visible_height,
                from + i <= self.lines.len() || i == 0,
                forall|row: int|
                    from <= row < from + i ==> clips(
                        #[trigger] self@.document.lines[row],
                        self@.line_width(),
                    ),
            decreases visible_height - i,
        {
            let row: usize = from + i;
            assert(self@.document.lines[row as int] == self.lines@[row as int]@);
            if !can_clip(self.lines[row].as_str(), width) {
                assert(shown.scroll_offset <= row < shown.visible_end());
                return false;
            }
            i += 1;
        }
        true
    }

    /// Writes row `row` of the text as it is shown.
    fn push_line(&self, output: &mut String, row: usize)
        requires
            row < self.lines.len(),
            clips(self@.document.lines[row as int], self@.line_width()),
        ensures
            final(output)@ == old(output)@ + self@.line_text(row as int),
    {
        assert(self@.document.lines[row as int] == self.lines@[row as int]@);
        let display_line = clip(
            self.lines[row].as_str(),
            self.terminal_width.saturating_sub(RESERVED_COLUMNS),
        );
        let mut line = "\x1b[90m".to_owned();
        push_padded(&mut line, row + 1, 4);
        line.append(" \x1b[0m");
        let mut shown = String::new();
        if self.duplicates.contains(&row) {
            shown.append("\x1b[41m\x1b[37m");
            shown.append(display_line);
            shown.append("\x1b[0m ← DUPLICATE");
            assert(shown@ =~= "\x1b[41m\x1b[37m"@ + display_line@ + "\x1b[0m ← DUPLICATE"@);
        } else if self.missing_emotes.contains(&row) {
            shown.append("\x1b[45m\x1b[37m");
            shown.append(display_line);
            shown.append("\x1b[0m ← MISSING/404");
            assert(shown@ =~= "\x1b[45m\x1b[37m"@ + display_line@ + "\x1b[0m ← MISSING/404"@);
        } else {
            shown.append(display_line);
            assert(shown@ =~= display_line@);
        }
        line.append(shown.as_str());
        output.append(line.as_str());
    }

    /// Scrolls to the cursor and gives back the screen to be written.
    pub fn force_refresh_screen(&mut self) -> (output: String)
        requires
            old(self)@.displayable(),
        ensures
            final(self)@ == old(self)@.adjust_scroll(),
            output@ == final(self)@.screen_text(),
    {
        self.adjust_scroll();
        let visible_height: usize = self.visible_height();
        let mut output = "\x1b[2J\x1b[H".to_owned();
        let mut i: usize = 0;
        assert(output@ =~= "\x1b[2J\x1b[H"@ + self@.rows_text(0));
        while i < visible_height
            invariant
                i <= visible_height,
                visible_height == self@.visible_height(),
                self@ == old(self)@.adjust_scroll(),
                old(self)@.displayable(),
                output@ == "\x1b[2J\x1b[H"@ + self@.rows_text(i as int),
            decreases visible_height - i,
        {
            let ghost before = output@;
            let line_idx: usize = self.scroll_offset + i;
            if line_idx < self.lines.len() {
                assert(self@.scroll_offset <= line_idx < self@.visible_end());
                self.push_line(&mut output, line_idx);
            } else {
                output.append("\x1b[34m~\x1b[0m");
            }
            if i < visible_height - 1 {
                output.append("\r\n");
            }
            assert(output@ =~= before + self@.row_text(i as int));
            assert(output@ =~= "\x1b[2J\x1b[H"@ + self@.rows_text(i + 1));
            i += 1;
        }
        output.append("\x1b[");
        push_decimal(&mut output, self.terminal_height - 1);
        output.append(";1H");
        output.append("\x1b[100m\x1b[37m");
        let status = self.status_bar();
        let status_display = clip(status.as_str(), self.terminal_width);
        output.append(status_display);
        let used: usize = len_in_bytes(status_display);
        let ghost before = output@;
        if used < self.terminal_width {
            push_spaces(&mut output, self.terminal_width - used);
        }
        assert(output@ =~= before + spaces(self.terminal_width - used));
        output.append("\x1b[0m");
        output.append("\x1b[");
        push_decimal(&mut output, self.terminal_height);
        output.append(";1H\x1b[2K");
        output.append(clip(self.status_message.as_str(), self.terminal_width));
        let screen_row: usize = self.cursor_row.saturating_sub(self.scroll_offset) + 1;
        output.append("\x1b[");
        push_decimal(&mut output, screen_row);
        output.append(";");
        push_decimal(&mut output, self.cursor_col + 6);
        output.append("H");
        output
    }

    /// Whether the screen can be shown, or need not be.
    pub fn can_refresh(&self) -> (b: bool)
        ensures
            b == self@.refreshable(),
    {
        let visible_height: usize = self.visible_height();
        if self.scroll_offset > usize::MAX - visible_height {
            return false;
        }
        let current_hash: u64 = self.hash_screen_state();
        (current_hash == self.last_screen_hash && !self.checking_urls) || self.is_displayable()
    }

    /// The screen to be written, where it is not the one that the terminal shows already.
    pub fn refresh_screen(&mut self) -> (frame: Option<Frame>)
        requires
            old(self)@.refreshable(),
        ensures
            match frame {
                Some(painted) => {
                    &&& old(self)@.needs_refresh()
                    &&& final(self)@ == old(self)@.adjust_scroll()
                    &&& painted.output@ == final(self)@.screen_text()
                    &&& painted.hash == old(self)@.screen_hash()
                },
                None => !old(self)@.needs_refresh() && final(self)@ == old(self)@,
            },
    {
        let current_hash: u64 = self.hash_screen_state();
        if current_hash == self.last_screen_hash && !self.checking_urls {
            return None;
        }
        let output = self.force_refresh_screen();
        Some(Frame { output, hash: current_hash })
    }

    /// Takes note that a screen with this fingerprint has been written.
    pub fn screen_written(&mut self, hash: u64)
        ensures
            final(self)@ == (EditorView { last_screen_hash: hash, ..old(self)@ }),
    {
        self.last_screen_hash = hash;
    }

    /// Shows what the function keys do.
    pub fn show_help(&mut self)
        ensures
            final(self)@ == old(self)@.says(help_text()),
    {
        self.status_message =
        "F2: save | F10: quit | F3: remove dupes | F4: check 404 | F5: remove missing | F6: load".to_owned();
    }
}

/// What the function keys do.
pub open spec fn help_text() -> Seq<char> {
    "F2: save | F10: quit | F3: remove dupes | F4: check 404 | F5: remove missing | F6: load"@
}

/// Whether cutting `s` down to `width` bytes does not cut a character in two.
fn can_clip(s: &str, width: usize) -> (b: bool)
    ensures
        b == clips(s@, width as int),
{
    len_in_bytes(s) <= width || is_boundary(s, width)
}

} // verus!

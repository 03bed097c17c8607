//! The line editor: an editable buffer with a cursor, a history of submitted
//! queries, and the output and status texts of the session.
//!
//! The editor is specified over [`AppView`], in which the cursor is a
//! position between characters. The executable state keeps it as a byte
//! offset into the buffer, and every operation keeps that offset on a
//! character boundary.

use vstd::prelude::*;
use vstd::string::*;
use crate::text::{is_blank, is_whitespace, lemma_blank, replace_range, texts};
use crate::utf8::{
    byte_len, byte_offset, char_index, lemma_boundary_in_range, lemma_boundary_is_offset,
    lemma_char_index_of_offset, lemma_encode_single, lemma_ends_on_boundary,
    lemma_offset_increasing, lemma_offset_on_boundary, lemma_snap_down, lemma_snap_up,
    lemma_splice, lemma_subrange, next_char_boundary, on_boundary, prev_char_boundary, snap_down, snap_up,
    str_byte_len, substring,
};

verus! {

/// What an editor holds, as mathematical values.
pub struct AppView {
    /// The text being edited.
    pub input: Seq<char>,
    /// Number of characters to the left of the cursor.
    pub cursor: int,
    /// The last rendered result or error.
    pub output: Seq<char>,
    /// The status line.
    pub status: Seq<char>,
    /// The submitted queries, oldest first.
    pub history: Seq<Seq<char>>,
    /// The history entry on display, if the history is being browsed.
    pub history_index: Option<int>,
    /// Whether results are shown as JSON text rather than as a table.
    pub json_output: bool,
}

/// The status line of a fresh session.
pub open spec fn initial_status() -> Seq<char> {
    "Enter SQL and press Enter. Ctrl+C to exit."@
}

impl AppView {
    /// The state of a fresh session.
    pub open spec fn initial(json_output: bool) -> AppView {
        AppView {
            input: Seq::empty(),
            cursor: 0,
            output: Seq::empty(),
            status: initial_status(),
            history: Seq::empty(),
            history_index: None,
            json_output,
        }
    }

    /// The cursor lies within the text, a browsing index within the history,
    /// and the history holds no blank entry and no entry twice in a row.
    pub open spec fn wf(self) -> bool {
        &&& 0 <= self.cursor <= self.input.len()
        &&& (self.history_index matches Some(i) ==> 0 <= i < self.history.len())
        &&& forall|i: int| 0 <= i < self.history.len() ==> !is_blank(#[trigger] self.history[i])
        &&& forall|i: int|
            0 < i < self.history.len() ==> self.history[i - 1] != #[trigger] self.history[i]
    }

    /// Byte offset of the cursor in the encoded text.
    pub open spec fn cursor_offset(self) -> int {
        byte_offset(self.input, self.cursor)
    }

    /// The character is inserted at the cursor, and the cursor moves past it.
    pub open spec fn insert_char(self, ch: char) -> AppView {
        AppView {
            input: self.input.insert(self.cursor, ch),
            cursor: self.cursor + 1,
            history_index: None,
            ..self
        }
    }

    /// The character before the cursor is removed; at the start of the text
    /// nothing changes.
    pub open spec fn backspace(self) -> AppView {
        if self.cursor <= 0 {
            self
        } else {
            AppView {
                input: self.input.remove(self.cursor - 1),
                cursor: self.cursor - 1,
                history_index: None,
                ..self
            }
        }
    }

    /// The character at the cursor is removed; at the end of the text
    /// nothing changes.
    pub open spec fn delete(self) -> AppView {
        if self.cursor >= self.input.len() {
            self
        } else {
            AppView { input: self.input.remove(self.cursor), history_index: None, ..self }
        }
    }

    /// The cursor moves one character to the left, if it can.
    pub open spec fn move_left(self) -> AppView {
        if self.cursor <= 0 {
            self
        } else {
            AppView { cursor: self.cursor - 1, ..self }
        }
    }

    /// The cursor moves one character to the right, if it can.
    pub open spec fn move_right(self) -> AppView {
        if self.cursor >= self.input.len() {
            self
        } else {
            AppView { cursor: self.cursor + 1, ..self }
        }
    }

    /// The cursor moves to the start of the text.
    pub open spec fn move_home(self) -> AppView {
        AppView { cursor: 0, ..self }
    }

    /// The cursor moves to the end of the text.
    pub open spec fn move_end(self) -> AppView {
        AppView { cursor: self.input.len() as int, ..self }
    }

    /// The text is emptied, and the history is no longer browsed.
    pub open spec fn clear_input(self) -> AppView {
        AppView { input: Seq::empty(), cursor: 0, history_index: None, ..self }
    }

    /// Whether `query` is appended by `push_history`: it is not blank and
    /// differs from the newest entry.
    pub open spec fn accepts(self, query: Seq<char>) -> bool {
        !is_blank(query) && !(self.history.len() > 0 && self.history.last() == query)
    }

    /// The query is appended to the history if it is accepted, and the
    /// history is no longer browsed.
    pub open spec fn push_history(self, query: Seq<char>) -> AppView {
        AppView {
            history: if self.accepts(query) {
                self.history.push(query)
            } else {
                self.history
            },
            history_index: None,
            ..self
        }
    }

    /// The buffer shows history entry `i`, with the cursor at its end.
    pub open spec fn browse(self, i: int) -> AppView {
        AppView {
            input: self.history[i],
            cursor: self.history[i].len() as int,
            history_index: Some(i),
            ..self
        }
    }

    /// The newest entry is shown, or the one before the entry on display;
    /// the oldest entry stays. Without entries nothing changes.
    pub open spec fn history_prev(self) -> AppView {
        if self.history.len() == 0 {
            self
        } else {
            match self.history_index {
                None => self.browse(self.history.len() - 1),
                Some(i) => if i <= 0 {
                    self.browse(0)
                } else {
                    self.browse(i - 1)
                },
            }
        }
    }

    /// The entry after the one on display is shown; past the newest entry
    /// the text is emptied and the history is no longer browsed. Outside
    /// the history nothing changes.
    pub open spec fn history_next(self) -> AppView {
        match self.history_index {
            None => self,
            Some(i) => if i + 1 >= self.history.len() {
                self.clear_input()
            } else {
                self.browse(i + 1)
            },
        }
    }

    /// Byte offset at which a window of `width` bytes would start if it
    /// could split characters: `width` bytes before the cursor, or at the
    /// start of the text where the cursor is nearer to it.
    pub open spec fn window_anchor(self, width: int) -> int {
        if self.cursor_offset() >= width {
            self.cursor_offset() - width
        } else {
            0
        }
    }

    /// Byte offset at which the window starts: its anchor, moved down to a
    /// boundary.
    pub open spec fn window_start(self, width: int) -> int {
        snap_down(self.input, self.window_anchor(width))
    }

    /// Byte offset at which the window ends: `width` bytes after its anchor
    /// or at the end of the text, moved up to a boundary.
    pub open spec fn window_end(self, width: int) -> int {
        let anchor = self.window_anchor(width);
        let len = byte_len(self.input);
        snap_up(
            self.input,
            if anchor + width <= len {
                anchor + width
            } else {
                len
            },
        )
    }

    /// The part of the text that a window of `width` bytes shows.
    pub open spec fn visible_text(self, width: int) -> Seq<char> {
        if width <= 0 {
            Seq::empty()
        } else {
            self.input.subrange(
                char_index(self.input, self.window_start(width)),
                char_index(self.input, self.window_end(width)),
            )
        }
    }

    /// Distance in bytes from the start of the window to the cursor.
    pub open spec fn cursor_column(self, width: int) -> int {
        if width <= 0 {
            0
        } else {
            self.cursor_offset() - self.window_start(width)
        }
    }

    /// The window starts and ends between characters, and the cursor lies
    /// inside it: no further into what is shown than that is long, and no
    /// further than `width` bytes and the three by which the start may have
    /// moved. The window is at most six bytes longer than `width`.
    pub proof fn lemma_window(self, width: int)
        requires
            self.wf(),
            width > 0,
        ensures
            on_boundary(self.input, self.window_start(width)),
            on_boundary(self.input, self.window_end(width)),
            0 <= self.window_start(width) <= self.cursor_offset() <= self.window_end(width)
                <= byte_len(self.input),
            0 <= self.cursor_column(width) <= byte_len(self.visible_text(width)),
            self.cursor_column(width) <= width + 3,
            byte_len(self.visible_text(width)) == self.window_end(width) - self.window_start(
                width,
            ),
            byte_len(self.visible_text(width)) <= width + 6,
    {
        let s = self.input;
        let c = self.cursor_offset();
        lemma_offset_on_boundary(s, self.cursor);
        lemma_boundary_in_range(s, c);
        lemma_ends_on_boundary(s);
        let anchor = self.window_anchor(width);
        lemma_snap_down(s, anchor);
        let len = byte_len(s);
        let target = if anchor + width <= len {
            anchor + width
        } else {
            len
        };
        lemma_snap_up(s, target);
        lemma_subrange(s, self.window_start(width), self.window_end(width));
    }
}

/// An operation of the editor on buffer and cursor.
pub enum Edit {
    Insert(char),
    Backspace,
    Delete,
    MoveLeft,
    MoveRight,
    MoveHome,
    MoveEnd,
}

impl AppView {
    /// The state after one operation.
    pub open spec fn apply(self, edit: Edit) -> AppView {
        match edit {
            Edit::Insert(ch) => self.insert_char(ch),
            Edit::Backspace => self.backspace(),
            Edit::Delete => self.delete(),
            Edit::MoveLeft => self.move_left(),
            Edit::MoveRight => self.move_right(),
            Edit::MoveHome => self.move_home(),
            Edit::MoveEnd => self.move_end(),
        }
    }

    /// The state after a sequence of operations.
    pub open spec fn apply_all(self, edits: Seq<Edit>) -> AppView
        decreases edits.len(),
    {
        if edits.len() == 0 {
            self
        } else {
            self.apply_all(edits.drop_last()).apply(edits.last())
        }
    }

    /// The state after `history_next` has been applied `n` times.
    pub open spec fn history_next_times(self, n: nat) -> AppView
        decreases n,
    {
        if n == 0 {
            self
        } else {
            self.history_next().history_next_times((n - 1) as nat)
        }
    }

    /// Every operation keeps a well-formed state well formed, and leaves
    /// the cursor on a character boundary of the buffer.
    pub proof fn lemma_apply_wf(self, edit: Edit)
        requires
            self.wf(),
        ensures
            self.apply(edit).wf(),
            on_boundary(self.apply(edit).input, self.apply(edit).cursor_offset()),
    {
        let after = self.apply(edit);
        lemma_offset_on_boundary(after.input, after.cursor);
    }

    /// After any sequence of insertions, removals and cursor moves on an
    /// empty buffer, the byte offset of the cursor is a character boundary
    /// of the buffer.
    pub proof fn lemma_cursor_on_boundary(json_output: bool, edits: Seq<Edit>)
        ensures
            AppView::initial(json_output).apply_all(edits).wf(),
            on_boundary(
                AppView::initial(json_output).apply_all(edits).input,
                AppView::initial(json_output).apply_all(edits).cursor_offset(),
            ),
        decreases edits.len(),
    {
        if edits.len() > 0 {
            let before = AppView::initial(json_output).apply_all(edits.drop_last());
            AppView::lemma_cursor_on_boundary(json_output, edits.drop_last());
            before.lemma_apply_wf(edits.last());
        }
    }

    /// Adding a query keeps the state well formed: the history gets no
    /// blank entry and no entry twice in a row.
    pub proof fn lemma_push_history_wf(self, query: Seq<char>)
        requires
            self.wf(),
        ensures
            self.push_history(query).wf(),
    {
    }

    /// A query with a character that is no whitespace is added unless it
    /// repeats the newest entry; a query of whitespace alone is never added.
    pub proof fn lemma_accepts(self, query: Seq<char>)
        ensures
            (exists|i: int| 0 <= i < query.len() && !is_whitespace(#[trigger] query[i]))
                ==> (self.accepts(query) <==> !(self.history.len() > 0 && self.history.last()
                == query)),
            (forall|i: int| 0 <= i < query.len() ==> is_whitespace(#[trigger] query[i]))
                ==> !self.accepts(query),
    {
        lemma_blank(query);
    }

    /// A query that is submitted twice in a row is added once.
    pub proof fn lemma_push_history_twice(self, query: Seq<char>)
        requires
            !is_blank(query),
        ensures
            self.push_history(query).push_history(query).history == self.push_history(
                query,
            ).history,
            self.push_history(query).history.last() == query,
            self.history.len() == 0 ==> self.push_history(query).push_history(query).history
                == seq![query],
    {
    }

    /// From outside the history, `history_prev` shows the newest entry.
    pub proof fn lemma_history_prev_selects_last(self)
        requires
            self.history_index is None,
            self.history.len() > 0,
        ensures
            self.history_prev().history_index == Some(self.history.len() - 1),
            self.history_prev().input == self.history.last(),
    {
    }

    /// While entry `i` of `n` is on display, `n - i` steps of
    /// `history_next` lead out of the history, to an empty buffer.
    pub proof fn lemma_history_next_leaves(self, i: int)
        requires
            self.wf(),
            self.history_index == Some(i),
        ensures
            self.history_next_times((self.history.len() - i) as nat).history_index is None,
            self.history_next_times((self.history.len() - i) as nat).input
                == Seq::<char>::empty(),
            self.history_next_times((self.history.len() - i) as nat).cursor == 0,
        decreases self.history.len() - i,
    {
        let next = self.history_next();
        if i + 1 >= self.history.len() {
            assert(next.history_next_times(0) == next);
        } else {
            next.lemma_history_next_leaves(i + 1);
        }
    }
}

/// A rectangle of terminal cells.
#[derive(Clone, Copy, Debug, PartialEq, Eq)]
pub struct Area {
    pub x: u16,
    pub y: u16,
    pub width: u16,
    pub height: u16,
}

impl Area {
    /// The width that is left inside a border of one cell on either side.
    pub open spec fn inner_width(self) -> int {
        if self.width >= 2 {
            self.width - 2
        } else {
            0
        }
    }

    /// The cell that lies `column` cells into the first line inside the
    /// border, as far as 16 bits can name it.
    pub open spec fn spec_cursor_position(self, column: u16) -> (u16, u16) {
        (
            if self.x + 1 + column <= u16::MAX {
                (self.x + 1 + column) as u16
            } else {
                u16::MAX
            },
            if self.y + 1 <= u16::MAX {
                (self.y + 1) as u16
            } else {
                u16::MAX
            },
        )
    }

    /// The cell that lies `column` cells into the first line inside the
    /// border; a coordinate that 16 bits cannot hold stops at the largest
    /// that they can.
    pub fn cursor_position(&self, column: u16) -> (position: (u16, u16))
        ensures
            position == self.spec_cursor_position(column),
    {
        (self.x.saturating_add(1).saturating_add(column), self.y.saturating_add(1))
    }
}

/// The editor and the texts of the session.
pub struct App {
    input: String,
    cursor: usize,
    output: String,
    status: String,
    history: Vec<String>,
    history_index: Option<usize>,
    json_output: bool,
}

impl View for App {
    type V = AppView;

    closed spec fn view(&self) -> AppView {
        AppView {
            input: self.input@,
            cursor: char_index(self.input@, self.cursor as int),
            output: self.output@,
            status: self.status@,
            history: texts(self.history@),
            history_index: match self.history_index {
                Some(i) => Some(i as int),
                None => None,
            },
            json_output: self.json_output,
        }
    }
}

impl App {
    /// The byte offset that the cursor is kept as.
    pub closed spec fn cursor_byte(&self) -> int {
        self.cursor as int
    }

    /// The invariant of the editor: the cursor is a byte offset on a
    /// character boundary of the buffer, and the view is well formed.
    pub closed spec fn wf(&self) -> bool {
        &&& on_boundary(self.input@, self.cursor as int)
        &&& self@.wf()
    }

    /// What the invariant says in terms of the view.
    pub proof fn lemma_wf(&self)
        requires
            self.wf(),
        ensures
            self@.wf(),
            on_boundary(self@.input, self.cursor_byte()),
            self.cursor_byte() == self@.cursor_offset(),
    {
        lemma_boundary_is_offset(self.input@, self.cursor as int);
    }

    /// A fresh session with an empty buffer and an empty history.
    pub fn new(json_output: bool) -> (app: App)
        ensures
            app.wf(),
            app@ == AppView::initial(json_output),
    {
        let app = App {
            input: String::new(),
            cursor: 0,
            output: String::new(),
            status: "Enter SQL and press Enter. Ctrl+C to exit.".to_owned(),
            history: Vec::new(),
            history_index: None,
            json_output,
        };
        proof {
            assert(app@.history =~= Seq::empty());
        }
        app
    }

    /// Inserts `ch` at the cursor and moves the cursor past it.
    pub fn insert_char(&mut self, ch: char)
        requires
            old(self).wf(),
        ensures
            final(self).wf(),
            final(self)@ == old(self)@.insert_char(ch),
    {
        self.input.insert(self.cursor, ch);
        // The length of the grown buffer bounds the cursor behind the character.
        let grown = str_byte_len(self.input.as_str());
        proof {
            let s = old(self).input@;
            let i = old(self).cursor as int;
            lemma_encode_single(ch);
            lemma_splice(s, i, i, seq![ch], self.input@);
            lemma_boundary_in_range(s, i);
            let k = char_index(s, i);
            assert(s.take(k) + seq![ch] + s.skip(k) =~= s.insert(k, ch));
        }
        self.cursor += ch.len_utf8();
        self.history_index = None;
    }

    /// Removes the character before the cursor, if there is one.
    pub fn backspace(&mut self)
        requires
            old(self).wf(),
        ensures
            final(self).wf(),
            final(self)@ == old(self)@.backspace(),
    {
        if self.cursor == 0 {
            return ;
        }
        let new_cursor = prev_char_boundary(self.input.as_str(), self.cursor);
        replace_range(&mut self.input, new_cursor, self.cursor, "");
        proof {
            let s = old(self).input@;
            let i = old(self).cursor as int;
            let k = char_index(s, i);
            lemma_boundary_is_offset(s, i);
            lemma_char_index_of_offset(s, k - 1);
            lemma_splice(s, new_cursor as int, i, ""@, self.input@);
            assert(""@ =~= Seq::<char>::empty()) by {
                reveal_strlit("");
            }
        }
        self.cursor = new_cursor;
        self.history_index = None;
    }

    /// Removes the character at the cursor, if there is one.
    pub fn delete(&mut self)
        requires
            old(self).wf(),
        ensures
            final(self).wf(),
            final(self)@ == old(self)@.delete(),
    {
        let len = str_byte_len(self.input.as_str());
        proof {
            let s = self.input@;
            let k = char_index(s, self.cursor as int);
            lemma_boundary_is_offset(s, self.cursor as int);
            assert(s.take(s.len() as int) =~= s);
            if k < s.len() {
                lemma_offset_increasing(s, k, s.len() as int);
            }
        }
        if self.cursor >= len {
            return ;
        }
        let next_cursor = next_char_boundary(self.input.as_str(), self.cursor);
        replace_range(&mut self.input, self.cursor, next_cursor, "");
        proof {
            let s = old(self).input@;
            let i = old(self).cursor as int;
            let k = char_index(s, i);
            lemma_char_index_of_offset(s, k + 1);
            lemma_splice(s, i, next_cursor as int, ""@, self.input@);
            assert(""@ =~= Seq::<char>::empty()) by {
                reveal_strlit("");
            }
        }
        self.history_index = None;
    }

    /// Moves the cursor one character to the left, if it is not at the start.
    pub fn move_left(&mut self)
        requires
            old(self).wf(),
        ensures
            final(self).wf(),
            final(self)@ == old(self)@.move_left(),
    {
        if self.cursor == 0 {
            return ;
        }
        proof {
            let s = self.input@;
            let k = char_index(s, self.cursor as int);
            lemma_boundary_is_offset(s, self.cursor as int);
            lemma_char_index_of_offset(s, k - 1);
        }
        self.cursor = prev_char_boundary(self.input.as_str(), self.cursor);
    }

    /// Moves the cursor one character to the right, if it is not at the end.
    pub fn move_right(&mut self)
        requires
            old(self).wf(),
        ensures
            final(self).wf(),
            final(self)@ == old(self)@.move_right(),
    {
        let len = str_byte_len(self.input.as_str());
        proof {
            let s = self.input@;
            let k = char_index(s, self.cursor as int);
            lemma_boundary_is_offset(s, self.cursor as int);
            assert(s.take(s.len() as int) =~= s);
            if k < s.len() {
                lemma_offset_increasing(s, k, s.len() as int);
                lemma_char_index_of_offset(s, k + 1);
            }
        }
        if self.cursor >= len {
            return ;
        }
        self.cursor = next_char_boundary(self.input.as_str(), self.cursor);
    }

    /// Moves the cursor to the start of the buffer.
    pub fn move_home(&mut self)
        requires
            old(self).wf(),
        ensures
            final(self).wf(),
            final(self)@ == old(self)@.move_home(),
    {
        proof {
            lemma_ends_on_boundary(self.input@);
        }
        self.cursor = 0;
    }

    /// Moves the cursor to the end of the buffer.
    pub fn move_end(&mut self)
        requires
            old(self).wf(),
        ensures
            final(self).wf(),
            final(self)@ == old(self)@.move_end(),
    {
        proof {
            let s = self.input@;
            lemma_ends_on_boundary(s);
            lemma_char_index_of_offset(s, s.len() as int);
            assert(s.take(s.len() as int) =~= s);
        }
        self.cursor = str_byte_len(self.input.as_str());
    }

    /// Empties the buffer and leaves history browsing.
    pub fn clear_input(&mut self)
        requires
            old(self).wf(),
        ensures
            final(self).wf(),
            final(self)@ == old(self)@.clear_input(),
    {
        self.input.clear();
        self.cursor = 0;
        self.history_index = None;
    }

    /// Appends `query` to the history unless it is blank or repeats the
    /// newest entry, and leaves history browsing.
    pub fn push_history(&mut self, query: &str)
        requires
            old(self).wf(),
        ensures
            final(self).wf(),
            final(self)@ == old(self)@.push_history(query@),
    {
        self.history_index = None;
        if query.trim().is_empty() {
            return ;
        }
        let entry = query.to_owned();
        let n = self.history.len();
        if n == 0 || self.history[n - 1] != entry {
            self.history.push(entry);
            proof {
                assert(self@.history =~= old(self)@.history.push(query@));
            }
        }
    }

    /// Shows the newest history entry, or the one before the entry on
    /// display; stays on the oldest. Does nothing while the history is empty.
    pub fn history_prev(&mut self)
        requires
            old(self).wf(),
        ensures
            final(self).wf(),
            final(self)@ == old(self)@.history_prev(),
    {
        if self.history.len() == 0 {
            return ;
        }
        let next_index = match self.history_index {
            None => self.history.len() - 1,
            Some(idx) => if idx == 0 {
                0
            } else {
                idx - 1
            },
        };
        self.show_entry(next_index);
    }

    /// Shows the history entry after the one on display; past the newest
    /// entry, leaves browsing with an empty buffer. Does nothing when the
    /// history is not being browsed.
    pub fn history_next(&mut self)
        requires
            old(self).wf(),
        ensures
            final(self).wf(),
            final(self)@ == old(self)@.history_next(),
    {
        let idx = match self.history_index {
            None => {
                return ;
            },
            Some(idx) => idx,
        };
        assert(idx < self.history.len()) by {
            assert(self@.history.len() == self.history@.len());
        }
        let next_index = idx + 1;
        if next_index >= self.history.len() {
            self.history_index = None;
            self.clear_input();
            return ;
        }
        self.show_entry(next_index);
    }

    /// Puts history entry `index` into the buffer, with the cursor at its end.
    fn show_entry(&mut self, index: usize)
        requires
            old(self).wf(),
            index < old(self).history.len(),
        ensures
            final(self).wf(),
            final(self)@ == old(self)@.browse(index as int),
    {
        self.history_index = Some(index);
        self.input = self.history[index].clone();
        self.cursor = str_byte_len(self.input.as_str());
        proof {
            let s = self.input@;
            lemma_ends_on_boundary(s);
            lemma_char_index_of_offset(s, s.len() as int);
            assert(s.take(s.len() as int) =~= s);
        }
    }

    /// The part of the buffer to show in `width` bytes, and the distance in
    /// bytes from its start to the cursor. The window reaches from `width`
    /// bytes before the cursor to the cursor, or over the first `width`
    /// bytes where the cursor lies within them; both ends are moved outward
    /// to a character boundary.
    pub fn visible_window(&self, width: usize) -> (r: (String, usize))
        requires
            self.wf(),
        ensures
            r.0@ == self@.visible_text(width as int),
            r.1 == self@.cursor_column(width as int),
    {
        if width == 0 {
            return (String::new(), 0);
        }
        let text = self.input.as_str();
        let len = str_byte_len(text);
        proof {
            self.lemma_wf();
            self@.lemma_window(width as int);
        }
        let anchor = self.cursor.saturating_sub(width);
        let mut start = anchor;
        while start > 0 && !text.is_char_boundary(start)
            invariant
                start <= anchor,
                snap_down(text@, start as int) == snap_down(text@, anchor as int),
            decreases start,
        {
            start -= 1;
        }
        let mut end = if len - anchor <= width {
            len
        } else {
            anchor + width
        };
        let ghost target = end;
        while end < len && !text.is_char_boundary(end)
            invariant
                end <= len,
                len == byte_len(text@),
                snap_up(text@, end as int) == snap_up(text@, target as int),
            decreases len - end,
        {
            end += 1;
        }
        let visible = substring(text, start, end);
        (visible, self.cursor - start)
    }

    /// What to draw of the buffer inside the bordered box `area`: the window
    /// for the inner width of the box, with the cursor column cut to 16 bits.
    pub fn input_view(&self, area: Area) -> (r: (String, u16))
        requires
            self.wf(),
        ensures
            r.0@ == self@.visible_text(area.inner_width()),
            r.1 == self@.cursor_column(area.inner_width()) % 0x1_0000,
    {
        let available_width: u16 = area.width.saturating_sub(2);
        let (visible, column) = self.visible_window(available_width as usize);
        let wide: u64 = column as u64;
        let cursor_col: u16 = #[verifier::truncate] (wide as u16);
        assert(cursor_col == wide % 0x1_0000) by (bit_vector)
            requires
                cursor_col == wide as u16,
        ;
        (visible, cursor_col)
    }

    /// The text being edited.
    pub fn input(&self) -> (r: &str)
        ensures
            r@ == self@.input,
    {
        self.input.as_str()
    }

    /// The byte offset of the cursor in the buffer.
    pub fn cursor(&self) -> (r: usize)
        ensures
            r == self.cursor_byte(),
    {
        self.cursor
    }

    /// The last rendered result or error.
    pub fn output(&self) -> (r: &str)
        ensures
            r@ == self@.output,
    {
        self.output.as_str()
    }

    /// The status line.
    pub fn status(&self) -> (r: &str)
        ensures
            r@ == self@.status,
    {
        self.status.as_str()
    }

    /// The submitted queries, oldest first.
    pub fn history(&self) -> (r: &Vec<String>)
        ensures
            texts(r@) == self@.history,
    {
        &self.history
    }

    /// The index of the history entry on display, if any.
    pub fn history_index(&self) -> (r: Option<usize>)
        ensures
            match r {
                Some(i) => self@.history_index == Some(i as int),
                None => self@.history_index is None,
            },
    {
        self.history_index
    }

    /// Whether results are shown as JSON text rather than as a table.
    pub fn json_output(&self) -> (r: bool)
        ensures
            r == self@.json_output,
    {
        self.json_output
    }

    /// Replaces the output text.
    pub fn set_output(&mut self, text: String)
        requires
            old(self).wf(),
        ensures
            final(self).wf(),
            final(self)@ == (AppView { output: text@, ..old(self)@ }),
    {
        self.output = text;
    }

    /// Empties the output text.
    pub fn clear_output(&mut self)
        requires
            old(self).wf(),
        ensures
            final(self).wf(),
            final(self)@ == (AppView { output: Seq::empty(), ..old(self)@ }),
    {
        self.output.clear();
    }

    /// Replaces the status line.
    pub fn set_status(&mut self, text: String)
        requires
            old(self).wf(),
        ensures
            final(self).wf(),
            final(self)@ == (AppView { status: text@, ..old(self)@ }),
    {
        self.status = text;
    }
}

} // verus!

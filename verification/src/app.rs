//! The editor: its buffers, cursors, modes and registers, and the operations
//! that the key handlers are made of.

use vstd::prelude::*;
use vstd::string::*;
use vstd::utf8::*;
use crate::chars::{
    byte_len, floor_boundary, lemma_boundary_zero, lemma_char_start, lemma_text_valid,
    lemma_utf8_concat, on_boundary, utf8,
};
use crate::edit;
use crate::format::{placeholder, response_text, spec_placeholder};
use crate::headers::{collect_headers, header_block, pairs_of, parse_headers, spec_header_block,
    spec_parse_headers};
use crate::http::{Method, Request, RequestView, Response, ResponseView};
use crate::model::AppModel;
use crate::motion;
use crate::text::{
    line_col_to_offset, offset_to_line_col, saturate, spec_line_col_to_offset,
    spec_offset_to_line_col,
};
use crate::words::{lemma_word_backward, lemma_word_forward, word_backward, word_forward};

pub use crate::panel::{Panel, PanelMap};

verus! {

/// The editing mode.
#[derive(Debug, Clone, Copy, PartialEq, Eq, Structural)]
pub enum Mode {
    Normal,
    Insert,
    Command,
    Visual,
}

/// An operator that waits for the key that says what it works on.
#[derive(Debug, Clone, Copy, PartialEq, Eq, Structural)]
pub enum PendingCommand {
    Delete,
    Yank,
    Goto,
}

/// The editor.
pub struct App {
    pub mode: Mode,
    pub active_panel: Panel,
    pub url_buffer: String,
    pub body_buffer: String,
    pub command_buffer: String,
    pub headers_buffer: String,
    pub pending_command: Option<PendingCommand>,
    pub current_request: Request,
    pub last_response: Option<Response>,
    pub response_buffer: String,
    pub cursors: PanelMap<usize>,
    pub scroll_offsets: PanelMap<u16>,
    pub should_quit: bool,
    pub collections: Vec<String>,
    pub yank_register: Option<String>,
    pub visual_anchor: Option<usize>,
    pub selected_collection_index: usize,
}

/// The bytes of a text that may be missing.
pub open spec fn bytes_of_option(text: Option<String>) -> Option<Seq<u8>> {
    match text {
        Some(s) => Some(utf8(s@)),
        None => None,
    }
}

/// The bytes of each text of a list.
pub open spec fn bytes_of_each(list: Seq<String>) -> Seq<Seq<u8>> {
    list.map_values(|s: String| utf8(s@))
}

/// What a response that may be missing holds.
pub open spec fn view_of_option(response: Option<Response>) -> Option<ResponseView> {
    match response {
        Some(r) => Some(r@),
        None => None,
    }
}

/// The state in which the editor starts.
pub open spec fn spec_initial() -> AppModel {
    AppModel {
        mode: Mode::Normal,
        active_panel: Panel::Url,
        url_buffer: utf8("https://api.example.com"@),
        body_buffer: Seq::empty(),
        command_buffer: Seq::empty(),
        headers_buffer: utf8("Content-Type: application/json"@),
        pending_command: None,
        current_request: RequestView {
            method: Method::GET,
            url: Seq::empty(),
            headers: Map::empty(),
            body: Seq::empty(),
        },
        last_response: None,
        response_buffer: spec_placeholder(),
        cursors: PanelMap { sidebar: 0, url: 0, headers: 0, body: 0, response: 0 },
        scroll_offsets: PanelMap { sidebar: 0, url: 0, headers: 0, body: 0, response: 0 },
        should_quit: false,
        collections: seq![utf8("My Requests"@), utf8("API Tests"@)],
        yank_register: None,
        visual_anchor: None,
        selected_collection_index: 0,
    }
}

impl View for App {
    type V = AppModel;

    open spec fn view(&self) -> AppModel {
        AppModel {
            mode: self.mode,
            active_panel: self.active_panel,
            url_buffer: utf8(self.url_buffer@),
            body_buffer: utf8(self.body_buffer@),
            command_buffer: utf8(self.command_buffer@),
            headers_buffer: utf8(self.headers_buffer@),
            pending_command: self.pending_command,
            current_request: self.current_request@,
            last_response: view_of_option(self.last_response),
            response_buffer: utf8(self.response_buffer@),
            cursors: self.cursors,
            scroll_offsets: self.scroll_offsets,
            should_quit: self.should_quit,
            collections: bytes_of_each(self.collections@),
            yank_register: bytes_of_option(self.yank_register),
            visual_anchor: self.visual_anchor,
            selected_collection_index: self.selected_collection_index,
        }
    }
}

impl Default for App {
    fn default() -> (r: Self)
        ensures
            r@ == spec_initial(),
            r@.wf(),
    {
        App::new()
    }
}

impl App {
    /// The editor as it starts: in normal mode, with the focus on the URL.
    pub fn new() -> (r: Self)
        ensures
            r@ == spec_initial(),
            r@.wf(),
    {
        let mut collections: Vec<String> = Vec::new();
        collections.push("My Requests".to_owned());
        collections.push("API Tests".to_owned());
        let r = App {
            mode: Mode::Normal,
            active_panel: Panel::Url,
            url_buffer: "https://api.example.com".to_owned(),
            body_buffer: String::new(),
            command_buffer: String::new(),
            headers_buffer: "Content-Type: application/json".to_owned(),
            pending_command: None,
            current_request: Request::default(),
            last_response: None,
            response_buffer: placeholder(),
            cursors: PanelMap { sidebar: 0, url: 0, headers: 0, body: 0, response: 0 },
            scroll_offsets: PanelMap { sidebar: 0, url: 0, headers: 0, body: 0, response: 0 },
            should_quit: false,
            collections,
            yank_register: None,
            visual_anchor: None,
            selected_collection_index: 0,
        };
        proof {
            assert(bytes_of_each(r.collections@) =~= spec_initial().collections);
            assert(utf8(r.body_buffer@) =~= Seq::<u8>::empty());
            assert(utf8(r.command_buffer@) =~= Seq::<u8>::empty());
            r.lemma_zero_is_boundary();
        }
        r
    }

    /// Offset 0 is a character boundary of every text of the editor.
    pub proof fn lemma_zero_is_boundary(self)
        ensures
            forall|p: Panel| on_boundary(#[trigger] self@.text_of(p), 0),
    {
        assert forall|p: Panel| on_boundary(#[trigger] self@.text_of(p), 0) by {
            encode_utf8_valid_utf8(self.url_buffer@);
            encode_utf8_valid_utf8(self.headers_buffer@);
            encode_utf8_valid_utf8(self.body_buffer@);
            encode_utf8_valid_utf8(self.response_buffer@);
            lemma_boundary_zero(utf8(self.url_buffer@));
            lemma_boundary_zero(utf8(self.headers_buffer@));
            lemma_boundary_zero(utf8(self.body_buffer@));
            lemma_boundary_zero(utf8(self.response_buffer@));
        }
    }

    /// The text of the response panel.
    pub fn response_text(&self) -> (r: &str)
        ensures
            r.spec_bytes() == self@.response_buffer,
    {
        self.response_buffer.as_str()
    }

    /// Replaces the names of the collections.
    pub fn set_collections(&mut self, collections: Vec<String>)
        ensures
            final(self)@ == (AppModel { collections: bytes_of_each(collections@), ..old(self)@ }),
    {
        self.collections = collections;
    }

    /// Makes the text of the response panel anew from the last response.
    pub fn update_response_buffer(&mut self)
        ensures
            final(self)@ == old(self)@.refresh_response(),
            old(self)@.wf() ==> final(self)@.wf(),
    {
        let text = match &self.last_response {
            Some(r) => response_text(r.status, r.body.as_str()),
            None => placeholder(),
        };
        let at = floor_boundary(text.as_str(), self.cursors.get(Panel::Response));
        let anchor = match self.visual_anchor {
            Some(a) => Some(floor_boundary(text.as_str(), a)),
            None => None,
        };
        self.response_buffer = text;
        self.cursors.set(Panel::Response, at);
        self.visual_anchor = anchor;
    }

    /// Changes the mode. Any mode but the command mode empties the command
    /// line.
    pub fn set_mode(&mut self, mode: Mode)
        ensures
            final(self)@ == old(self)@.set_mode(mode),
    {
        self.mode = mode;
        if mode != Mode::Command {
            self.command_buffer = String::new();
            proof {
                assert(utf8(self.command_buffer@) =~= Seq::<u8>::empty());
            }
        }
    }

    /// Changes the mode as a key does: no operator waits any more.
    pub fn switch_mode(&mut self, mode: Mode)
        ensures
            final(self)@ == old(self)@.switch_mode(mode),
    {
        self.set_mode(mode);
        self.pending_command = None;
    }

    /// Gives the focus to `panel`.
    pub fn set_panel(&mut self, panel: Panel)
        ensures
            final(self)@ == old(self)@.set_panel(panel),
    {
        self.active_panel = panel;
    }

    /// The cursor of the focused panel.
    pub fn cursor(&self) -> (r: usize)
        ensures
            r == self@.cursor(),
    {
        self.cursors.get(self.active_panel)
    }

    /// The cursor of `panel`.
    pub fn cursor_of(&self, panel: Panel) -> (r: usize)
        ensures
            r == self@.cursors.at(panel),
    {
        self.cursors.get(panel)
    }

    /// Puts the cursor of `panel` at `pos`, or at the nearest character
    /// boundary of its text at or before `pos`.
    pub fn set_cursor_of(&mut self, panel: Panel, pos: usize)
        ensures
            final(self)@ == old(self)@.set_cursor_of(panel, pos),
            old(self)@.wf() ==> final(self)@.wf(),
            on_boundary(final(self)@.text_of(panel), final(self)@.cursors.at(panel) as int),
    {
        let at = floor_boundary(self.buffer(panel), pos);
        self.cursors.set(panel, at);
    }

    /// Puts the cursor of the focused panel at `pos`, or at the nearest
    /// character boundary of its text at or before `pos`.
    pub fn set_cursor(&mut self, pos: usize)
        ensures
            final(self)@ == old(self)@.set_cursor(pos),
            old(self)@.wf() ==> final(self)@.wf(),
            on_boundary(final(self)@.focus_text(), final(self)@.cursor() as int),
    {
        self.set_cursor_of(self.active_panel, pos);
    }

    /// Brings the first visible line of `panel` to where line `cursor_line`
    /// shows among `visible_rows` lines, by the shortest way.
    pub fn update_scroll(&mut self, panel: Panel, cursor_line: u16, visible_rows: u16)
        ensures
            final(self)@ == old(self)@.update_scroll(panel, cursor_line, visible_rows),
            visible_rows > 0 ==> final(self)@.scroll_offsets.at(panel) <= cursor_line
                < final(self)@.scroll_offsets.at(panel) + visible_rows,
            old(self)@.scroll_offsets.at(panel) <= cursor_line < old(self)@.scroll_offsets.at(panel)
                + visible_rows ==> final(self)@.scroll_offsets == old(self)@.scroll_offsets,
    {
        let scroll: u16 = self.scroll_offsets.get(panel);
        if visible_rows == 0 {
            proof {
                assert(self.scroll_offsets.put(panel, scroll) == self.scroll_offsets);
            }
        } else if cursor_line < scroll {
            self.scroll_offsets.set(panel, cursor_line);
        } else if cursor_line - scroll >= visible_rows {
            self.scroll_offsets.set(panel, cursor_line - visible_rows + 1);
        } else {
            proof {
                assert(self.scroll_offsets.put(panel, scroll) == self.scroll_offsets);
            }
        }
    }

    /// The first visible line of `panel`.
    pub fn scroll_offset(&self, panel: Panel) -> (r: u16)
        ensures
            r == self@.scroll_offsets.at(panel),
    {
        self.scroll_offsets.get(panel)
    }

    /// Makes `cmd` the operator that waits for its motion.
    pub fn set_pending_command(&mut self, cmd: PendingCommand)
        ensures
            final(self)@ == old(self)@.with_pending(Some(cmd)),
    {
        self.pending_command = Some(cmd);
    }

    /// Lets no operator wait.
    pub fn clear_pending_command(&mut self)
        ensures
            final(self)@ == old(self)@.with_pending(None),
    {
        self.pending_command = None;
    }

    /// Puts `register` into the yank register.
    pub fn set_yank_register(&mut self, register: String)
        ensures
            final(self)@ == old(self)@.with_register(utf8(register@)),
    {
        self.yank_register = Some(register);
    }

    /// Asks the caller to stop.
    pub fn quit(&mut self)
        ensures
            final(self)@ == old(self)@.quit(),
    {
        self.should_quit = true;
    }

    /// The text of `panel`.
    pub fn buffer(&self, panel: Panel) -> (r: &str)
        ensures
            r.spec_bytes() == self@.text_of(panel),
    {
        match panel {
            Panel::Url => self.url_buffer.as_str(),
            Panel::Headers => self.headers_buffer.as_str(),
            Panel::Body => self.body_buffer.as_str(),
            Panel::Response => self.response_buffer.as_str(),
            Panel::Sidebar => {
                proof {
                    reveal_strlit("");
                    assert(""@ =~= Seq::<char>::empty());
                    assert(utf8(""@) =~= Seq::<u8>::empty());
                }
                ""
            },
        }
    }

    /// The text of the focused panel.
    pub fn current_buffer(&self) -> (r: &str)
        ensures
            r.spec_bytes() == self@.focus_text(),
    {
        self.buffer(self.active_panel)
    }

    /// The text of `panel`, to be changed in place, where the panel can be
    /// edited. The cursor is not touched: after a change,
    /// [`App::set_cursor_of`] brings it back into the text.
    pub fn buffer_mut(&mut self, panel: Panel) -> (r: Option<&mut String>)
        ensures
            match r {
                Some(text) => {
                    &&& panel.spec_editable()
                    &&& utf8((*text)@) == old(self)@.text_of(panel)
                    &&& final(self)@ == old(self)@.with_text(panel, utf8((*final(text))@))
                },
                None => !panel.spec_editable() && final(self)@ == old(self)@,
            },
    {
        match panel {
            Panel::Url => Some(&mut self.url_buffer),
            Panel::Headers => Some(&mut self.headers_buffer),
            Panel::Body => Some(&mut self.body_buffer),
            _ => None,
        }
    }

    /// The text of the focused panel, to be changed in place, where the panel
    /// can be edited. The cursor is not touched: after a change,
    /// [`App::set_cursor`] brings it back into the text.
    pub fn current_buffer_mut(&mut self) -> (r: Option<&mut String>)
        ensures
            match r {
                Some(text) => {
                    &&& old(self)@.active_panel.spec_editable()
                    &&& utf8((*text)@) == old(self)@.focus_text()
                    &&& final(self)@ == old(self)@.with_text(
                        old(self)@.active_panel,
                        utf8((*final(text))@),
                    )
                },
                None => !old(self)@.active_panel.spec_editable() && final(self)@ == old(self)@,
            },
    {
        match self.active_panel {
            Panel::Url => Some(&mut self.url_buffer),
            Panel::Headers => Some(&mut self.headers_buffer),
            Panel::Body => Some(&mut self.body_buffer),
            _ => None,
        }
    }

    /// The headers that the header block holds, in the order of its lines.
    pub fn parsed_headers(&self) -> (r: Vec<(String, String)>)
        ensures
            pairs_of(r@) == spec_parse_headers(self@.headers_buffer),
    {
        parse_headers(self.headers_buffer.as_str())
    }

    /// Line and column of the byte offset `cursor` in `buffer`.
    pub fn cursor_to_line_col(&self, buffer: &str, cursor: usize) -> (r: (usize, usize))
        ensures
            r.0 == spec_offset_to_line_col(buffer.spec_bytes(), cursor as int).0,
            r.1 == spec_offset_to_line_col(buffer.spec_bytes(), cursor as int).1,
    {
        offset_to_line_col(buffer, cursor)
    }

    /// The byte offset of column `col` in line `line` of `buffer`.
    pub fn line_col_to_cursor(&self, buffer: &str, line: usize, col: usize) -> (r: usize)
        ensures
            r == saturate(spec_line_col_to_offset(buffer.spec_bytes(), line as nat, col as nat)),
    {
        line_col_to_offset(buffer, line, col)
    }

    /// Puts the cursor of the focused panel at `at`.
    fn place(&mut self, at: usize)
        requires
            on_boundary(old(self)@.focus_text(), at as int),
        ensures
            final(self)@ == old(self)@.moved(at as int),
            old(self)@.wf() ==> final(self)@.wf(),
    {
        self.cursors.set(self.active_panel, at);
    }

    /// Moves the cursor one character back.
    pub fn move_left(&mut self)
        ensures
            final(self)@ == old(self)@.left(),
            old(self)@.wf() ==> final(self)@.wf(),
    {
        let at = motion::move_left(self.current_buffer(), self.cursor());
        self.place(at);
    }

    /// Moves the cursor one character ahead.
    pub fn move_right(&mut self)
        ensures
            final(self)@ == old(self)@.right(),
            old(self)@.wf() ==> final(self)@.wf(),
    {
        let at = motion::move_right(self.current_buffer(), self.cursor());
        self.place(at);
    }

    /// Moves the cursor to the line below.
    pub fn move_cursor_down(&mut self)
        ensures
            final(self)@ == old(self)@.down(),
            old(self)@.wf() ==> final(self)@.wf(),
    {
        let at = motion::move_down(self.current_buffer(), self.cursor());
        self.place(at);
    }

    /// Moves the cursor to the line above.
    pub fn move_cursor_up(&mut self)
        ensures
            final(self)@ == old(self)@.up(),
            old(self)@.wf() ==> final(self)@.wf(),
    {
        let at = motion::move_up(self.current_buffer(), self.cursor());
        self.place(at);
    }

    /// Moves the cursor to the beginning of its line.
    pub fn move_line_start(&mut self)
        ensures
            final(self)@ == old(self)@.line_start(),
            old(self)@.wf() ==> final(self)@.wf(),
    {
        let at = motion::move_line_start(self.current_buffer(), self.cursor());
        self.place(at);
    }

    /// Moves the cursor to the end of its line.
    pub fn move_line_end(&mut self)
        ensures
            final(self)@ == old(self)@.line_end(),
            old(self)@.wf() ==> final(self)@.wf(),
    {
        let at = motion::move_line_end(self.current_buffer(), self.cursor());
        self.place(at);
    }

    /// Moves the cursor behind the word at the cursor and the white space that
    /// follows it.
    pub fn move_word_forward(&mut self)
        ensures
            final(self)@ == old(self)@.word_forward(),
            old(self)@.wf() ==> final(self)@.wf(),
    {
        let text = self.current_buffer();
        let from = floor_boundary(text, self.cursor());
        let at = word_forward(text, from);
        proof {
            lemma_text_valid(text);
            if from < text.spec_bytes().len() {
                lemma_word_forward(text.spec_bytes(), from as int);
            }
        }
        self.place(at);
    }

    /// Moves the cursor to the beginning of the word before it.
    pub fn move_word_backwards(&mut self)
        ensures
            final(self)@ == old(self)@.word_backward(),
            old(self)@.wf() ==> final(self)@.wf(),
    {
        let text = self.current_buffer();
        let from = floor_boundary(text, self.cursor());
        let at = word_backward(text, from);
        proof {
            lemma_text_valid(text);
            lemma_boundary_zero(text.spec_bytes());
            if from > 0 {
                lemma_word_backward(text.spec_bytes(), from as int);
            }
        }
        self.place(at);
    }

    /// Moves the cursor to the beginning of the text.
    pub fn move_top(&mut self)
        ensures
            final(self)@ == old(self)@.top(),
            old(self)@.wf() ==> final(self)@.wf(),
    {
        proof {
            self.lemma_zero_is_boundary();
        }
        self.place(0);
    }

    /// Moves the cursor to the beginning of the last line.
    pub fn move_last_line(&mut self)
        ensures
            final(self)@ == old(self)@.last_line(),
            old(self)@.wf() ==> final(self)@.wf(),
    {
        let at = motion::move_last_line(self.current_buffer());
        self.place(at);
    }

    /// Puts `text` in place of the text of the focused panel, and the cursor
    /// at `at`.
    fn replace_focus(&mut self, text: String, at: usize)
        requires
            old(self)@.active_panel.spec_editable(),
            on_boundary(utf8(text@), at as int),
        ensures
            final(self)@ == old(self)@.with_text(old(self)@.active_panel, utf8(text@)).with_cursor(
                old(self)@.active_panel,
                at as int,
            ),
            old(self)@.wf() ==> final(self)@.wf(),
    {
        match self.active_panel {
            Panel::Url => {
                self.url_buffer = text;
            },
            Panel::Headers => {
                self.headers_buffer = text;
            },
            Panel::Body => {
                self.body_buffer = text;
            },
            _ => {},
        }
        self.cursors.set(self.active_panel, at);
    }

    /// Removes the line of the cursor.
    pub fn delete_line(&mut self)
        ensures
            final(self)@ == old(self)@.delete_line(),
            old(self)@.wf() ==> final(self)@.wf(),
    {
        if self.active_panel.editable() {
            let (text, at) = edit::remove_line(self.current_buffer(), self.cursor());
            self.replace_focus(text, at);
        }
    }

    /// Removes what stands between the cursor and the end of its line.
    pub fn delete_to_line_end(&mut self)
        ensures
            final(self)@ == old(self)@.delete_to_line_end(),
            old(self)@.wf() ==> final(self)@.wf(),
    {
        if self.active_panel.editable() {
            let at = floor_boundary(self.current_buffer(), self.cursor());
            let text = edit::truncate_line(self.current_buffer(), self.cursor());
            self.replace_focus(text, at);
        }
    }

    /// Copies the line of the cursor into the yank register.
    pub fn yank_line(&mut self)
        ensures
            final(self)@ == old(self)@.yank_line(),
            old(self)@.wf() ==> final(self)@.wf(),
    {
        let line = edit::line_at(self.current_buffer(), self.cursor());
        self.yank_register = Some(line);
    }

    /// Copies what stands between the cursor and the end of its line into the
    /// yank register.
    pub fn yank_to_line_end(&mut self)
        ensures
            final(self)@ == old(self)@.yank_to_line_end(),
            old(self)@.wf() ==> final(self)@.wf(),
    {
        let rest = edit::line_rest(self.current_buffer(), self.cursor());
        self.yank_register = Some(rest);
    }

    /// Puts what the yank register holds behind the line of the cursor.
    pub fn paste(&mut self)
        ensures
            final(self)@ == old(self)@.paste(),
            old(self)@.wf() ==> final(self)@.wf(),
    {
        if self.active_panel.editable() {
            let put = match &self.yank_register {
                Some(line) => Some(
                    edit::insert_line_after(self.current_buffer(), self.cursor(), line.as_str()),
                ),
                None => None,
            };
            match put {
                Some((text, at)) => {
                    self.replace_focus(text, at);
                },
                None => {},
            }
        }
    }

    /// Puts `ch` in at the cursor.
    pub fn insert_char(&mut self, ch: char)
        ensures
            final(self)@ == old(self)@.insert_char(ch),
            old(self)@.wf() ==> final(self)@.wf(),
    {
        if self.active_panel.editable() {
            let (text, at) = edit::insert_char(self.current_buffer(), self.cursor(), ch);
            self.replace_focus(text, at);
        }
    }

    /// Puts a line break in at the cursor, in the header block and in the body.
    pub fn insert_newline(&mut self)
        ensures
            final(self)@ == old(self)@.insert_newline(),
            old(self)@.wf() ==> final(self)@.wf(),
    {
        if self.active_panel == Panel::Headers || self.active_panel == Panel::Body {
            self.insert_char('\n');
        }
    }

    /// Removes the character before the cursor.
    pub fn backspace(&mut self)
        ensures
            final(self)@ == old(self)@.backspace(),
            old(self)@.wf() ==> final(self)@.wf(),
    {
        if self.active_panel.editable() {
            let (text, at) = edit::remove_before(self.current_buffer(), self.cursor());
            self.replace_focus(text, at);
        }
    }

    /// Removes the character at the cursor.
    pub fn delete_char(&mut self)
        ensures
            final(self)@ == old(self)@.delete_char(),
            old(self)@.wf() ==> final(self)@.wf(),
    {
        if self.active_panel.editable() {
            let at = floor_boundary(self.current_buffer(), self.cursor());
            let text = edit::remove_at(self.current_buffer(), self.cursor());
            self.replace_focus(text, at);
        }
    }

    /// Puts `ch` at the end of the command line.
    pub fn command_push(&mut self, ch: char)
        ensures
            final(self)@ == old(self)@.command_push(ch),
    {
        let ghost before = self.command_buffer@;
        self.command_buffer.push(ch);
        proof {
            assert(before.push(ch) =~= before + seq![ch]);
            lemma_utf8_concat(before, seq![ch]);
        }
    }

    /// Takes the last character off the command line.
    pub fn command_pop(&mut self)
        ensures
            final(self)@ == old(self)@.command_pop(),
    {
        let n = byte_len(self.command_buffer.as_str());
        let (text, _) = edit::remove_before(self.command_buffer.as_str(), n);
        self.command_buffer = text;
    }

    /// Enters the visual mode, with the selection anchored at the cursor of
    /// the response.
    pub fn enter_visual(&mut self)
        ensures
            final(self)@ == old(self)@.enter_visual(),
            old(self)@.wf() ==> final(self)@.wf(),
    {
        let at = floor_boundary(self.response_buffer.as_str(), self.cursors.get(Panel::Response));
        self.switch_mode(Mode::Visual);
        self.active_panel = Panel::Response;
        self.visual_anchor = Some(at);
    }

    /// Leaves the visual mode without its selection.
    pub fn leave_visual(&mut self)
        ensures
            final(self)@ == old(self)@.leave_visual(),
            old(self)@.wf() ==> final(self)@.wf(),
    {
        self.switch_mode(Mode::Normal);
        self.visual_anchor = None;
    }

    /// The two ends of the selection as byte offsets, the earlier one first.
    pub fn selection_range(&self) -> (r: Option<(usize, usize)>)
        ensures
            match r {
                Some(ends) => {
                    &&& self@.selection_range() == Some((ends.0 as int, ends.1 as int))
                    &&& ends.0 <= ends.1
                    &&& on_boundary(self@.response_buffer, ends.0 as int)
                    &&& on_boundary(self@.response_buffer, ends.1 as int)
                },
                None => self@.selection_range() is None,
            },
    {
        match self.visual_anchor {
            Some(a) => {
                let text = self.response_buffer.as_str();
                let x = floor_boundary(text, a);
                let y = floor_boundary(text, self.cursors.get(Panel::Response));
                if x <= y {
                    Some((x, y))
                } else {
                    Some((y, x))
                }
            },
            None => None,
        }
    }

    /// The selection as a stretch of the response text: the offset at which it
    /// begins and the offset behind its last character.
    pub fn selection_span(&self) -> (r: Option<(usize, usize)>)
        ensures
            match r {
                Some(span) => self@.selection_span() == Some((span.0 as int, span.1 as int)),
                None => self@.selection_span() is None,
            },
    {
        match self.selection_range() {
            Some((from, last)) => {
                proof {
                    encode_utf8_valid_utf8(self.response_buffer@);
                    lemma_char_start(self@.response_buffer, last as int);
                }
                Some((from, motion::move_right(self.response_buffer.as_str(), last)))
            },
            None => None,
        }
    }

    /// Copies what is selected into the yank register and leaves the visual
    /// mode. Gives what was copied.
    pub fn yank_selection(&mut self) -> (r: Option<String>)
        ensures
            final(self)@ == old(self)@.yank_selection(),
            bytes_of_option(r) == old(self)@.selected_text(),
            old(self)@.wf() ==> final(self)@.wf(),
    {
        let picked = match self.visual_anchor {
            Some(a) => Some(
                edit::selection(
                    self.response_buffer.as_str(),
                    a,
                    self.cursors.get(Panel::Response),
                ),
            ),
            None => None,
        };
        let copy = match &picked {
            Some(text) => Some(text.clone()),
            None => None,
        };
        match picked {
            Some(text) => {
                self.yank_register = Some(text);
            },
            None => {},
        }
        self.leave_visual();
        copy
    }

    /// Takes what the transport gave for a request: the response, or `None`
    /// where it failed. The response is shown and gets the focus.
    pub fn receive_response(&mut self, outcome: Option<Response>)
        ensures
            final(self)@ == old(self)@.receive(view_of_option(outcome)),
            old(self)@.wf() ==> final(self)@.wf(),
    {
        let response = match outcome {
            Some(r) => r,
            None => Response::invalid(),
        };
        self.last_response = Some(response);
        self.update_response_buffer();
        self.active_panel = Panel::Response;
    }

    /// Forgets the last response.
    pub fn clear_response(&mut self)
        ensures
            final(self)@ == old(self)@.clear_response(),
            old(self)@.wf() ==> final(self)@.wf(),
    {
        self.last_response = None;
        self.update_response_buffer();
    }

    /// The request that the buffers stand for.
    pub fn build_request(&self) -> (r: Request)
        ensures
            r@ == self@.request(),
    {
        let list = self.parsed_headers();
        Request {
            method: self.current_request.method,
            url: self.url_buffer.clone(),
            headers: collect_headers(&list),
            body: self.body_buffer.clone(),
        }
    }

    /// Puts the URL, the headers and the body of `request` into the buffers.
    /// The header block gets one line for each header.
    pub fn load_request(&mut self, request: &Request)
        ensures
            final(self)@ == old(self)@.loaded(
                request@.url,
                spec_header_block(pairs_of(request.headers.entries())),
                request@.body,
            ),
            old(self)@.wf() ==> final(self)@.wf(),
    {
        let url = request.url.clone();
        let block = header_block(&request.headers);
        let body = request.body.clone();
        let at_url = floor_boundary(url.as_str(), self.cursors.get(Panel::Url));
        let at_block = floor_boundary(block.as_str(), self.cursors.get(Panel::Headers));
        let at_body = floor_boundary(body.as_str(), self.cursors.get(Panel::Body));
        self.url_buffer = url;
        self.headers_buffer = block;
        self.body_buffer = body;
        self.cursors.set(Panel::Url, at_url);
        self.cursors.set(Panel::Headers, at_block);
        self.cursors.set(Panel::Body, at_body);
    }

    /// Selects the next collection, where there is one.
    pub fn select_next_collection(&mut self)
        ensures
            final(self)@ == old(self)@.select_next(),
    {
        let n: usize = self.collections.len();
        if self.selected_collection_index < n && self.selected_collection_index + 1 < n {
            self.selected_collection_index = self.selected_collection_index + 1;
        }
    }

    /// Selects the collection before, where there is one.
    pub fn select_previous_collection(&mut self)
        ensures
            final(self)@ == old(self)@.select_previous(),
    {
        if self.selected_collection_index > 0 {
            self.selected_collection_index = self.selected_collection_index - 1;
        }
    }

    /// The name of the selected collection, where the selection is one of the
    /// collections.
    pub fn selected_collection(&self) -> (r: Option<&str>)
        ensures
            match r {
                Some(name) => self@.selected_collection_index < self@.collections.len()
                    && name.spec_bytes() == self@.collections[self@.selected_collection_index as int],
                None => self@.selected_collection_index >= self@.collections.len(),
            },
    {
        if self.selected_collection_index < self.collections.len() {
            Some(self.collections[self.selected_collection_index].as_str())
        } else {
            None
        }
    }
}

} // verus!

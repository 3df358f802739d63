//! What the editor holds, and what each of its operations makes of it.
//!
//! [`AppModel`] is the state of the editor with every text taken as its UTF-8
//! bytes. The operations are functions from one state to the next; the
//! executable editor in [`crate::app`] is held to them.

use vstd::prelude::*;
use vstd::utf8::*;
use crate::app::{Mode, PendingCommand};
use crate::chars::{char_start, on_boundary, utf8};
use crate::edit::{
    spec_insert_line_after, spec_insert_line_cursor, spec_remove_at, spec_remove_before,
    spec_remove_line, spec_remove_line_cursor, spec_selection, splice,
};
use crate::format::{spec_placeholder, spec_response_text};
use crate::headers::{mapping_of_pairs, spec_parse_headers};
use crate::http::{spec_invalid_response, RequestView, ResponseView};
use crate::motion::{spec_down, spec_left, spec_right, spec_up};
use crate::panel::{Panel, PanelMap};
use crate::text::{line_begin, line_finish};
use crate::words::{spec_word_backward, spec_word_forward};

verus! {

/// The state of the editor.
pub struct AppModel {
    pub mode: Mode,
    pub active_panel: Panel,
    pub url_buffer: Seq<u8>,
    pub body_buffer: Seq<u8>,
    pub command_buffer: Seq<u8>,
    pub headers_buffer: Seq<u8>,
    pub pending_command: Option<PendingCommand>,
    pub current_request: RequestView,
    pub last_response: Option<ResponseView>,
    pub response_buffer: Seq<u8>,
    pub cursors: PanelMap<usize>,
    pub scroll_offsets: PanelMap<u16>,
    pub should_quit: bool,
    pub collections: Seq<Seq<u8>>,
    pub yank_register: Option<Seq<u8>>,
    pub visual_anchor: Option<usize>,
    pub selected_collection_index: usize,
}

/// The first visible line of a panel with `rows` visible lines after the
/// cursor came to `cursor_line`: the nearest one to `scroll` that shows the
/// cursor's line. A panel without visible lines keeps `scroll`.
pub open spec fn spec_scroll(scroll: u16, cursor_line: u16, rows: u16) -> u16 {
    if rows == 0 {
        scroll
    } else if cursor_line < scroll {
        cursor_line
    } else if cursor_line >= scroll + rows {
        (cursor_line - rows + 1) as u16
    } else {
        scroll
    }
}

impl AppModel {
    /// The text of `panel`. The sidebar has none.
    pub open spec fn text_of(self, panel: Panel) -> Seq<u8> {
        match panel {
            Panel::Sidebar => Seq::empty(),
            Panel::Url => self.url_buffer,
            Panel::Headers => self.headers_buffer,
            Panel::Body => self.body_buffer,
            Panel::Response => self.response_buffer,
        }
    }

    /// The text of the panel that has the focus.
    pub open spec fn focus_text(self) -> Seq<u8> {
        self.text_of(self.active_panel)
    }

    /// The cursor of the panel that has the focus, as it is kept.
    pub open spec fn cursor(self) -> usize {
        self.cursors.at(self.active_panel)
    }

    /// The cursor of the panel that has the focus, taken to the nearest
    /// character boundary of its text at or before it.
    pub open spec fn caret(self) -> int {
        char_start(self.focus_text(), self.cursor() as int)
    }

    /// Every cursor, and the anchor of a selection, stands inside its text at a
    /// character boundary.
    pub open spec fn wf(self) -> bool {
        &&& on_boundary(self.text_of(Panel::Sidebar), self.cursors.sidebar as int)
        &&& on_boundary(self.text_of(Panel::Url), self.cursors.url as int)
        &&& on_boundary(self.text_of(Panel::Headers), self.cursors.headers as int)
        &&& on_boundary(self.text_of(Panel::Body), self.cursors.body as int)
        &&& on_boundary(self.text_of(Panel::Response), self.cursors.response as int)
        &&& match self.visual_anchor {
            Some(a) => on_boundary(self.response_buffer, a as int),
            None => true,
        }
    }

    /// The state with `text` as the text of `panel`, where `panel` can be
    /// edited.
    pub open spec fn with_text(self, panel: Panel, text: Seq<u8>) -> AppModel {
        match panel {
            Panel::Url => AppModel { url_buffer: text, ..self },
            Panel::Headers => AppModel { headers_buffer: text, ..self },
            Panel::Body => AppModel { body_buffer: text, ..self },
            _ => self,
        }
    }

    /// The state with the cursor of `panel` at `at`.
    pub open spec fn with_cursor(self, panel: Panel, at: int) -> AppModel {
        AppModel { cursors: self.cursors.put(panel, at as usize), ..self }
    }

    /// The state with the cursor of the focused panel at `at`.
    pub open spec fn moved(self, at: int) -> AppModel {
        self.with_cursor(self.active_panel, at)
    }

    /// The state with `pending` as the operator that waits for its motion.
    pub open spec fn with_pending(self, pending: Option<PendingCommand>) -> AppModel {
        AppModel { pending_command: pending, ..self }
    }

    /// The state with `text` in the yank register.
    pub open spec fn with_register(self, text: Seq<u8>) -> AppModel {
        AppModel { yank_register: Some(text), ..self }
    }

    /// The state in mode `mode`. Any mode but the command mode empties the
    /// command line.
    pub open spec fn set_mode(self, mode: Mode) -> AppModel {
        AppModel {
            mode,
            command_buffer: if mode == Mode::Command {
                self.command_buffer
            } else {
                Seq::empty()
            },
            ..self
        }
    }

    /// The state in mode `mode` after a key changed the mode: no operator waits
    /// any more.
    pub open spec fn switch_mode(self, mode: Mode) -> AppModel {
        self.set_mode(mode).with_pending(None)
    }

    /// The state with the focus on `panel`.
    pub open spec fn set_panel(self, panel: Panel) -> AppModel {
        AppModel { active_panel: panel, ..self }
    }

    /// The state with the cursor of `panel` at `pos`, taken into the text of the
    /// panel and back to a character boundary.
    pub open spec fn set_cursor_of(self, panel: Panel, pos: usize) -> AppModel {
        self.with_cursor(panel, char_start(self.text_of(panel), pos as int))
    }

    /// The state with the cursor of the focused panel at `pos`, taken into the
    /// text and back to a character boundary.
    pub open spec fn set_cursor(self, pos: usize) -> AppModel {
        self.set_cursor_of(self.active_panel, pos)
    }

    /// The state with the first visible line of `panel` brought to where the
    /// line of the cursor shows.
    pub open spec fn update_scroll(self, panel: Panel, cursor_line: u16, rows: u16) -> AppModel {
        AppModel {
            scroll_offsets: self.scroll_offsets.put(
                panel,
                spec_scroll(self.scroll_offsets.at(panel), cursor_line, rows),
            ),
            ..self
        }
    }

    /// The state that asks the caller to stop.
    pub open spec fn quit(self) -> AppModel {
        AppModel { should_quit: true, ..self }
    }

    /// One character back.
    pub open spec fn left(self) -> AppModel {
        self.moved(spec_left(self.focus_text(), self.caret()))
    }

    /// One character ahead.
    pub open spec fn right(self) -> AppModel {
        self.moved(spec_right(self.focus_text(), self.caret()))
    }

    /// To the line below, keeping the column where the line is long enough.
    pub open spec fn down(self) -> AppModel {
        self.moved(spec_down(self.focus_text(), self.caret()))
    }

    /// To the line above, keeping the column where the line is long enough.
    pub open spec fn up(self) -> AppModel {
        self.moved(spec_up(self.focus_text(), self.caret()))
    }

    /// To the beginning of the line.
    pub open spec fn line_start(self) -> AppModel {
        self.moved(line_begin(self.focus_text(), self.caret()))
    }

    /// To the end of the line.
    pub open spec fn line_end(self) -> AppModel {
        self.moved(line_finish(self.focus_text(), self.caret()))
    }

    /// Behind the word at the cursor and the white space that follows it.
    pub open spec fn word_forward(self) -> AppModel {
        self.moved(spec_word_forward(self.focus_text(), self.caret()))
    }

    /// To the beginning of the word before the cursor.
    pub open spec fn word_backward(self) -> AppModel {
        self.moved(spec_word_backward(self.focus_text(), self.caret()))
    }

    /// To the beginning of the text.
    pub open spec fn top(self) -> AppModel {
        self.moved(0)
    }

    /// To the beginning of the last line.
    pub open spec fn last_line(self) -> AppModel {
        self.moved(line_begin(self.focus_text(), self.focus_text().len() as int))
    }

    /// Removes the line of the cursor and puts the cursor at the beginning of
    /// the line that took its place. Only a panel that can be edited changes.
    pub open spec fn delete_line(self) -> AppModel {
        let p = self.active_panel;
        let b = self.focus_text();
        let c = self.caret();
        if p.spec_editable() {
            self.with_text(p, spec_remove_line(b, c)).with_cursor(p, spec_remove_line_cursor(b, c))
        } else {
            self
        }
    }

    /// Removes what stands between the cursor and the end of its line. Only a
    /// panel that can be edited changes.
    pub open spec fn delete_to_line_end(self) -> AppModel {
        let p = self.active_panel;
        let b = self.focus_text();
        let c = self.caret();
        if p.spec_editable() {
            self.with_text(p, splice(b, c, line_finish(b, c), Seq::empty())).with_cursor(p, c)
        } else {
            self
        }
    }

    /// Copies the line of the cursor into the yank register.
    pub open spec fn yank_line(self) -> AppModel {
        let b = self.focus_text();
        let c = self.caret();
        self.with_register(b.subrange(line_begin(b, c), line_finish(b, c)))
    }

    /// Copies what stands between the cursor and the end of its line into the
    /// yank register.
    pub open spec fn yank_to_line_end(self) -> AppModel {
        let b = self.focus_text();
        let c = self.caret();
        self.with_register(b.subrange(c, line_finish(b, c)))
    }

    /// Puts what the yank register holds behind the line of the cursor, as a
    /// line of its own, and the cursor at its beginning. Without anything in
    /// the register, or in a panel that cannot be edited, nothing changes.
    pub open spec fn paste(self) -> AppModel {
        let p = self.active_panel;
        let b = self.focus_text();
        let c = self.caret();
        match self.yank_register {
            Some(line) => if p.spec_editable() {
                self.with_text(p, spec_insert_line_after(b, c, line)).with_cursor(
                    p,
                    spec_insert_line_cursor(b, c),
                )
            } else {
                self
            },
            None => self,
        }
    }

    /// Puts `ch` in at the cursor and the cursor behind it. Only a panel that
    /// can be edited changes.
    pub open spec fn insert_char(self, ch: char) -> AppModel {
        let p = self.active_panel;
        let b = self.focus_text();
        let c = self.caret();
        if p.spec_editable() {
            self.with_text(p, splice(b, c, c, utf8(seq![ch]))).with_cursor(
                p,
                c + utf8(seq![ch]).len(),
            )
        } else {
            self
        }
    }

    /// Puts a line break in at the cursor, in the header block and in the body.
    pub open spec fn insert_newline(self) -> AppModel {
        if self.active_panel == Panel::Headers || self.active_panel == Panel::Body {
            self.insert_char('\n')
        } else {
            self
        }
    }

    /// Removes the character before the cursor and moves the cursor back over
    /// it. Only a panel that can be edited changes.
    pub open spec fn backspace(self) -> AppModel {
        let p = self.active_panel;
        let b = self.focus_text();
        let c = self.caret();
        if p.spec_editable() {
            self.with_text(p, spec_remove_before(b, c)).with_cursor(p, spec_left(b, c))
        } else {
            self
        }
    }

    /// Removes the character at the cursor. Only a panel that can be edited
    /// changes.
    pub open spec fn delete_char(self) -> AppModel {
        let p = self.active_panel;
        let b = self.focus_text();
        let c = self.caret();
        if p.spec_editable() {
            self.with_text(p, spec_remove_at(b, c)).with_cursor(p, c)
        } else {
            self
        }
    }

    /// Puts `ch` at the end of the command line.
    pub open spec fn command_push(self, ch: char) -> AppModel {
        AppModel { command_buffer: self.command_buffer + utf8(seq![ch]), ..self }
    }

    /// Takes the last character off the command line.
    pub open spec fn command_pop(self) -> AppModel {
        AppModel {
            command_buffer: spec_remove_before(
                self.command_buffer,
                self.command_buffer.len() as int,
            ),
            ..self
        }
    }

    /// Enters the visual mode: the focus goes to the response, and the
    /// selection is anchored at its cursor.
    pub open spec fn enter_visual(self) -> AppModel {
        AppModel {
            active_panel: Panel::Response,
            visual_anchor: Some(
                char_start(self.response_buffer, self.cursors.response as int) as usize,
            ),
            ..self.switch_mode(Mode::Visual)
        }
    }

    /// Leaves the visual mode without its selection.
    pub open spec fn leave_visual(self) -> AppModel {
        AppModel { visual_anchor: None, ..self.switch_mode(Mode::Normal) }
    }

    /// The two ends of the selection, the earlier one first: the anchor and
    /// the cursor of the response, each at a character boundary.
    pub open spec fn selection_range(self) -> Option<(int, int)> {
        match self.visual_anchor {
            Some(a) => {
                let x = char_start(self.response_buffer, a as int);
                let y = char_start(self.response_buffer, self.cursors.response as int);
                if x <= y {
                    Some((x, y))
                } else {
                    Some((y, x))
                }
            },
            None => None,
        }
    }

    /// The selection as a stretch of the response text: from its earlier end
    /// up to the end of the character at its later end.
    pub open spec fn selection_span(self) -> Option<(int, int)> {
        match self.selection_range() {
            Some(ends) => Some((ends.0, spec_right(self.response_buffer, ends.1))),
            None => None,
        }
    }

    /// What is selected: the response text from the earlier end of the
    /// selection up to the end of the character at its later end.
    pub open spec fn selected_text(self) -> Option<Seq<u8>> {
        match self.visual_anchor {
            Some(a) => Some(
                spec_selection(
                    self.response_buffer,
                    char_start(self.response_buffer, a as int),
                    char_start(self.response_buffer, self.cursors.response as int),
                ),
            ),
            None => None,
        }
    }

    /// Copies what is selected into the yank register and leaves the visual
    /// mode.
    pub open spec fn yank_selection(self) -> AppModel {
        match self.selected_text() {
            Some(text) => self.with_register(text).leave_visual(),
            None => self.leave_visual(),
        }
    }

    /// The text of the response panel for the last response.
    pub open spec fn response_text(self) -> Seq<u8> {
        match self.last_response {
            Some(r) => spec_response_text(r.status, r.body),
            None => spec_placeholder(),
        }
    }

    /// Makes the text of the response panel anew from the last response. The
    /// cursor of the response and the anchor of a selection are taken into the
    /// new text.
    pub open spec fn refresh_response(self) -> AppModel {
        let text = self.response_text();
        AppModel {
            response_buffer: text,
            cursors: self.cursors.put(
                Panel::Response,
                char_start(text, self.cursors.response as int) as usize,
            ),
            visual_anchor: match self.visual_anchor {
                Some(a) => Some(char_start(text, a as int) as usize),
                None => None,
            },
            ..self
        }
    }

    /// Takes what the transport gave for a request: the response, or for a
    /// failure the response that stands in for it. The response is shown and
    /// gets the focus.
    pub open spec fn receive(self, outcome: Option<ResponseView>) -> AppModel {
        let response = match outcome {
            Some(r) => r,
            None => spec_invalid_response(),
        };
        AppModel {
            active_panel: Panel::Response,
            ..(AppModel { last_response: Some(response), ..self }).refresh_response()
        }
    }

    /// Forgets the last response.
    pub open spec fn clear_response(self) -> AppModel {
        (AppModel { last_response: None, ..self }).refresh_response()
    }

    /// The request that the buffers stand for: the current method, the URL, the
    /// headers of the header block, the body.
    pub open spec fn request(self) -> RequestView {
        RequestView {
            method: self.current_request.method,
            url: self.url_buffer,
            headers: mapping_of_pairs(spec_parse_headers(self.headers_buffer)),
            body: self.body_buffer,
        }
    }

    /// Puts the texts of a loaded request into the buffers. The cursors of the
    /// three panels are taken into the new texts.
    pub open spec fn loaded(self, url: Seq<u8>, block: Seq<u8>, body: Seq<u8>) -> AppModel {
        AppModel {
            url_buffer: url,
            headers_buffer: block,
            body_buffer: body,
            cursors: PanelMap {
                url: char_start(url, self.cursors.url as int) as usize,
                headers: char_start(block, self.cursors.headers as int) as usize,
                body: char_start(body, self.cursors.body as int) as usize,
                ..self.cursors
            },
            ..self
        }
    }

    /// The state with the next collection selected, where there is one.
    pub open spec fn select_next(self) -> AppModel {
        if self.selected_collection_index + 1 < self.collections.len() {
            AppModel {
                selected_collection_index: (self.selected_collection_index + 1) as usize,
                ..self
            }
        } else {
            self
        }
    }

    /// The state with the collection before selected, where there is one.
    pub open spec fn select_previous(self) -> AppModel {
        if self.selected_collection_index > 0 {
            AppModel {
                selected_collection_index: (self.selected_collection_index - 1) as usize,
                ..self
            }
        } else {
            self
        }
    }
}

} // verus!

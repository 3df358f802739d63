//! The visual mode: a selection over the text of the response, which is
//! copied and never changed.

use vstd::prelude::*;
use crate::app::App;
use crate::input::{Effect, EffectView, Key, KeyCode};
use crate::model::AppModel;
use crate::panel::Panel;

verus! {

/// What a motion key makes of a state whose focus is on the response. Other
/// characters change nothing.
pub open spec fn visual_motion(s: AppModel, c: char) -> AppModel {
    if c == 'h' {
        s.left()
    } else if c == 'l' {
        s.right()
    } else if c == 'j' {
        s.down()
    } else if c == 'k' {
        s.up()
    } else if c == 'w' {
        s.word_forward()
    } else if c == 'b' {
        s.word_backward()
    } else if c == '0' {
        s.line_start()
    } else if c == '$' {
        s.line_end()
    } else {
        s
    }
}

/// What a key makes of a state in visual mode. The focus is on the response
/// whatever it was before. `y` copies what is selected and asks the caller to
/// put it on the clipboard; a key that leaves the mode gives the selection up.
pub open spec fn visual_step(s: AppModel, key: Key) -> (AppModel, EffectView) {
    let s = s.set_panel(Panel::Response);
    if key.spec_is_escape() {
        (s.leave_visual(), EffectView::Nothing)
    } else {
        match key.code {
            KeyCode::Char(c) => if c == 'y' {
                (
                    s.yank_selection(),
                    match s.selected_text() {
                        Some(text) => EffectView::Copy(text),
                        None => EffectView::Nothing,
                    },
                )
            } else {
                (visual_motion(s, c), EffectView::Nothing)
            },
            _ => (s, EffectView::Nothing),
        }
    }
}

/// Takes one key in visual mode.
pub fn handle_key(app: &mut App, key: Key) -> (effect: Effect)
    ensures
        final(app)@ == visual_step(old(app)@, key).0,
        effect@ == visual_step(old(app)@, key).1,
        old(app)@.wf() ==> final(app)@.wf(),
        final(app)@.response_buffer == old(app)@.response_buffer,
{
    app.set_panel(Panel::Response);
    if key.is_escape() {
        app.leave_visual();
        return Effect::Nothing;
    }
    match key.code {
        KeyCode::Char(c) => {
            if c == 'y' {
                match app.yank_selection() {
                    Some(text) => Effect::Copy(text),
                    None => Effect::Nothing,
                }
            } else {
                if c == 'h' {
                    app.move_left();
                } else if c == 'l' {
                    app.move_right();
                } else if c == 'j' {
                    app.move_cursor_down();
                } else if c == 'k' {
                    app.move_cursor_up();
                } else if c == 'w' {
                    app.move_word_forward();
                } else if c == 'b' {
                    app.move_word_backwards();
                } else if c == '0' {
                    app.move_line_start();
                } else if c == '$' {
                    app.move_line_end();
                }
                Effect::Nothing
            }
        },
        _ => Effect::Nothing,
    }
}

} // verus!

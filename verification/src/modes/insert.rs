//! The insert mode: keys change the text of the focused panel.

use vstd::prelude::*;
use crate::app::{App, Mode};
use crate::input::{Key, KeyCode};
use crate::model::AppModel;

verus! {

/// What a key makes of a state in insert mode.
pub open spec fn insert_step(s: AppModel, key: Key) -> AppModel {
    if key.spec_is_escape() {
        s.switch_mode(Mode::Normal)
    } else {
        match key.code {
            KeyCode::Char(c) => s.insert_char(c),
            KeyCode::Backspace => s.backspace(),
            KeyCode::Delete => s.delete_char(),
            KeyCode::Left => s.left(),
            KeyCode::Right => s.right(),
            KeyCode::Up => s.up(),
            KeyCode::Down => s.down(),
            KeyCode::Enter => s.insert_newline(),
            _ => s,
        }
    }
}

/// Takes one key in insert mode.
pub fn handle_key(app: &mut App, key: Key)
    ensures
        final(app)@ == insert_step(old(app)@, key),
        old(app)@.wf() ==> final(app)@.wf(),
{
    if key.is_escape() {
        app.switch_mode(Mode::Normal);
        return ;
    }
    match key.code {
        KeyCode::Char(c) => app.insert_char(c),
        KeyCode::Backspace => app.backspace(),
        KeyCode::Delete => app.delete_char(),
        KeyCode::Left => app.move_left(),
        KeyCode::Right => app.move_right(),
        KeyCode::Up => app.move_cursor_up(),
        KeyCode::Down => app.move_cursor_down(),
        KeyCode::Enter => app.insert_newline(),
        _ => {},
    }
}

} // verus!

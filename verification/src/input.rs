//! Keys as the editor takes them, what it asks of its caller, and the
//! dispatch of a key to the handler of the current mode.

use vstd::prelude::*;
use vstd::string::*;
use crate::app::{App, Mode};
use crate::chars::utf8;
use crate::http::{Request, RequestView};
use crate::model::AppModel;
use crate::modes;

verus! {

/// Which key was pressed.
#[derive(Debug, Clone, Copy, PartialEq, Eq)]
pub enum KeyCode {
    /// A key that stands for a character.
    Char(char),
    Enter,
    Esc,
    Backspace,
    Delete,
    Left,
    Right,
    Up,
    Down,
    Tab,
    BackTab,
    /// Any other key.
    Other,
}

/// A key press: the key, and whether the control key was held with it.
#[derive(Debug, Clone, Copy, PartialEq, Eq)]
pub struct Key {
    pub code: KeyCode,
    pub ctrl: bool,
}

impl Key {
    /// Whether the key leaves a mode: `Esc`, or `[` with the control key.
    pub open spec fn spec_is_escape(self) -> bool {
        self.code == KeyCode::Esc || (self.code == KeyCode::Char('[') && self.ctrl)
    }

    /// Whether the key stops the editor from any mode: `c` with the control
    /// key.
    pub open spec fn spec_is_interrupt(self) -> bool {
        self.code == KeyCode::Char('c') && self.ctrl
    }

    /// The key `code` without the control key.
    pub fn plain(code: KeyCode) -> (r: Key)
        ensures
            r == (Key { code, ctrl: false }),
    {
        Key { code, ctrl: false }
    }

    /// The key of the character `c` without the control key.
    pub fn of_char(c: char) -> (r: Key)
        ensures
            r == (Key { code: KeyCode::Char(c), ctrl: false }),
    {
        Key { code: KeyCode::Char(c), ctrl: false }
    }

    /// Whether the key leaves a mode.
    pub fn is_escape(&self) -> (r: bool)
        ensures
            r == self.spec_is_escape(),
    {
        match self.code {
            KeyCode::Esc => true,
            KeyCode::Char(c) => c == '[' && self.ctrl,
            _ => false,
        }
    }

    /// Whether the key stops the editor from any mode.
    pub fn is_interrupt(&self) -> (r: bool)
        ensures
            r == self.spec_is_interrupt(),
    {
        match self.code {
            KeyCode::Char(c) => c == 'c' && self.ctrl,
            _ => false,
        }
    }
}

/// What the editor asks of its caller after a key.
#[derive(Debug, Clone)]
pub enum Effect {
    /// Nothing.
    Nothing,
    /// Send the request, and hand what comes back to
    /// [`App::receive_response`].
    Send(Request),
    /// Fetch the request kept under the name, and hand it to
    /// [`App::load_request`].
    Load(String),
    /// Keep the request under the name.
    Save(String, Request),
    /// Put the text on the system clipboard.
    Copy(String),
}

/// What an [`Effect`] holds.
pub enum EffectView {
    Nothing,
    Send(RequestView),
    Load(Seq<u8>),
    Save(Seq<u8>, RequestView),
    Copy(Seq<u8>),
}

impl View for Effect {
    type V = EffectView;

    open spec fn view(&self) -> EffectView {
        match self {
            Effect::Nothing => EffectView::Nothing,
            Effect::Send(r) => EffectView::Send(r@),
            Effect::Load(name) => EffectView::Load(utf8(name@)),
            Effect::Save(name, r) => EffectView::Save(utf8(name@), r@),
            Effect::Copy(text) => EffectView::Copy(utf8(text@)),
        }
    }
}

/// What a key makes of a state: `c` with the control key stops the editor
/// from any mode; every other key goes to the handler of the mode.
pub open spec fn spec_handle_key_event(s: AppModel, key: Key) -> (AppModel, EffectView) {
    if key.spec_is_interrupt() {
        (s.quit(), EffectView::Nothing)
    } else {
        match s.mode {
            Mode::Normal => modes::normal::normal_step(s, key),
            Mode::Insert => (modes::insert::insert_step(s, key), EffectView::Nothing),
            Mode::Command => modes::command::command_step(s, key),
            Mode::Visual => modes::visual::visual_step(s, key),
        }
    }
}

/// Takes one key. Gives whether the editor goes on, and what it asks of its
/// caller.
pub fn handle_key_event(app: &mut App, key: Key) -> (r: (bool, Effect))
    ensures
        final(app)@ == spec_handle_key_event(old(app)@, key).0,
        r.1@ == spec_handle_key_event(old(app)@, key).1,
        r.0 == !final(app)@.should_quit,
        old(app)@.wf() ==> final(app)@.wf(),
{
    if key.is_interrupt() {
        app.quit();
        return (false, Effect::Nothing);
    }
    let effect = match app.mode {
        Mode::Normal => modes::normal::handle_key(app, key),
        Mode::Insert => {
            modes::insert::handle_key(app, key);
            Effect::Nothing
        },
        Mode::Command => modes::command::handle_key(app, key),
        Mode::Visual => modes::visual::handle_key(app, key),
    };
    (!app.should_quit, effect)
}

} // verus!

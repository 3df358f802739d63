//! The normal mode: motions, operators with their motions, and the keys that
//! change the focus or the mode.

use vstd::prelude::*;
use crate::app::{App, Mode, PendingCommand};
use crate::input::{Effect, EffectView, Key, KeyCode};
use crate::model::AppModel;
use crate::panel::Panel;

verus! {

/// Whether the first `g` of the two that go to the top was pressed and waits
/// for the second. While it waits, only `g`, `G` and `Esc` are taken.
pub open spec fn goto_waits(s: AppModel) -> bool {
    s.pending_command == Some(PendingCommand::Goto)
}

/// What the key of an operator makes of a state. With no operator waiting the
/// operator waits from now on. Pressed again while it waits, it works on the
/// line of the cursor, and nothing waits any more. While another operator
/// waits, nothing changes.
pub open spec fn operator_key(s: AppModel, op: PendingCommand) -> AppModel {
    if s.pending_command == Some(op) {
        (match op {
            PendingCommand::Delete => s.delete_line(),
            PendingCommand::Yank => s.yank_line(),
            PendingCommand::Goto => s.top(),
        }).with_pending(None)
    } else if s.pending_command is None {
        s.with_pending(Some(op))
    } else {
        s
    }
}

/// What `$` makes of a state. A delete that waits removes what stands between
/// the cursor and the end of the line, a yank that waits copies it, and then
/// nothing waits any more. With no operator waiting the cursor goes to the end
/// of the line.
pub open spec fn dollar_key(s: AppModel) -> AppModel {
    match s.pending_command {
        Some(PendingCommand::Delete) => s.delete_to_line_end().with_pending(None),
        Some(PendingCommand::Yank) => s.yank_to_line_end().with_pending(None),
        Some(PendingCommand::Goto) => s,
        None => s.line_end(),
    }
}

/// What the key of the character `c` makes of a state in normal mode. `i`,
/// `a`, `I` and `A` enter the insert mode, `:` the command mode, `v` the visual
/// mode; with the mode gone, no operator waits any more.
pub open spec fn normal_char(s: AppModel, c: char) -> AppModel {
    if goto_waits(s) && c != 'g' && c != 'G' {
        s
    } else if c == 'i' || c == 'a' || c == 'I' || c == 'A' {
        s.switch_mode(Mode::Insert)
    } else if c == ':' {
        s.switch_mode(Mode::Command)
    } else if c == 'v' {
        s.enter_visual()
    } else if c == 'h' {
        s.left()
    } else if c == 'j' {
        s.down()
    } else if c == 'k' {
        s.up()
    } else if c == 'l' {
        s.right()
    } else if c == 'w' {
        s.word_forward()
    } else if c == 'b' {
        s.word_backward()
    } else if c == '0' {
        s.line_start()
    } else if c == '$' {
        dollar_key(s)
    } else if c == 'g' {
        operator_key(s, PendingCommand::Goto)
    } else if c == 'G' {
        s.last_line()
    } else if c == 'd' {
        operator_key(s, PendingCommand::Delete)
    } else if c == 'y' {
        operator_key(s, PendingCommand::Yank)
    } else if c == 'p' {
        s.paste()
    } else if c == 'q' {
        s.quit()
    } else {
        match Panel::spec_numbered(c) {
            Some(panel) => s.set_panel(panel),
            None => s,
        }
    }
}

/// What a key makes of a state in normal mode, and what the editor then asks
/// of its caller. `Esc` lets no operator wait. `Tab` and `BackTab` move the
/// focus through the cycle of the panels. `Enter` asks for the request of the
/// buffers to be sent and changes nothing.
pub open spec fn normal_step(s: AppModel, key: Key) -> (AppModel, EffectView) {
    match key.code {
        KeyCode::Esc => (s.with_pending(None), EffectView::Nothing),
        KeyCode::Char(c) => (normal_char(s, c), EffectView::Nothing),
        KeyCode::Tab => if goto_waits(s) {
            (s, EffectView::Nothing)
        } else {
            (s.set_panel(s.active_panel.spec_next()), EffectView::Nothing)
        },
        KeyCode::BackTab => if goto_waits(s) {
            (s, EffectView::Nothing)
        } else {
            (s.set_panel(s.active_panel.spec_previous()), EffectView::Nothing)
        },
        KeyCode::Enter => if goto_waits(s) {
            (s, EffectView::Nothing)
        } else {
            (s, EffectView::Send(s.request()))
        },
        _ => (s, EffectView::Nothing),
    }
}

/// Whether `pending` is the operator `op`.
fn waits_for(pending: Option<PendingCommand>, op: PendingCommand) -> (r: bool)
    ensures
        r == (pending == Some(op)),
{
    match pending {
        Some(p) => p == op,
        None => false,
    }
}

/// Takes the key of an operator.
fn press_operator(app: &mut App, op: PendingCommand)
    ensures
        final(app)@ == operator_key(old(app)@, op),
        old(app)@.wf() ==> final(app)@.wf(),
{
    if waits_for(app.pending_command, op) {
        match op {
            PendingCommand::Delete => app.delete_line(),
            PendingCommand::Yank => app.yank_line(),
            PendingCommand::Goto => app.move_top(),
        }
        app.clear_pending_command();
    } else if app.pending_command.is_none() {
        app.set_pending_command(op);
    }
}

/// Takes the key `$`.
fn press_dollar(app: &mut App)
    ensures
        final(app)@ == dollar_key(old(app)@),
        old(app)@.wf() ==> final(app)@.wf(),
{
    match app.pending_command {
        Some(PendingCommand::Delete) => {
            app.delete_to_line_end();
            app.clear_pending_command();
        },
        Some(PendingCommand::Yank) => {
            app.yank_to_line_end();
            app.clear_pending_command();
        },
        Some(PendingCommand::Goto) => {},
        None => {
            app.move_line_end();
        },
    }
}

/// Takes the key of the character `c`.
fn press_char(app: &mut App, c: char)
    ensures
        final(app)@ == normal_char(old(app)@, c),
        old(app)@.wf() ==> final(app)@.wf(),
{
    if waits_for(app.pending_command, PendingCommand::Goto) && c != 'g' && c != 'G' {
    } else if c == 'i' || c == 'a' || c == 'I' || c == 'A' {
        app.switch_mode(Mode::Insert);
    } else if c == ':' {
        app.switch_mode(Mode::Command);
    } else if c == 'v' {
        app.enter_visual();
    } else if c == 'h' {
        app.move_left();
    } else if c == 'j' {
        app.move_cursor_down();
    } else if c == 'k' {
        app.move_cursor_up();
    } else if c == 'l' {
        app.move_right();
    } else if c == 'w' {
        app.move_word_forward();
    } else if c == 'b' {
        app.move_word_backwards();
    } else if c == '0' {
        app.move_line_start();
    } else if c == '$' {
        press_dollar(app);
    } else if c == 'g' {
        press_operator(app, PendingCommand::Goto);
    } else if c == 'G' {
        app.move_last_line();
    } else if c == 'd' {
        press_operator(app, PendingCommand::Delete);
    } else if c == 'y' {
        press_operator(app, PendingCommand::Yank);
    } else if c == 'p' {
        app.paste();
    } else if c == 'q' {
        app.quit();
    } else {
        match Panel::numbered(c) {
            Some(panel) => app.set_panel(panel),
            None => {},
        }
    }
}

/// Takes one key in normal mode.
pub fn handle_key(app: &mut App, key: Key) -> (effect: Effect)
    ensures
        final(app)@ == normal_step(old(app)@, key).0,
        effect@ == normal_step(old(app)@, key).1,
        old(app)@.wf() ==> final(app)@.wf(),
{
    let goto = waits_for(app.pending_command, PendingCommand::Goto);
    match key.code {
        KeyCode::Esc => {
            app.clear_pending_command();
            Effect::Nothing
        },
        KeyCode::Char(c) => {
            press_char(app, c);
            Effect::Nothing
        },
        KeyCode::Tab => {
            if !goto {
                app.set_panel(app.active_panel.next());
            }
            Effect::Nothing
        },
        KeyCode::BackTab => {
            if !goto {
                app.set_panel(app.active_panel.previous());
            }
            Effect::Nothing
        },
        KeyCode::Enter => {
            if goto {
                Effect::Nothing
            } else {
                Effect::Send(app.build_request())
            }
        },
        _ => Effect::Nothing,
    }
}

} // verus!

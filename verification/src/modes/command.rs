//! The command mode: a line is typed and, on `Enter`, carried out.
//!
//! A command line is a word, or a word and an argument parted from it by white
//! space; white space at the ends of the line does not count. Words are told
//! apart by case. A line that is no command changes nothing.

use vstd::prelude::*;
use vstd::string::*;
use vstd::utf8::*;
use crate::app::{App, Mode};
use crate::chars::{
    byte_len, lemma_boundary_zero, lemma_text_valid, slice, str_eq, utf8, Run,
};
use crate::http::{Method, RequestView};
use crate::input::{Effect, EffectView, Key, KeyCode};
use crate::model::AppModel;
use crate::trim::{spec_trim, trim};
use crate::words::{skip_forward, skip_run};

verus! {

/// What `str::to_uppercase` gives for the characters `s`: `s` in upper case,
/// in the sense of Unicode.
pub uninterp spec fn uppercase(s: Seq<char>) -> Seq<char>;

/// `str::to_uppercase` of std. It depends on the characters of the string
/// alone; its result is given the name [`uppercase`], and nothing more is
/// claimed.
pub assume_specification[ str::to_uppercase ](s: &str) -> (r: String)
    ensures
        r@ == uppercase(s@),
;

/// A command line, read.
#[derive(Debug, Clone)]
pub enum Command {
    /// `q` or `quit`: stop the editor.
    Quit,
    /// `method <verb>`: set the method of the request.
    Method(Method),
    /// `send`: send the request.
    Send,
    /// `clear`: forget the last response.
    Clear,
    /// `load <name>`: fetch the request kept under the name.
    Load(String),
    /// `save <name>`: keep the request under the name.
    Save(String),
    /// Anything else.
    Nothing,
}

/// What a [`Command`] holds.
pub enum CommandView {
    Quit,
    Method(Method),
    Send,
    Clear,
    Load(Seq<u8>),
    Save(Seq<u8>),
    Nothing,
}

impl View for Command {
    type V = CommandView;

    open spec fn view(&self) -> CommandView {
        match self {
            Command::Quit => CommandView::Quit,
            Command::Method(m) => CommandView::Method(*m),
            Command::Send => CommandView::Send,
            Command::Clear => CommandView::Clear,
            Command::Load(name) => CommandView::Load(utf8(name@)),
            Command::Save(name) => CommandView::Save(utf8(name@)),
            Command::Nothing => CommandView::Nothing,
        }
    }
}

/// The method that a verb in upper case names. A verb that names none gives
/// `GET`.
pub open spec fn spec_method_of(verb: Seq<char>) -> Method {
    if verb == "POST"@ {
        Method::POST
    } else if verb == "PUT"@ {
        Method::PUT
    } else if verb == "DELETE"@ {
        Method::DELETE
    } else if verb == "PATCH"@ {
        Method::PATCH
    } else {
        Method::GET
    }
}

/// The word of a trimmed command line: what stands before its first white
/// space.
pub open spec fn spec_word(t: Seq<u8>) -> Seq<u8> {
    t.subrange(0, skip_run(t, 0, Run::Solid))
}

/// The argument of a trimmed command line: what stands behind its word,
/// without the white space at its ends.
pub open spec fn spec_argument(t: Seq<u8>) -> Seq<u8> {
    spec_trim(t.subrange(skip_run(t, 0, Run::Solid), t.len() as int))
}

/// The command that the line `line` holds.
pub open spec fn spec_parse_command(line: Seq<u8>) -> CommandView {
    let t = spec_trim(line);
    let word = spec_word(t);
    let arg = spec_argument(t);
    if arg.len() == 0 {
        if word == utf8("q"@) || word == utf8("quit"@) {
            CommandView::Quit
        } else if word == utf8("send"@) {
            CommandView::Send
        } else if word == utf8("clear"@) {
            CommandView::Clear
        } else {
            CommandView::Nothing
        }
    } else if word == utf8("method"@) {
        CommandView::Method(spec_method_of(uppercase(decode_utf8(arg))))
    } else if word == utf8("load"@) {
        CommandView::Load(arg)
    } else if word == utf8("save"@) {
        CommandView::Save(arg)
    } else {
        CommandView::Nothing
    }
}

/// What carrying out the command line makes of a state, and what the editor
/// then asks of its caller.
pub open spec fn spec_execute(s: AppModel) -> (AppModel, EffectView) {
    match spec_parse_command(s.command_buffer) {
        CommandView::Quit => (s.quit(), EffectView::Nothing),
        CommandView::Method(m) => (
            AppModel { current_request: RequestView { method: m, ..s.current_request }, ..s },
            EffectView::Nothing,
        ),
        CommandView::Send => (s, EffectView::Send(s.request())),
        CommandView::Clear => (s.clear_response(), EffectView::Nothing),
        CommandView::Load(name) => (s, EffectView::Load(name)),
        CommandView::Save(name) => (s, EffectView::Save(name, s.request())),
        CommandView::Nothing => (s, EffectView::Nothing),
    }
}

/// What a key makes of a state in command mode. `Enter` carries the line out
/// and goes back to normal mode whatever the line held; `Esc` goes back
/// without it. A character goes to the end of the line, `Backspace` takes
/// the last one off.
pub open spec fn command_step(s: AppModel, key: Key) -> (AppModel, EffectView) {
    match key.code {
        KeyCode::Esc => (s.switch_mode(Mode::Normal), EffectView::Nothing),
        KeyCode::Enter => (spec_execute(s).0.switch_mode(Mode::Normal), spec_execute(s).1),
        KeyCode::Char(c) => (s.command_push(c), EffectView::Nothing),
        KeyCode::Backspace => (s.command_pop(), EffectView::Nothing),
        _ => (s, EffectView::Nothing),
    }
}

impl Method {
    /// The method that a verb in upper case names.
    pub fn from_verb(verb: &str) -> (r: Method)
        ensures
            r == spec_method_of(verb@),
    {
        if str_eq(verb, "POST") {
            Method::POST
        } else if str_eq(verb, "PUT") {
            Method::PUT
        } else if str_eq(verb, "DELETE") {
            Method::DELETE
        } else if str_eq(verb, "PATCH") {
            Method::PATCH
        } else {
            Method::GET
        }
    }
}

/// Reads the command line `line`.
pub fn parse_command(line: &str) -> (r: Command)
    ensures
        r@ == spec_parse_command(line.spec_bytes()),
{
    let t = trim(line);
    proof {
        lemma_text_valid(t);
        lemma_boundary_zero(t.spec_bytes());
    }
    let n: usize = byte_len(t);
    let end = skip_forward(t, 0, Run::Solid);
    let word = slice(t, 0, end);
    let arg = trim(slice(t, end, n));
    if byte_len(arg) == 0 {
        if str_eq(word, "q") || str_eq(word, "quit") {
            Command::Quit
        } else if str_eq(word, "send") {
            Command::Send
        } else if str_eq(word, "clear") {
            Command::Clear
        } else {
            Command::Nothing
        }
    } else if str_eq(word, "method") {
        proof {
            encode_utf8_decode_utf8(arg@);
        }
        let upper = arg.to_uppercase();
        Command::Method(Method::from_verb(upper.as_str()))
    } else if str_eq(word, "load") {
        Command::Load(arg.to_owned())
    } else if str_eq(word, "save") {
        Command::Save(arg.to_owned())
    } else {
        Command::Nothing
    }
}

/// Carries out the command line.
pub fn execute_command(app: &mut App) -> (effect: Effect)
    ensures
        final(app)@ == spec_execute(old(app)@).0,
        effect@ == spec_execute(old(app)@).1,
        old(app)@.wf() ==> final(app)@.wf(),
{
    match parse_command(app.command_buffer.as_str()) {
        Command::Quit => {
            app.quit();
            Effect::Nothing
        },
        Command::Method(m) => {
            app.current_request.method = m;
            Effect::Nothing
        },
        Command::Send => Effect::Send(app.build_request()),
        Command::Clear => {
            app.clear_response();
            Effect::Nothing
        },
        Command::Load(name) => Effect::Load(name),
        Command::Save(name) => Effect::Save(name, app.build_request()),
        Command::Nothing => Effect::Nothing,
    }
}

/// Takes one key in command mode.
pub fn handle_key(app: &mut App, key: Key) -> (effect: Effect)
    ensures
        final(app)@ == command_step(old(app)@, key).0,
        effect@ == command_step(old(app)@, key).1,
        old(app)@.wf() ==> final(app)@.wf(),
{
    match key.code {
        KeyCode::Esc => {
            app.switch_mode(Mode::Normal);
            Effect::Nothing
        },
        KeyCode::Enter => {
            let effect = execute_command(app);
            app.switch_mode(Mode::Normal);
            effect
        },
        KeyCode::Char(c) => {
            app.command_push(c);
            Effect::Nothing
        },
        KeyCode::Backspace => {
            app.command_pop();
            Effect::Nothing
        },
        _ => Effect::Nothing,
    }
}

} // verus!

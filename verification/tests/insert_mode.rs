use vreq::app::{App, Mode, PendingCommand};
use vreq::input::{handle_key_event, Key, KeyCode};
use vreq::modes::insert::handle_key;
use vreq::panel::Panel;

fn inserting(panel: Panel, text: &str, cursor: usize) -> App {
    let mut app = App::new();
    app.set_panel(panel);
    match panel {
        Panel::Url => app.url_buffer = text.to_string(),
        Panel::Headers => app.headers_buffer = text.to_string(),
        Panel::Body => app.body_buffer = text.to_string(),
        _ => {},
    }
    app.set_cursor(cursor);
    app.set_mode(Mode::Insert);
    app
}

fn key(app: &mut App, code: KeyCode) {
    handle_key_event(app, Key::plain(code));
}

#[test]
fn characters_go_in_at_the_cursor() {
    let mut app = inserting(Panel::Body, "ac", 1);
    key(&mut app, KeyCode::Char('b'));
    assert_eq!(app.body_buffer, "abc");
    assert_eq!(app.cursor(), 2);
    key(&mut app, KeyCode::Char('!'));
    assert_eq!(app.body_buffer, "ab!c");
    assert_eq!(app.cursor(), 3);
    assert_eq!(app.mode, Mode::Insert);
}

#[test]
fn a_wide_character_moves_the_cursor_behind_it() {
    let mut app = inserting(Panel::Url, "ab", 1);
    key(&mut app, KeyCode::Char('é'));
    assert_eq!(app.url_buffer, "aéb");
    assert_eq!(app.cursor(), 3);
    key(&mut app, KeyCode::Backspace);
    assert_eq!(app.url_buffer, "ab");
    assert_eq!(app.cursor(), 1);
}

#[test]
fn normal_mode_letters_are_text_here() {
    let mut app = inserting(Panel::Body, "", 0);
    for c in "dd g:q".chars() {
        key(&mut app, KeyCode::Char(c));
    }
    assert_eq!(app.body_buffer, "dd g:q");
    assert_eq!(app.cursor(), 6);
    assert!(!app.should_quit);
    assert_eq!(app.pending_command, None);
}

#[test]
fn backspace_removes_the_character_before() {
    let mut app = inserting(Panel::Body, "abc", 2);
    key(&mut app, KeyCode::Backspace);
    assert_eq!(app.body_buffer, "ac");
    assert_eq!(app.cursor(), 1);
    key(&mut app, KeyCode::Backspace);
    assert_eq!(app.body_buffer, "c");
    assert_eq!(app.cursor(), 0);
    key(&mut app, KeyCode::Backspace);
    assert_eq!(app.body_buffer, "c");
    assert_eq!(app.cursor(), 0);
}

#[test]
fn delete_removes_the_character_at_the_cursor() {
    let mut app = inserting(Panel::Body, "abc", 1);
    key(&mut app, KeyCode::Delete);
    assert_eq!(app.body_buffer, "ac");
    assert_eq!(app.cursor(), 1);
    key(&mut app, KeyCode::Delete);
    assert_eq!(app.body_buffer, "a");
    assert_eq!(app.cursor(), 1);
    key(&mut app, KeyCode::Delete);
    assert_eq!(app.body_buffer, "a");
    assert_eq!(app.cursor(), 1);
}

#[test]
fn delete_on_an_empty_buffer_does_nothing() {
    let mut app = inserting(Panel::Body, "", 0);
    key(&mut app, KeyCode::Delete);
    key(&mut app, KeyCode::Backspace);
    assert_eq!(app.body_buffer, "");
    assert_eq!(app.cursor(), 0);
}

#[test]
fn arrows_move_the_cursor() {
    let mut app = inserting(Panel::Body, "abc\nde", 1);
    key(&mut app, KeyCode::Right);
    assert_eq!(app.cursor(), 2);
    key(&mut app, KeyCode::Down);
    assert_eq!(app.cursor(), 6);
    key(&mut app, KeyCode::Up);
    assert_eq!(app.cursor(), 2);
    key(&mut app, KeyCode::Left);
    assert_eq!(app.cursor(), 1);
    assert_eq!(app.body_buffer, "abc\nde");
}

#[test]
fn enter_breaks_the_line_in_body_and_headers() {
    let mut app = inserting(Panel::Body, "ab", 1);
    key(&mut app, KeyCode::Enter);
    assert_eq!(app.body_buffer, "a\nb");
    assert_eq!(app.cursor(), 2);
    let mut headers = inserting(Panel::Headers, "A: 1", 4);
    key(&mut headers, KeyCode::Enter);
    assert_eq!(headers.headers_buffer, "A: 1\n");
    assert_eq!(headers.cursor(), 5);
}

#[test]
fn enter_does_nothing_in_the_url() {
    let mut app = inserting(Panel::Url, "http://x", 4);
    key(&mut app, KeyCode::Enter);
    assert_eq!(app.url_buffer, "http://x");
    assert_eq!(app.cursor(), 4);
    assert_eq!(app.mode, Mode::Insert);
}

#[test]
fn the_response_and_the_sidebar_are_not_edited() {
    for panel in [Panel::Response, Panel::Sidebar] {
        let mut app = inserting(panel, "", 0);
        let before = app.response_buffer.clone();
        key(&mut app, KeyCode::Char('x'));
        key(&mut app, KeyCode::Enter);
        key(&mut app, KeyCode::Delete);
        key(&mut app, KeyCode::Backspace);
        assert_eq!(app.response_buffer, before);
        assert_eq!(app.cursor(), 0);
    }
}

#[test]
fn escape_goes_back_to_normal_and_clears_the_operator() {
    let mut app = inserting(Panel::Body, "abc", 1);
    app.set_pending_command(PendingCommand::Delete);
    key(&mut app, KeyCode::Esc);
    assert_eq!(app.mode, Mode::Normal);
    assert_eq!(app.pending_command, None);
    assert_eq!(app.cursor(), 1);
    assert_eq!(app.body_buffer, "abc");
}

#[test]
fn control_bracket_is_an_escape_too() {
    let mut app = inserting(Panel::Body, "abc", 1);
    app.set_pending_command(PendingCommand::Yank);
    handle_key(&mut app, Key { code: KeyCode::Char('['), ctrl: true });
    assert_eq!(app.mode, Mode::Normal);
    assert_eq!(app.pending_command, None);
    assert_eq!(app.body_buffer, "abc");
    let mut plain = inserting(Panel::Body, "abc", 1);
    handle_key(&mut plain, Key::of_char('['));
    assert_eq!(plain.mode, Mode::Insert);
    assert_eq!(plain.body_buffer, "a[bc");
}

#[test]
fn other_keys_do_nothing() {
    let mut app = inserting(Panel::Body, "abc", 1);
    key(&mut app, KeyCode::Tab);
    key(&mut app, KeyCode::BackTab);
    key(&mut app, KeyCode::Other);
    assert_eq!(app.body_buffer, "abc");
    assert_eq!(app.cursor(), 1);
    assert_eq!(app.active_panel, Panel::Body);
    assert_eq!(app.mode, Mode::Insert);
}

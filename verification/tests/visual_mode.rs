use vreq::app::{App, Mode};
use vreq::http::Response;
use vreq::input::{handle_key_event, Effect, Key, KeyCode};
use vreq::modes::visual::handle_key;
use vreq::panel::Panel;

fn showing(body_text: &str) -> App {
    let mut app = App::new();
    app.response_buffer = body_text.to_string();
    app.cursors.set(Panel::Response, 0);
    app
}

fn type_in_visual(app: &mut App, keys: &str) {
    for c in keys.chars() {
        handle_key_event(app, Key::of_char(c));
    }
}

#[test]
fn selection_from_anchor_to_cursor_is_copied() {
    let mut app = showing("line1\nline2");
    type_in_visual(&mut app, "v");
    assert_eq!(app.visual_anchor, Some(0));
    type_in_visual(&mut app, "llll");
    assert_eq!(app.cursor(), 4);
    let (running, effect) = handle_key_event(&mut app, Key::of_char('y'));
    assert!(running);
    assert_eq!(app.yank_register, Some("line1".to_string()));
    match effect {
        Effect::Copy(text) => assert_eq!(text, "line1"),
        _ => panic!("nothing for the clipboard"),
    }
    assert_eq!(app.visual_anchor, None);
    assert_eq!(app.mode, Mode::Normal);
    assert_eq!(app.response_buffer, "line1\nline2");
}

#[test]
fn selection_backwards_from_the_anchor() {
    let mut app = showing("line1\nline2");
    app.cursors.set(Panel::Response, 8);
    type_in_visual(&mut app, "v0");
    assert_eq!(app.cursor(), 6);
    assert_eq!(app.selection_range(), Some((6, 8)));
    assert_eq!(app.selection_span(), Some((6, 9)));
    type_in_visual(&mut app, "y");
    assert_eq!(app.yank_register, Some("lin".to_string()));
}

#[test]
fn selection_over_lines() {
    let mut app = showing("line1\nline2");
    type_in_visual(&mut app, "vj$");
    assert_eq!(app.cursor(), 11);
    assert_eq!(app.selection_span(), Some((0, 11)));
    type_in_visual(&mut app, "y");
    assert_eq!(app.yank_register, Some("line1\nline2".to_string()));
}

#[test]
fn motions_in_visual_mode() {
    let mut app = showing("one two\nthree");
    type_in_visual(&mut app, "v");
    type_in_visual(&mut app, "w");
    assert_eq!(app.cursor(), 4);
    type_in_visual(&mut app, "j");
    assert_eq!(app.cursor(), 12);
    type_in_visual(&mut app, "b");
    assert_eq!(app.cursor(), 8);
    type_in_visual(&mut app, "k");
    assert_eq!(app.cursor(), 0);
    type_in_visual(&mut app, "$");
    assert_eq!(app.cursor(), 7);
    type_in_visual(&mut app, "0");
    assert_eq!(app.cursor(), 0);
    type_in_visual(&mut app, "l");
    assert_eq!(app.cursor(), 1);
    type_in_visual(&mut app, "hh");
    assert_eq!(app.cursor(), 0);
    assert_eq!(app.mode, Mode::Visual);
    assert_eq!(app.visual_anchor, Some(0));
    assert_eq!(app.response_buffer, "one two\nthree");
}

#[test]
fn other_keys_do_not_touch_the_text() {
    let mut app = showing("abc");
    type_in_visual(&mut app, "v");
    type_in_visual(&mut app, "dxpiG:q");
    for code in [KeyCode::Enter, KeyCode::Backspace, KeyCode::Delete, KeyCode::Tab] {
        let effect = handle_key(&mut app, Key::plain(code));
        assert!(matches!(effect, Effect::Nothing));
    }
    assert_eq!(app.response_buffer, "abc");
    assert_eq!(app.mode, Mode::Visual);
    assert_eq!(app.active_panel, Panel::Response);
    assert_eq!(app.cursor(), 0);
    assert!(!app.should_quit);
    assert_eq!(app.yank_register, None);
}

#[test]
fn escape_gives_the_selection_up() {
    let mut app = showing("abc");
    type_in_visual(&mut app, "vl");
    let (_, effect) = handle_key_event(&mut app, Key::plain(KeyCode::Esc));
    assert!(matches!(effect, Effect::Nothing));
    assert_eq!(app.mode, Mode::Normal);
    assert_eq!(app.visual_anchor, None);
    assert_eq!(app.yank_register, None);
    assert_eq!(app.cursor(), 1);
}

#[test]
fn control_bracket_gives_the_selection_up() {
    let mut app = showing("abc");
    type_in_visual(&mut app, "vl");
    handle_key_event(&mut app, Key { code: KeyCode::Char('['), ctrl: true });
    assert_eq!(app.mode, Mode::Normal);
    assert_eq!(app.visual_anchor, None);
    assert_eq!(app.yank_register, None);
}

#[test]
fn selection_at_the_end_of_the_text() {
    let mut app = showing("abc");
    app.cursors.set(Panel::Response, 3);
    type_in_visual(&mut app, "v");
    type_in_visual(&mut app, "y");
    assert_eq!(app.yank_register, Some(String::new()));
    let mut other = showing("abc");
    type_in_visual(&mut other, "v$y");
    assert_eq!(other.yank_register, Some("abc".to_string()));
}

#[test]
fn selection_takes_wide_characters_whole() {
    let mut app = App::new();
    app.receive_response(Some(Response::new(200, "OK".to_string(), "é!".to_string())));
    app.set_cursor(13);
    handle_key_event(&mut app, Key::of_char('v'));
    let (_, effect) = handle_key_event(&mut app, Key::of_char('y'));
    match effect {
        Effect::Copy(text) => assert_eq!(text, "é"),
        _ => panic!("nothing for the clipboard"),
    }
}

#[test]
fn yank_without_an_anchor_copies_nothing() {
    let mut app = showing("abc");
    app.set_mode(Mode::Visual);
    let (_, effect) = handle_key_event(&mut app, Key::of_char('y'));
    assert!(matches!(effect, Effect::Nothing));
    assert_eq!(app.yank_register, None);
    assert_eq!(app.mode, Mode::Normal);
    assert_eq!(app.selection_range(), None);
    assert_eq!(app.selection_span(), None);
}

#[test]
fn visual_mode_works_on_the_response_whatever_had_the_focus() {
    let mut app = showing("abc");
    app.body_buffer = "body".to_string();
    app.set_mode(Mode::Visual);
    app.set_panel(Panel::Body);
    app.visual_anchor = Some(0);
    type_in_visual(&mut app, "l");
    assert_eq!(app.active_panel, Panel::Response);
    assert_eq!(app.cursors.get(Panel::Response), 1);
    assert_eq!(app.cursors.get(Panel::Body), 0);
    type_in_visual(&mut app, "y");
    assert_eq!(app.yank_register, Some("ab".to_string()));
}

use vreq::app::{App, Mode, PendingCommand};
use vreq::format::{decimal, placeholder, response_text};
use vreq::highlight::{line_spans, selected_part};
use vreq::http::{Method, Request, Response};
use vreq::panel::{Panel, PanelMap};

fn editing_body(text: &str, cursor: usize) -> App {
    let mut app = App::new();
    app.set_panel(Panel::Body);
    app.body_buffer = text.to_string();
    app.set_cursor(cursor);
    app
}

#[test]
fn starts_in_normal_mode_on_the_url() {
    let app = App::new();
    assert_eq!(app.mode, Mode::Normal);
    assert_eq!(app.active_panel, Panel::Url);
    assert_eq!(app.url_buffer, "https://api.example.com");
    assert_eq!(app.headers_buffer, "Content-Type: application/json");
    assert_eq!(app.body_buffer, "");
    assert_eq!(app.command_buffer, "");
    assert_eq!(app.response_text(), "No response yet. Press Enter to send request.");
    assert_eq!(app.pending_command, None);
    assert_eq!(app.yank_register, None);
    assert_eq!(app.visual_anchor, None);
    assert!(app.last_response.is_none());
    assert!(!app.should_quit);
    assert_eq!(app.collections, vec!["My Requests".to_string(), "API Tests".to_string()]);
    assert_eq!(app.selected_collection_index, 0);
    assert_eq!(app.current_request.method, Method::GET);
    for panel in [Panel::Sidebar, Panel::Url, Panel::Headers, Panel::Body, Panel::Response] {
        assert_eq!(app.cursors.get(panel), 0);
        assert_eq!(app.scroll_offset(panel), 0);
    }
    let same = App::default();
    assert_eq!(same.url_buffer, app.url_buffer);
}

#[test]
fn cursor_is_kept_for_each_panel() {
    let mut app = App::new();
    app.set_cursor(5);
    app.set_panel(Panel::Headers);
    assert_eq!(app.cursor(), 0);
    app.set_cursor(7);
    app.set_panel(Panel::Url);
    assert_eq!(app.cursor(), 5);
    app.set_panel(Panel::Headers);
    assert_eq!(app.cursor(), 7);
}

#[test]
fn set_cursor_stays_inside_the_text() {
    let mut app = editing_body("abc", 0);
    app.set_cursor(3);
    assert_eq!(app.cursor(), 3);
    app.set_cursor(4);
    assert_eq!(app.cursor(), 3);
    app.set_cursor(usize::MAX);
    assert_eq!(app.cursor(), 3);
    app.set_panel(Panel::Sidebar);
    app.set_cursor(9);
    assert_eq!(app.cursor(), 0);
}

#[test]
fn cursors_and_texts_by_panel() {
    let mut app = App::new();
    app.set_cursor_of(vreq::app::Panel::Headers, 12);
    assert_eq!(app.cursor_of(Panel::Headers), 12);
    assert_eq!(app.cursor_of(Panel::Url), 0);
    assert_eq!(app.cursor(), 0);
    app.set_cursor_of(Panel::Body, 5);
    assert_eq!(app.cursor_of(Panel::Body), 0);
    app.buffer_mut(Panel::Body).unwrap().push_str("body");
    assert_eq!(app.body_buffer, "body");
    assert_eq!(app.active_panel, Panel::Url);
    assert!(app.buffer_mut(Panel::Response).is_none());
    assert!(app.buffer_mut(Panel::Sidebar).is_none());
    app.buffer_mut(Panel::Headers).unwrap().clear();
    app.set_cursor_of(Panel::Headers, 12);
    assert_eq!(app.cursor_of(Panel::Headers), 0);
}

#[test]
fn set_cursor_never_lands_inside_a_character() {
    let mut app = editing_body("aé", 0);
    app.set_cursor(2);
    assert_eq!(app.cursor(), 1);
}

#[test]
fn current_buffer_follows_the_focus() {
    let mut app = App::new();
    app.body_buffer = "body".to_string();
    assert_eq!(app.current_buffer(), "https://api.example.com");
    app.set_panel(Panel::Headers);
    assert_eq!(app.current_buffer(), "Content-Type: application/json");
    app.set_panel(Panel::Body);
    assert_eq!(app.current_buffer(), "body");
    app.set_panel(Panel::Response);
    assert_eq!(app.current_buffer(), "No response yet. Press Enter to send request.");
    app.set_panel(Panel::Sidebar);
    assert_eq!(app.current_buffer(), "");
    assert_eq!(app.buffer(Panel::Body), "body");
}

#[test]
fn only_request_panels_can_be_changed() {
    let mut app = App::new();
    for panel in [Panel::Url, Panel::Headers, Panel::Body] {
        app.set_panel(panel);
        assert!(panel.editable());
        let text = app.current_buffer_mut().unwrap();
        text.push('!');
    }
    assert_eq!(app.url_buffer, "https://api.example.com!");
    assert_eq!(app.headers_buffer, "Content-Type: application/json!");
    assert_eq!(app.body_buffer, "!");
    for panel in [Panel::Sidebar, Panel::Response] {
        app.set_panel(panel);
        assert!(!panel.editable());
        assert!(app.current_buffer_mut().is_none());
    }
}

#[test]
fn any_mode_but_command_empties_the_command_line() {
    let mut app = App::new();
    app.set_mode(Mode::Command);
    app.command_push('a');
    app.command_push('é');
    assert_eq!(app.command_buffer, "aé");
    app.set_mode(Mode::Command);
    assert_eq!(app.command_buffer, "aé");
    app.command_pop();
    assert_eq!(app.command_buffer, "a");
    app.command_pop();
    app.command_pop();
    assert_eq!(app.command_buffer, "");
    app.command_push('x');
    for mode in [Mode::Normal, Mode::Insert, Mode::Visual] {
        app.command_buffer = "left over".to_string();
        app.set_mode(mode);
        assert_eq!(app.mode, mode);
        assert_eq!(app.command_buffer, "");
    }
}

#[test]
fn scroll_follows_the_cursor_by_the_shortest_way() {
    let mut app = App::new();
    app.update_scroll(Panel::Body, 3, 5);
    assert_eq!(app.scroll_offset(Panel::Body), 0);
    app.update_scroll(Panel::Body, 5, 5);
    assert_eq!(app.scroll_offset(Panel::Body), 1);
    app.update_scroll(Panel::Body, 20, 5);
    assert_eq!(app.scroll_offset(Panel::Body), 16);
    app.update_scroll(Panel::Body, 18, 5);
    assert_eq!(app.scroll_offset(Panel::Body), 16);
    app.update_scroll(Panel::Body, 15, 5);
    assert_eq!(app.scroll_offset(Panel::Body), 15);
    app.update_scroll(Panel::Body, 0, 1);
    assert_eq!(app.scroll_offset(Panel::Body), 0);
    assert_eq!(app.scroll_offset(Panel::Headers), 0);
}

#[test]
fn scroll_at_the_limits() {
    let mut app = App::new();
    app.update_scroll(Panel::Response, u16::MAX, 1);
    assert_eq!(app.scroll_offset(Panel::Response), u16::MAX);
    app.update_scroll(Panel::Response, u16::MAX, u16::MAX);
    assert_eq!(app.scroll_offset(Panel::Response), u16::MAX);
    app.update_scroll(Panel::Response, 10, u16::MAX);
    assert_eq!(app.scroll_offset(Panel::Response), 10);
    app.update_scroll(Panel::Response, u16::MAX, u16::MAX);
    assert_eq!(app.scroll_offset(Panel::Response), 10);
    app.update_scroll(Panel::Response, 3, 0);
    assert_eq!(app.scroll_offset(Panel::Response), 10);
}

#[test]
fn pending_command_and_register_setters() {
    let mut app = App::new();
    app.set_pending_command(PendingCommand::Yank);
    assert_eq!(app.pending_command, Some(PendingCommand::Yank));
    app.clear_pending_command();
    assert_eq!(app.pending_command, None);
    app.set_yank_register("kept".to_string());
    assert_eq!(app.yank_register, Some("kept".to_string()));
    app.quit();
    assert!(app.should_quit);
}

#[test]
fn headers_of_the_header_block() {
    let mut app = App::new();
    assert_eq!(
        app.parsed_headers(),
        vec![("Content-Type".to_string(), "application/json".to_string())]
    );
    app.headers_buffer = "Content-Type: application/json\nBad Line".to_string();
    assert_eq!(
        app.parsed_headers(),
        vec![("Content-Type".to_string(), "application/json".to_string())]
    );
}

#[test]
fn line_and_column_of_a_cursor() {
    let app = App::new();
    assert_eq!(app.cursor_to_line_col("GET\nPOST", 5), (1, 1));
    assert_eq!(app.line_col_to_cursor("GET\nPOST", 1, 1), 5);
    assert_eq!(app.line_col_to_cursor("GET\nPOST", 7, 0), 9);
}

#[test]
fn cursor_moves_by_line_and_word() {
    let mut app = editing_body("one two\nthree", 0);
    app.move_word_forward();
    assert_eq!(app.cursor(), 4);
    app.move_cursor_down();
    assert_eq!(app.cursor(), 12);
    app.move_word_backwards();
    assert_eq!(app.cursor(), 8);
    app.move_cursor_up();
    assert_eq!(app.cursor(), 0);
    app.move_right();
    app.move_right();
    assert_eq!(app.cursor(), 2);
    app.move_left();
    assert_eq!(app.cursor(), 1);
    app.move_line_end();
    assert_eq!(app.cursor(), 7);
    app.move_last_line();
    assert_eq!(app.cursor(), 8);
    app.move_line_start();
    assert_eq!(app.cursor(), 8);
    app.move_top();
    assert_eq!(app.cursor(), 0);
    assert_eq!(app.body_buffer, "one two\nthree");
}

#[test]
fn collections_selection() {
    let mut app = App::new();
    assert_eq!(app.selected_collection(), Some("My Requests"));
    app.select_previous_collection();
    assert_eq!(app.selected_collection_index, 0);
    app.select_next_collection();
    assert_eq!(app.selected_collection(), Some("API Tests"));
    app.select_next_collection();
    assert_eq!(app.selected_collection_index, 1);
    app.set_collections(vec!["only".to_string()]);
    assert_eq!(app.selected_collection(), None);
    app.select_previous_collection();
    assert_eq!(app.selected_collection(), Some("only"));
    app.set_collections(Vec::new());
    app.select_next_collection();
    assert_eq!(app.selected_collection_index, 0);
    assert_eq!(app.selected_collection(), None);
}

#[test]
fn decimal_digits() {
    assert_eq!(decimal(0), "0");
    assert_eq!(decimal(7), "7");
    assert_eq!(decimal(10), "10");
    assert_eq!(decimal(200), "200");
    assert_eq!(decimal(404), "404");
    assert_eq!(decimal(65535), "65535");
}

#[test]
fn response_text_is_status_and_body() {
    assert_eq!(response_text(200, "{\"ok\":true}"), "Status: 200\n\n{\"ok\":true}");
    assert_eq!(response_text(65535, ""), "Status: 65535\n\n");
    assert_eq!(placeholder(), "No response yet. Press Enter to send request.");
}

#[test]
fn received_response_is_shown_and_focused() {
    let mut app = App::new();
    app.receive_response(Some(Response::new(201, "Created".to_string(), "made".to_string())));
    assert_eq!(app.active_panel, Panel::Response);
    assert_eq!(app.response_text(), "Status: 201\n\nmade");
    assert_eq!(app.last_response.as_ref().unwrap().status, 201);
    assert_eq!(app.current_buffer(), "Status: 201\n\nmade");
}

#[test]
fn failed_request_gives_the_sentinel_response() {
    let mut app = App::new();
    app.receive_response(None);
    let r = app.last_response.as_ref().unwrap();
    assert_eq!(r.status, 65535);
    assert_eq!(r.status_text, "Invalid Request");
    assert_eq!(r.body, "");
    assert_eq!(r.headers.len(), 0);
    assert_eq!(app.response_text(), "Status: 65535\n\n");
    assert_eq!(app.active_panel, Panel::Response);
}

#[test]
fn response_cursor_is_taken_into_the_new_text() {
    let mut app = App::new();
    app.set_panel(Panel::Response);
    app.set_cursor(40);
    assert_eq!(app.cursor(), 40);
    app.receive_response(Some(Response::new(200, "OK".to_string(), "é".to_string())));
    // "Status: 200\n\né" is 15 bytes long
    assert_eq!(app.cursor(), 15);
    app.clear_response();
    assert!(app.last_response.is_none());
    assert_eq!(app.response_text(), "No response yet. Press Enter to send request.");
    assert_eq!(app.cursor(), 15);
    app.last_response = Some(Response::new(200, "OK".to_string(), "é".to_string()));
    app.cursors.set(Panel::Response, 14);
    app.update_response_buffer();
    assert_eq!(app.cursor(), 13);
}

#[test]
fn request_of_the_buffers() {
    let mut app = App::new();
    app.url_buffer = "http://h/p".to_string();
    app.headers_buffer = "A: 1\nnope\nB: 2\nA: 3".to_string();
    app.body_buffer = "{}".to_string();
    app.current_request.method = Method::PATCH;
    let r = app.build_request();
    assert_eq!(r.method, Method::PATCH);
    assert_eq!(r.url, "http://h/p");
    assert_eq!(r.body, "{}");
    assert_eq!(r.headers.len(), 2);
    assert_eq!(r.headers.get("A"), Some("3"));
    assert_eq!(r.headers.get("B"), Some("2"));
}

#[test]
fn loaded_request_fills_the_buffers() {
    let mut app = App::new();
    app.set_cursor(23);
    app.current_request.method = Method::PUT;
    let request = Request::new(Method::POST, "http://x".to_string())
        .with_header("Accept".to_string(), "*/*".to_string())
        .with_header("Host".to_string(), "x".to_string())
        .with_body("b\nc".to_string());
    app.load_request(&request);
    assert_eq!(app.url_buffer, "http://x");
    assert_eq!(app.headers_buffer, "Accept: */*\nHost: x");
    assert_eq!(app.body_buffer, "b\nc");
    assert_eq!(app.cursors.get(Panel::Url), 8);
    assert_eq!(app.cursors.get(Panel::Headers), 0);
    assert_eq!(app.current_request.method, Method::PUT);
    assert_eq!(app.active_panel, Panel::Url);
}

#[test]
fn panel_cycle() {
    assert_eq!(Panel::Sidebar.next(), Panel::Url);
    assert_eq!(Panel::Url.next(), Panel::Headers);
    assert_eq!(Panel::Headers.next(), Panel::Body);
    assert_eq!(Panel::Body.next(), Panel::Response);
    assert_eq!(Panel::Response.next(), Panel::Sidebar);
    for panel in [Panel::Sidebar, Panel::Url, Panel::Headers, Panel::Body, Panel::Response] {
        assert_eq!(panel.next().previous(), panel);
    }
    assert_eq!(Panel::numbered('1'), Some(Panel::Sidebar));
    assert_eq!(Panel::numbered('5'), Some(Panel::Response));
    assert_eq!(Panel::numbered('6'), None);
    assert_eq!(Panel::numbered('0'), None);
}

#[test]
fn panel_map_keeps_one_value_each() {
    let mut map = PanelMap::uniform(3u16);
    map.set(Panel::Body, 9);
    assert_eq!(map.get(Panel::Body), 9);
    assert_eq!(map.get(Panel::Url), 3);
    assert_eq!(map.get(Panel::Response), 3);
}

#[test]
fn lines_as_stretches() {
    assert_eq!(line_spans("ab\n\ncd"), vec![(0, 2), (3, 3), (4, 6)]);
    assert_eq!(line_spans(""), vec![(0, 0)]);
    assert_eq!(line_spans("x\n"), vec![(0, 1), (2, 2)]);
}

#[test]
fn selected_part_of_a_line() {
    assert_eq!(selected_part((4, 9), (0, 4)), None);
    assert_eq!(selected_part((4, 9), (9, 12)), None);
    assert_eq!(selected_part((4, 9), (0, 5)), Some((4, 5)));
    assert_eq!(selected_part((4, 9), (6, 20)), Some((6, 9)));
    assert_eq!(selected_part((4, 9), (5, 7)), Some((5, 7)));
    assert_eq!(selected_part((4, 9), (0, 20)), Some((4, 9)));
    assert_eq!(selected_part((4, 4), (0, 20)), Some((4, 4)));
}

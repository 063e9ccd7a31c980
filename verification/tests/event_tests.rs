use labgrid_tui::app::{App, InputMode, View};
use labgrid_tui::event::{handle_app_event, handle_terminal_event, AppEvent, KeyCode, KeyEvent, TerminalEvent};
use labgrid_tui::grpc::client::CoordinatorEvent;
use labgrid_tui::model::place::PlaceInfo;

fn key(c: KeyCode) -> TerminalEvent {
    TerminalEvent::Key(KeyEvent { code: c, ctrl: false })
}

fn ch(c: char) -> TerminalEvent {
    key(KeyCode::Char(c))
}

fn app_with_places(n: usize) -> App {
    let mut app = App::new("http://c:1".to_string());
    for i in 0..n {
        app.handle_coordinator_event(CoordinatorEvent::PlaceUpdate(PlaceInfo {
            name: format!("place-{i}"),
            aliases: vec![],
            comment: String::new(),
            tags: vec![],
            matches: vec![],
            acquired: None,
            acquired_resources: vec![],
            allowed: vec![],
            created: 0,
            changed: 0,
            reservation: None,
        }));
    }
    app
}

#[test]
fn q_and_ctrl_c_quit() {
    let mut app = app_with_places(1);
    assert!(handle_terminal_event(&mut app, ch('q')));
    assert!(handle_terminal_event(&mut app, TerminalEvent::Key(KeyEvent { code: KeyCode::Char('c'), ctrl: true })));
    assert!(!handle_terminal_event(&mut app, ch('c')));
}

#[test]
fn number_keys_switch_views() {
    let mut app = app_with_places(1);
    handle_terminal_event(&mut app, ch('2'));
    assert_eq!(app.view, View::Resources);
    handle_terminal_event(&mut app, ch('3'));
    assert_eq!(app.view, View::Exporters);
    handle_terminal_event(&mut app, ch('1'));
    assert_eq!(app.view, View::Places);
}

#[test]
fn navigation_keys_move_selection() {
    let mut app = app_with_places(3);
    handle_terminal_event(&mut app, ch('j'));
    handle_terminal_event(&mut app, key(KeyCode::Down));
    handle_terminal_event(&mut app, key(KeyCode::Down));
    assert_eq!(app.selected_index, 2);
    handle_terminal_event(&mut app, ch('k'));
    assert_eq!(app.selected_index, 1);
    handle_terminal_event(&mut app, key(KeyCode::Up));
    assert_eq!(app.selected_index, 0);
    handle_terminal_event(&mut app, ch('G'));
    assert_eq!(app.selected_index, 2);
    handle_terminal_event(&mut app, ch('g'));
    assert_eq!(app.selected_index, 0);
    handle_terminal_event(&mut app, key(KeyCode::End));
    assert_eq!(app.selected_index, 2);
    handle_terminal_event(&mut app, key(KeyCode::Home));
    assert_eq!(app.selected_index, 0);
}

#[test]
fn detail_panel_keys() {
    let mut app = app_with_places(1);
    handle_terminal_event(&mut app, ch('d'));
    assert_eq!(app.detail_scroll, 0);
    handle_terminal_event(&mut app, key(KeyCode::Enter));
    assert!(app.detail_open);
    handle_terminal_event(&mut app, ch('d'));
    handle_terminal_event(&mut app, ch('d'));
    handle_terminal_event(&mut app, ch('u'));
    assert_eq!(app.detail_scroll, 1);
    handle_terminal_event(&mut app, key(KeyCode::Esc));
    assert!(!app.detail_open);
}

#[test]
fn esc_clears_filter_before_closing_detail() {
    let mut app = app_with_places(2);
    app.filter = Some("x".to_string());
    app.detail_open = true;
    handle_terminal_event(&mut app, key(KeyCode::Esc));
    assert!(app.filter.is_none());
    assert!(app.detail_open);
    handle_terminal_event(&mut app, key(KeyCode::Esc));
    assert!(!app.detail_open);
}

#[test]
fn help_overlay_captures_keys() {
    let mut app = app_with_places(2);
    handle_terminal_event(&mut app, ch('?'));
    assert!(app.help_open);
    // keys other than Esc, ? and q do nothing while help is open
    assert!(!handle_terminal_event(&mut app, ch('j')));
    assert_eq!(app.selected_index, 0);
    // q closes help instead of quitting
    assert!(!handle_terminal_event(&mut app, ch('q')));
    assert!(!app.help_open);
    handle_terminal_event(&mut app, ch('?'));
    handle_terminal_event(&mut app, key(KeyCode::Esc));
    assert!(!app.help_open);
    handle_terminal_event(&mut app, ch('?'));
    handle_terminal_event(&mut app, ch('?'));
    assert!(!app.help_open);
}

#[test]
fn typing_a_filter() {
    let mut app = app_with_places(12);
    handle_terminal_event(&mut app, ch('/'));
    assert_eq!(app.input_mode, InputMode::Filter);
    for c in "place-1x".chars() {
        handle_terminal_event(&mut app, ch(c));
    }
    // q is text while typing, not quit
    assert!(!handle_terminal_event(&mut app, ch('q')));
    handle_terminal_event(&mut app, key(KeyCode::Backspace));
    handle_terminal_event(&mut app, key(KeyCode::Backspace));
    assert_eq!(app.input_buffer, "place-1");
    handle_terminal_event(&mut app, key(KeyCode::Enter));
    assert_eq!(app.filter.as_deref(), Some("place-1"));
    assert_eq!(app.filtered_place_names(), vec!["place-1", "place-10", "place-11"]);
}

#[test]
fn backspace_on_empty_input_is_harmless() {
    let mut app = app_with_places(0);
    handle_terminal_event(&mut app, ch(':'));
    handle_terminal_event(&mut app, key(KeyCode::Backspace));
    assert_eq!(app.input_buffer, "");
    assert_eq!(app.input_mode, InputMode::Command);
    handle_terminal_event(&mut app, key(KeyCode::Esc));
    assert_eq!(app.input_mode, InputMode::Normal);
}

#[test]
fn command_typed_by_keys_quits_via_flag() {
    let mut app = app_with_places(0);
    handle_terminal_event(&mut app, ch(':'));
    for c in "quit".chars() {
        handle_terminal_event(&mut app, ch(c));
    }
    assert!(!handle_terminal_event(&mut app, key(KeyCode::Enter)));
    assert!(app.should_quit);
}

#[test]
fn resize_and_other_events_do_nothing() {
    let mut app = app_with_places(1);
    assert!(!handle_terminal_event(&mut app, TerminalEvent::Resize(80, 24)));
    assert!(!handle_terminal_event(&mut app, TerminalEvent::Other));
    assert!(!handle_terminal_event(&mut app, key(KeyCode::Other)));
    assert_eq!(app.view, View::Places);
}

#[test]
fn main_loop_steps() {
    let mut app = app_with_places(2);
    assert!(!handle_app_event(&mut app, AppEvent::Tick));
    assert!(!handle_app_event(&mut app, AppEvent::Coordinator(CoordinatorEvent::Connected)));
    assert!(app.connected);
    assert!(!handle_app_event(&mut app, AppEvent::Terminal(ch('j'))));
    assert_eq!(app.selected_index, 1);
    assert!(!handle_app_event(&mut app, AppEvent::Terminal(ch(':'))));
    assert!(!handle_app_event(&mut app, AppEvent::Terminal(ch('q'))));
    assert_eq!(app.input_buffer, "q");
    // submitting ":q" sets the quit flag, which ends the loop
    assert!(handle_app_event(&mut app, AppEvent::Terminal(key(KeyCode::Enter))));
    assert!(app.should_quit);
    assert!(handle_app_event(&mut app, AppEvent::Tick));
}

#[test]
fn main_loop_quits_on_q() {
    let mut app = app_with_places(1);
    assert!(handle_app_event(&mut app, AppEvent::Terminal(ch('q'))));
    assert!(!app.should_quit);
}

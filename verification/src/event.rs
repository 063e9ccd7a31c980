//! Terminal input: what each key does to the application state.

use vstd::prelude::*;
use vstd::view::View as _;
use crate::app::{App, AppView, InputMode, View};
use crate::grpc::client::CoordinatorEvent;
use crate::text::{pop_char, push_char};

verus! {

/// The keys the application tells apart.
#[derive(Debug, Clone, Copy, PartialEq, Eq, Structural)]
pub enum KeyCode {
    Char(char),
    Enter,
    Esc,
    Backspace,
    Up,
    Down,
    Home,
    End,
    /// Any other key.
    Other,
}

/// A key press, with whether Control was held.
#[derive(Debug, Clone, Copy, PartialEq, Eq, Structural)]
pub struct KeyEvent {
    pub code: KeyCode,
    pub ctrl: bool,
}

/// A terminal event.
#[derive(Debug, Clone, Copy, PartialEq, Eq, Structural)]
pub enum TerminalEvent {
    Key(KeyEvent),
    Resize(u16, u16),
    /// Mouse, focus and paste events, which the application ignores.
    Other,
}

/// The effect of a key while the filter or command bar is open.
pub open spec fn input_key_outcome(v: AppView, key: KeyEvent) -> AppView {
    match key.code {
        KeyCode::Enter => v.after_submit(),
        KeyCode::Esc => v.after_enter_mode(InputMode::Normal),
        KeyCode::Char(c) => AppView { input_buffer: v.input_buffer.push(c), ..v },
        KeyCode::Backspace => AppView {
            input_buffer: if v.input_buffer.len() > 0 {
                v.input_buffer.drop_last()
            } else {
                v.input_buffer
            },
            ..v
        },
        _ => v,
    }
}

/// The effect of a key while the help overlay is open: Esc, `?` or `q` close it.
pub open spec fn help_key_outcome(v: AppView, key: KeyEvent) -> AppView {
    match key.code {
        KeyCode::Esc => AppView { help_open: false, ..v },
        KeyCode::Char(c) => if c == '?' || c == 'q' {
            AppView { help_open: false, ..v }
        } else {
            v
        },
        _ => v,
    }
}

/// The effect of a key in normal mode, and whether it asks to quit.
pub open spec fn normal_key_outcome(v: AppView, key: KeyEvent) -> (AppView, bool) {
    match key.code {
        KeyCode::Char(c) => {
            if c == 'q' {
                (v, true)
            } else if c == 'c' && key.ctrl {
                (v, true)
            } else if c == '1' {
                (v.after_switch_view(View::Places), false)
            } else if c == '2' {
                (v.after_switch_view(View::Resources), false)
            } else if c == '3' {
                (v.after_switch_view(View::Exporters), false)
            } else if c == 'j' {
                (v.after_select_next(), false)
            } else if c == 'k' {
                (v.after_select_prev(), false)
            } else if c == 'g' {
                (v.after_select_first(), false)
            } else if c == 'G' {
                (v.after_select_last(), false)
            } else if c == 'd' && v.detail_open {
                (v.after_scroll_down(), false)
            } else if c == 'u' && v.detail_open {
                (v.after_scroll_up(), false)
            } else if c == '/' {
                (v.after_enter_mode(InputMode::Filter), false)
            } else if c == ':' {
                (v.after_enter_mode(InputMode::Command), false)
            } else if c == '?' {
                (v.after_toggle_help(), false)
            } else {
                (v, false)
            }
        },
        KeyCode::Down => (v.after_select_next(), false),
        KeyCode::Up => (v.after_select_prev(), false),
        KeyCode::Home => (v.after_select_first(), false),
        KeyCode::End => (v.after_select_last(), false),
        KeyCode::Enter => (v.after_toggle_detail(), false),
        KeyCode::Esc => {
            if v.filter is Some {
                (v.after_clear_filter(), false)
            } else if v.detail_open {
                (AppView { detail_open: false, ..v }, false)
            } else {
                (v, false)
            }
        },
        _ => (v, false),
    }
}

/// The effect of a key, and whether it asks to quit: the open input bar
/// takes every key, then the help overlay, then the normal bindings.
pub open spec fn key_outcome(v: AppView, key: KeyEvent) -> (AppView, bool) {
    match v.input_mode {
        InputMode::Normal => if v.help_open {
            (help_key_outcome(v, key), false)
        } else {
            normal_key_outcome(v, key)
        },
        _ => (input_key_outcome(v, key), false),
    }
}

/// The effect of a terminal event, and whether it asks to quit.
pub open spec fn terminal_outcome(v: AppView, event: TerminalEvent) -> (AppView, bool) {
    match event {
        TerminalEvent::Key(key) => key_outcome(v, key),
        _ => (v, false),
    }
}

/// Process a terminal event against the app state.
/// Returns true if the app should quit.
pub fn handle_terminal_event(app: &mut App, event: TerminalEvent) -> (quit: bool)
    ensures
        (final(app)@, quit) == terminal_outcome(old(app)@, event),
{
    match event {
        TerminalEvent::Key(key) => handle_key(app, key),
        TerminalEvent::Resize(_, _) => false,
        TerminalEvent::Other => false,
    }
}

fn handle_key(app: &mut App, key: KeyEvent) -> (quit: bool)
    ensures
        (final(app)@, quit) == key_outcome(old(app)@, key),
{
    match app.input_mode {
        InputMode::Filter | InputMode::Command => {
            return handle_input_key(app, key);
        },
        InputMode::Normal => {},
    }
    if app.help_open {
        match key.code {
            KeyCode::Esc => {
                app.help_open = false;
            },
            KeyCode::Char(c) => {
                if c == '?' || c == 'q' {
                    app.help_open = false;
                }
            },
            _ => {},
        }
        return false;
    }
    match key.code {
        KeyCode::Char(c) => {
            if c == 'q' {
                return true;
            } else if c == 'c' && key.ctrl {
                return true;
            } else if c == '1' {
                app.switch_view(View::Places);
            } else if c == '2' {
                app.switch_view(View::Resources);
            } else if c == '3' {
                app.switch_view(View::Exporters);
            } else if c == 'j' {
                app.select_next();
            } else if c == 'k' {
                app.select_prev();
            } else if c == 'g' {
                app.select_first();
            } else if c == 'G' {
                app.select_last();
            } else if c == 'd' && app.detail_open {
                app.scroll_detail_down();
            } else if c == 'u' && app.detail_open {
                app.scroll_detail_up();
            } else if c == '/' {
                app.enter_filter_mode();
            } else if c == ':' {
                app.enter_command_mode();
            } else if c == '?' {
                app.toggle_help();
            }
        },
        KeyCode::Down => app.select_next(),
        KeyCode::Up => app.select_prev(),
        KeyCode::Home => app.select_first(),
        KeyCode::End => app.select_last(),
        KeyCode::Enter => app.toggle_detail(),
        KeyCode::Esc => {
            if app.filter.is_some() {
                app.clear_filter();
            } else if app.detail_open {
                app.detail_open = false;
            }
        },
        _ => {},
    }
    false
}

fn handle_input_key(app: &mut App, key: KeyEvent) -> (quit: bool)
    requires
        old(app).input_mode != InputMode::Normal,
    ensures
        (final(app)@, quit) == key_outcome(old(app)@, key),
{
    match key.code {
        KeyCode::Enter => {
            app.submit_input();
        },
        KeyCode::Esc => {
            app.exit_input_mode();
        },
        KeyCode::Char(c) => {
            push_char(&mut app.input_buffer, c);
        },
        KeyCode::Backspace => {
            pop_char(&mut app.input_buffer);
        },
        _ => {},
    }
    false
}

/// All events the main loop processes.
#[derive(Debug, PartialEq, Eq)]
pub enum AppEvent {
    /// Terminal key/resize event.
    Terminal(TerminalEvent),
    /// Tick for periodic UI refresh.
    Tick,
    /// Event from the gRPC coordinator stream.
    Coordinator(CoordinatorEvent),
}

/// The effect of one event of the main loop, and whether the loop ends
/// after it: a key asked to quit, or the state asks to quit.
pub open spec fn app_event_outcome(v: AppView, event: AppEvent) -> (AppView, bool) {
    match event {
        AppEvent::Terminal(ev) => {
            let (w, q) = terminal_outcome(v, ev);
            (w, q || w.should_quit)
        },
        AppEvent::Tick => (v, v.should_quit),
        AppEvent::Coordinator(ev) => {
            let w = v.after_event(ev);
            (w, w.should_quit)
        },
    }
}

/// One turn of the main loop: apply the event, and say whether to stop.
pub fn handle_app_event(app: &mut App, event: AppEvent) -> (quit: bool)
    requires
        old(app)@.well_formed(),
    ensures
        (final(app)@, quit) == app_event_outcome(old(app)@, event),
        final(app)@.well_formed(),
{
    match event {
        AppEvent::Terminal(ev) => {
            let ghost before = app@;
            let q = handle_terminal_event(app, ev);
            proof {
                crate::laws::law_input_keeps_well_formed(before, ev);
            }
            q || app.should_quit
        },
        AppEvent::Tick => app.should_quit,
        AppEvent::Coordinator(ev) => {
            app.handle_coordinator_event(ev);
            app.should_quit
        },
    }
}

} // verus!

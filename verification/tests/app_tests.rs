use labgrid_tui::app::{App, InputMode, View};
use labgrid_tui::grpc::client::CoordinatorEvent;
use labgrid_tui::model::place::PlaceInfo;
use labgrid_tui::model::resource::{ResourceInfo, ResourcePath};

fn path(e: &str, g: &str, n: &str) -> ResourcePath {
    ResourcePath { exporter: e.to_string(), group: g.to_string(), name: n.to_string() }
}

fn resource(e: &str, g: &str, n: &str, cls: &str, available: bool, acquired: Option<&str>) -> ResourceInfo {
    ResourceInfo {
        path: path(e, g, n),
        cls: cls.to_string(),
        params: vec![],
        extra: vec![],
        acquired: acquired.map(|s| s.to_string()),
        available,
    }
}

fn place(name: &str) -> PlaceInfo {
    PlaceInfo {
        name: name.to_string(),
        aliases: vec![],
        comment: String::new(),
        tags: vec![],
        matches: vec![],
        acquired: None,
        acquired_resources: vec![],
        allowed: vec![],
        created: 0,
        changed: 0,
        reservation: None,
    }
}

fn sample_app() -> App {
    let mut app = App::new("http://coord:20408".to_string());
    for name in ["rpi-2", "Alpha", "beta-board", "rpi-10"] {
        app.handle_coordinator_event(CoordinatorEvent::PlaceUpdate(place(name)));
    }
    app.handle_coordinator_event(CoordinatorEvent::ResourceUpdate(resource("exp-b", "main", "serial", "RawSerialPort", true, None)));
    app.handle_coordinator_event(CoordinatorEvent::ResourceUpdate(resource("exp-a", "main", "power", "NetworkPowerPort", false, Some("alice"))));
    app.handle_coordinator_event(CoordinatorEvent::ResourceUpdate(resource("exp-a", "aux", "usb", "USBSerialPort", true, Some(""))));
    app.handle_coordinator_event(CoordinatorEvent::ResourceUpdate(resource("exp-a", "main", "serial", "RawSerialPort", true, None)));
    app
}

#[test]
fn view_labels_indices_and_order() {
    assert_eq!(View::Places.label(), "Places");
    assert_eq!(View::Resources.label(), "Resources");
    assert_eq!(View::Exporters.label(), "Exporters");
    assert_eq!(View::all(), [View::Places, View::Resources, View::Exporters]);
    assert_eq!(View::Places.index(), 0);
    assert_eq!(View::Resources.index(), 1);
    assert_eq!(View::Exporters.index(), 2);
}

#[test]
fn new_app_starts_disconnected_on_places() {
    let app = App::new("ws://c/ws".to_string());
    assert!(!app.connected);
    assert_eq!(app.coordinator_url, "ws://c/ws");
    assert_eq!(app.status_message, "connecting...");
    assert!(app.places.is_empty() && app.resources.is_empty());
    assert_eq!(app.view, View::Places);
    assert_eq!(app.selected_index, 0);
    assert_eq!(app.input_mode, InputMode::Normal);
    assert!(app.filter.is_none());
    assert!(!app.synced && !app.should_quit && !app.detail_open && !app.help_open);
}

#[test]
fn places_are_kept_in_name_order() {
    let app = sample_app();
    // byte-wise order of Rust strings: upper case before lower case
    assert_eq!(app.filtered_place_names(), vec!["Alpha", "beta-board", "rpi-10", "rpi-2"]);
}

#[test]
fn resources_are_kept_in_path_order() {
    let app = sample_app();
    let paths: Vec<String> = app.filtered_resource_paths().iter().map(|p| p.text()).collect();
    assert_eq!(paths, vec!["exp-a/aux/usb", "exp-a/main/power", "exp-a/main/serial", "exp-b/main/serial"]);
}

#[test]
fn resource_update_replaces_and_removal_forgets() {
    let mut app = sample_app();
    app.handle_coordinator_event(CoordinatorEvent::ResourceUpdate(resource("exp-a", "main", "power", "NetworkPowerPort", true, None)));
    assert_eq!(app.resources.len(), 4);
    let p = path("exp-a", "main", "power");
    let got = app.resources.iter().find(|(k, _)| *k == p).unwrap();
    assert!(got.1.available);
    app.handle_coordinator_event(CoordinatorEvent::ResourceRemoved(p.clone()));
    assert_eq!(app.resources.len(), 3);
    assert!(app.resources.iter().all(|(k, _)| *k != p));
    // removing an absent path changes nothing
    app.handle_coordinator_event(CoordinatorEvent::ResourceRemoved(p));
    assert_eq!(app.resources.len(), 3);
}

#[test]
fn place_removal_forgets_place() {
    let mut app = sample_app();
    app.handle_coordinator_event(CoordinatorEvent::PlaceRemoved("rpi-2".to_string()));
    assert_eq!(app.filtered_place_names(), vec!["Alpha", "beta-board", "rpi-10"]);
}

#[test]
fn connection_events_set_status() {
    let mut app = sample_app();
    app.handle_coordinator_event(CoordinatorEvent::Connected);
    assert!(app.connected);
    assert_eq!(app.status_message, "connected");
    app.handle_coordinator_event(CoordinatorEvent::Disconnected("stream ended".to_string()));
    assert!(!app.connected);
    assert_eq!(app.status_message, "disconnected: stream ended");
}

#[test]
fn sync_complete_reports_counts() {
    let mut app = sample_app();
    app.handle_coordinator_event(CoordinatorEvent::SyncComplete(7));
    assert!(app.synced);
    assert_eq!(app.last_sync_id, 7);
    assert_eq!(app.status_message, "synced — 4 places, 4 resources");
}

#[test]
fn filter_is_case_insensitive_substring() {
    let mut app = sample_app();
    app.filter = Some("RPI".to_string());
    assert_eq!(app.filtered_place_names(), vec!["rpi-10", "rpi-2"]);
    app.filter = Some("main/SER".to_string());
    let paths: Vec<String> = app.filtered_resource_paths().iter().map(|p| p.text()).collect();
    assert_eq!(paths, vec!["exp-a/main/serial", "exp-b/main/serial"]);
    app.filter = Some(String::new());
    assert_eq!(app.filtered_place_names().len(), 4);
}

#[test]
fn exporters_group_resources_by_exporter() {
    let app = sample_app();
    let exps = app.exporters();
    assert_eq!(exps.len(), 2);
    let a = &exps[0];
    assert_eq!(a.name, "exp-a");
    assert_eq!(a.total_resources, 3);
    assert_eq!(a.available, 2);
    assert_eq!(a.unavailable, 1);
    // an empty owner does not count as acquired
    assert_eq!(a.acquired, 1);
    assert_eq!(a.resource_classes, vec!["NetworkPowerPort", "RawSerialPort", "USBSerialPort"]);
    let b = &exps[1];
    assert_eq!(b.name, "exp-b");
    assert_eq!(b.total_resources, 1);
    assert_eq!(b.resource_classes, vec!["RawSerialPort"]);
}

#[test]
fn exporters_respect_filter() {
    let mut app = sample_app();
    app.filter = Some("-B".to_string());
    let exps = app.exporters();
    assert_eq!(exps.len(), 1);
    assert_eq!(exps[0].name, "exp-b");
}

#[test]
fn item_count_follows_view() {
    let mut app = sample_app();
    assert_eq!(app.item_count(), 4);
    app.switch_view(View::Exporters);
    assert_eq!(app.item_count(), 2);
    app.switch_view(View::Resources);
    assert_eq!(app.item_count(), 4);
}

#[test]
fn selection_moves_within_bounds() {
    let mut app = sample_app();
    app.switch_view(View::Exporters);
    app.detail_scroll = 5;
    app.select_next();
    assert_eq!(app.selected_index, 1);
    assert_eq!(app.detail_scroll, 0);
    app.select_next();
    assert_eq!(app.selected_index, 1);
    app.select_prev();
    app.select_prev();
    assert_eq!(app.selected_index, 0);
    app.select_last();
    assert_eq!(app.selected_index, 1);
    app.select_first();
    assert_eq!(app.selected_index, 0);
}

#[test]
fn selection_on_empty_view_stays() {
    let mut app = App::new("x".to_string());
    app.select_next();
    assert_eq!(app.selected_index, 0);
    app.select_last();
    assert_eq!(app.selected_index, 0);
}

#[test]
fn switch_view_resets_selection_and_detail() {
    let mut app = sample_app();
    app.selected_index = 3;
    app.detail_open = true;
    app.detail_scroll = 2;
    app.switch_view(View::Resources);
    assert_eq!(app.view, View::Resources);
    assert_eq!(app.selected_index, 0);
    assert!(!app.detail_open);
    assert_eq!(app.detail_scroll, 0);
}

#[test]
fn toggles_and_scrolling() {
    let mut app = sample_app();
    app.toggle_help();
    assert!(app.help_open);
    app.toggle_help();
    assert!(!app.help_open);
    app.detail_scroll = 4;
    app.toggle_detail();
    assert!(app.detail_open);
    assert_eq!(app.detail_scroll, 0);
    app.scroll_detail_up();
    assert_eq!(app.detail_scroll, 0);
    app.scroll_detail_down();
    app.scroll_detail_down();
    assert_eq!(app.detail_scroll, 2);
    app.detail_scroll = u16::MAX;
    app.scroll_detail_down();
    assert_eq!(app.detail_scroll, u16::MAX);
}

#[test]
fn submitting_filter_sets_or_clears_it() {
    let mut app = sample_app();
    app.selected_index = 2;
    app.enter_filter_mode();
    assert_eq!(app.input_mode, InputMode::Filter);
    app.input_buffer.push_str("rpi");
    app.submit_input();
    assert_eq!(app.filter.as_deref(), Some("rpi"));
    assert_eq!(app.selected_index, 0);
    assert_eq!(app.input_mode, InputMode::Normal);
    assert!(app.input_buffer.is_empty());
    app.enter_filter_mode();
    app.submit_input();
    assert!(app.filter.is_none());
}

#[test]
fn commands_quit_and_switch() {
    let mut app = sample_app();
    for (cmd, view) in [("p", View::Places), ("resources", View::Resources), ("  E  ", View::Exporters), ("Places", View::Places), ("r", View::Resources), ("exporters", View::Exporters)] {
        app.enter_command_mode();
        app.input_buffer.push_str(cmd);
        app.submit_input();
        assert_eq!(app.view, view, "command {cmd:?}");
        assert_eq!(app.input_mode, InputMode::Normal);
    }
    assert!(!app.should_quit);
    app.enter_command_mode();
    app.input_buffer.push_str(" Quit ");
    app.submit_input();
    assert!(app.should_quit);
    let mut app = sample_app();
    app.enter_command_mode();
    app.input_buffer.push_str("q");
    app.submit_input();
    assert!(app.should_quit);
}

#[test]
fn unknown_command_is_reported() {
    let mut app = sample_app();
    app.enter_command_mode();
    app.input_buffer.push_str("  Reboot ");
    app.submit_input();
    assert_eq!(app.status_message, "unknown command: reboot");
    assert!(!app.should_quit);
}

#[test]
fn exit_input_mode_discards_text() {
    let mut app = sample_app();
    app.enter_command_mode();
    app.input_buffer.push_str("quit");
    app.exit_input_mode();
    assert_eq!(app.input_mode, InputMode::Normal);
    assert!(app.input_buffer.is_empty());
    assert!(!app.should_quit);
}

#[test]
fn clear_filter_resets_selection() {
    let mut app = sample_app();
    app.filter = Some("x".to_string());
    app.selected_index = 1;
    app.clear_filter();
    assert!(app.filter.is_none());
    assert_eq!(app.selected_index, 0);
}

#[test]
fn matches_filter_direct() {
    let mut app = App::new(String::new());
    assert!(app.matches_filter("anything"));
    app.filter = Some("ÄB".to_string());
    assert!(app.matches_filter("xxäbyy"));
    assert!(!app.matches_filter("xxabyy"));
}

#[test]
fn exporter_group_lists_one_exporters_resources() {
    let app = sample_app();
    let g = app.exporter_group("exp-a");
    let names: Vec<&str> = g.iter().map(|r| r.path.name.as_str()).collect();
    assert_eq!(names, vec!["usb", "power", "serial"]);
    assert_eq!(app.all_exporter_names(), vec!["exp-a", "exp-b"]);
}

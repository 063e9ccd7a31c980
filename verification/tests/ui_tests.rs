use labgrid_tui::app::{App, InputMode, View};
use labgrid_tui::grpc::client::CoordinatorEvent;
use labgrid_tui::model::place::{MatchInfo, PlaceInfo};
use labgrid_tui::model::resource::{ResourceInfo, ResourcePath};
use labgrid_tui::ui::command::{command_line, filter_line, status_line};
use labgrid_tui::ui::detail::{exporter_detail, place_detail, resource_detail, DetailLine};
use labgrid_tui::ui::header::{connection_status, tab_titles};
use labgrid_tui::ui::help::{centered_split, help_lines, HelpLine};
use labgrid_tui::ui::selected_row;
use labgrid_tui::ui::tables::{exporter_rows, place_rows, resource_rows, table_title};

fn res(e: &str, g: &str, n: &str, cls: &str, available: bool, acquired: Option<&str>) -> ResourceInfo {
    ResourceInfo {
        path: ResourcePath { exporter: e.to_string(), group: g.to_string(), name: n.to_string() },
        cls: cls.to_string(),
        params: vec![],
        extra: vec![],
        acquired: acquired.map(|s| s.to_string()),
        available,
    }
}

fn place(name: &str) -> PlaceInfo {
    PlaceInfo {
        name: name.to_string(),
        aliases: vec![],
        comment: String::new(),
        tags: vec![],
        matches: vec![],
        acquired: None,
        acquired_resources: vec![],
        allowed: vec![],
        created: 0,
        changed: 0,
        reservation: None,
    }
}

fn field(a: &str, b: &str) -> DetailLine {
    DetailLine::Field(a.to_string(), b.to_string())
}

fn section(a: &str) -> DetailLine {
    DetailLine::Section(a.to_string())
}

fn body(a: &str) -> DetailLine {
    DetailLine::Body(a.to_string())
}

fn none() -> DetailLine {
    DetailLine::Dim("  (none)".to_string())
}

fn app() -> App {
    let mut app = App::new("http://coord:20408".to_string());
    let mut p = place("rpi");
    p.aliases = vec!["pi".into(), "board".into()];
    p.comment = "bench 3".into();
    p.tags = vec![("board".into(), "rpi4".into()), ("lab".into(), "".into())];
    p.matches = vec![MatchInfo {
        exporter: "exp-a".into(),
        group: "main".into(),
        cls: "RawSerialPort".into(),
        name: None,
        rename: Some("console".into()),
    }];
    p.acquired = Some("alice".into());
    p.reservation = Some("r1".into());
    app.handle_coordinator_event(CoordinatorEvent::PlaceUpdate(p));
    app.handle_coordinator_event(CoordinatorEvent::PlaceUpdate(place("zed")));
    let mut serial = res("exp-a", "main", "serial", "RawSerialPort", true, None);
    serial.params = vec![("host".into(), "h".into()), ("port".into(), "22".into())];
    app.handle_coordinator_event(CoordinatorEvent::ResourceUpdate(serial));
    app.handle_coordinator_event(CoordinatorEvent::ResourceUpdate(res("exp-a", "aux", "power", "NetworkPowerPort", false, Some("bob"))));
    app.handle_coordinator_event(CoordinatorEvent::ResourceUpdate(res("exp-b", "main", "usb", "USBSerialPort", true, Some(""))));
    app
}

#[test]
fn selected_row_is_held_to_last() {
    assert_eq!(selected_row(0, 0), None);
    assert_eq!(selected_row(5, 0), None);
    assert_eq!(selected_row(1, 3), Some(1));
    assert_eq!(selected_row(7, 3), Some(2));
}

#[test]
fn header_tabs_count_items() {
    let app = app();
    assert_eq!(tab_titles(&app), vec![" 1:Places (2) ", " 2:Resources (3) ", " 3:Exporters (2) "]);
    let empty = App::new("x".to_string());
    assert_eq!(tab_titles(&empty), vec![" 1:Places (0) ", " 2:Resources (0) ", " 3:Exporters (0) "]);
}

#[test]
fn header_tab_counts_ignore_filter() {
    let mut app = app();
    app.filter = Some("nothing-matches".into());
    assert_eq!(tab_titles(&app), vec![" 1:Places (2) ", " 2:Resources (3) ", " 3:Exporters (2) "]);
}

#[test]
fn connection_status_marks() {
    let mut app = app();
    assert_eq!(connection_status(&app), " ○ http://coord:20408");
    app.handle_coordinator_event(CoordinatorEvent::Connected);
    assert_eq!(connection_status(&app), " ● http://coord:20408");
}

#[test]
fn status_and_input_bars() {
    let mut app = app();
    assert_eq!(status_line(&app), " Places | connecting... | ? for help");
    app.filter = Some("rpi".into());
    app.switch_view(View::Resources);
    assert_eq!(status_line(&app), " Resources | connecting... | filter: rpi | ? for help");
    app.input_mode = InputMode::Filter;
    app.input_buffer = "ab".into();
    assert_eq!(filter_line(&app), "/ab");
    assert_eq!(command_line(&app), ":ab");
}

#[test]
fn table_titles() {
    let mut app = app();
    assert_eq!(table_title("Places", &app), " Places ");
    app.filter = Some("exp".into());
    assert_eq!(table_title("Exporters", &app), " Exporters (filter: exp) ");
}

#[test]
fn place_table_rows() {
    let app = app();
    let rows = place_rows(&app);
    assert_eq!(rows.len(), 2);
    assert_eq!(
        rows[0].cells,
        vec!["rpi", "pi, board", "bench 3", "alice", "exp-a/main/RawSerialPort → console", "board=rpi4, lab"]
    );
    assert!(rows[0].acquired);
    assert_eq!(rows[1].cells, vec!["zed", "", "", "", "", ""]);
    assert!(!rows[1].acquired);
}

#[test]
fn resource_table_rows_follow_filter() {
    let mut app = app();
    let rows = resource_rows(&app);
    assert_eq!(rows.len(), 3);
    assert_eq!(rows[0].cells, vec!["exp-a", "aux", "power", "NetworkPowerPort", "no", "bob"]);
    assert!(!rows[0].available && rows[0].acquired);
    assert_eq!(rows[2].cells, vec!["exp-b", "main", "usb", "USBSerialPort", "yes", ""]);
    assert!(rows[2].available && rows[2].acquired);
    app.filter = Some("SERIAL".into());
    let rows = resource_rows(&app);
    assert_eq!(rows.len(), 1);
    assert_eq!(rows[0].cells[2], "serial");
}

#[test]
fn exporter_table_rows() {
    let app = app();
    let rows = exporter_rows(&app.exporters());
    assert_eq!(
        rows,
        vec![
            vec!["exp-a", "2", "1", "1", "1", "NetworkPowerPort, RawSerialPort"],
            vec!["exp-b", "1", "1", "0", "0", "USBSerialPort"],
        ]
    );
}

#[test]
fn place_detail_lists_everything() {
    let app = app();
    let (title, lines) = place_detail(&app);
    assert_eq!(title, "Place: rpi");
    assert_eq!(
        lines,
        vec![
            field("Name", "rpi"),
            field("Comment", "bench 3"),
            field("Aliases", "pi, board"),
            field("Acquired", "alice"),
            field("Reservation", "r1"),
            DetailLine::Blank,
            section("Tags"),
            body("  board = rpi4"),
            body("  lab"),
            DetailLine::Blank,
            section("Matches"),
            body("  exp-a/main/RawSerialPort → console"),
            DetailLine::Blank,
            section("Acquired Resources"),
            none(),
            DetailLine::Blank,
            section("Allowed"),
            none(),
        ]
    );
}

#[test]
fn place_detail_follows_selection_and_empty_view() {
    let mut app = app();
    app.select_next();
    let (title, lines) = place_detail(&app);
    assert_eq!(title, "Place: zed");
    assert_eq!(lines[4], field("Reservation", "none"));
    assert_eq!(lines[7], none());
    app.filter = Some("nomatch".into());
    assert_eq!(place_detail(&app), ("No selection".to_string(), vec![]));
}

#[test]
fn resource_detail_lists_params() {
    let mut app = app();
    app.switch_view(View::Resources);
    app.select_next();
    let (title, lines) = resource_detail(&app);
    assert_eq!(title, "Resource: exp-a/main/serial");
    assert_eq!(
        lines,
        vec![
            field("Exporter", "exp-a"),
            field("Group", "main"),
            field("Name", "serial"),
            field("Class", "RawSerialPort"),
            field("Available", "yes"),
            field("Acquired", ""),
            DetailLine::Blank,
            section("Parameters"),
            body("  host = h"),
            body("  port = 22"),
            DetailLine::Blank,
            section("Extra"),
            none(),
        ]
    );
    let empty = App::new("x".into());
    assert_eq!(resource_detail(&empty), ("No selection".to_string(), vec![]));
}

#[test]
fn exporter_detail_lists_resources() {
    let mut app = app();
    app.switch_view(View::Exporters);
    let (title, lines) = exporter_detail(&app);
    assert_eq!(title, "Exporter: exp-a");
    assert_eq!(
        lines,
        vec![
            field("Name", "exp-a"),
            field("Total Resources", "2"),
            field("Available", "1"),
            field("Unavailable", "1"),
            field("Acquired", "1"),
            DetailLine::Blank,
            section("Resource Classes"),
            body("  NetworkPowerPort"),
            body("  RawSerialPort"),
            DetailLine::Blank,
            section("Resources"),
            body("  ✗ aux/power (NetworkPowerPort) [bob]"),
            body("  ✓ main/serial (RawSerialPort)"),
        ]
    );
    app.select_last();
    let (title, lines) = exporter_detail(&app);
    assert_eq!(title, "Exporter: exp-b");
    assert_eq!(lines[10], body("  ✓ main/usb (USBSerialPort)"));
    let empty = App::new("x".into());
    assert_eq!(exporter_detail(&empty), ("No selection".to_string(), vec![]));
}

#[test]
fn help_overlay_text() {
    let lines = help_lines();
    assert_eq!(lines.len(), 30);
    assert_eq!(lines[0], HelpLine::Title("labgrid-tui Keybindings".into()));
    assert_eq!(lines[1], HelpLine::Blank);
    assert_eq!(lines[2], HelpLine::Section("Navigation".into()));
    assert_eq!(lines[3], HelpLine::Binding("j / ↓".into(), "Move down".into()));
    assert_eq!(lines[29], HelpLine::Binding(":quit / :q".into(), "Quit".into()));
}

#[test]
fn centered_overlay_split() {
    assert_eq!(centered_split(60), (20, 60, 20));
    assert_eq!(centered_split(70), (15, 70, 15));
    assert_eq!(centered_split(100), (0, 100, 0));
    assert_eq!(centered_split(0), (50, 0, 50));
}

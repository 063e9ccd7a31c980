use labgrid_tui::model::exporter::Exporter;
use labgrid_tui::model::place::{MatchInfo, PlaceInfo};
use labgrid_tui::model::resource::{owner_display, ResourceInfo, ResourcePath};

fn res(e: &str, g: &str, n: &str, cls: &str, available: bool, acquired: Option<&str>) -> ResourceInfo {
    ResourceInfo {
        path: ResourcePath { exporter: e.to_string(), group: g.to_string(), name: n.to_string() },
        cls: cls.to_string(),
        params: vec![],
        extra: vec![],
        acquired: acquired.map(|s| s.to_string()),
        available,
    }
}

fn m(e: &str, g: &str, c: &str, name: Option<&str>, rename: Option<&str>) -> MatchInfo {
    MatchInfo {
        exporter: e.to_string(),
        group: g.to_string(),
        cls: c.to_string(),
        name: name.map(|s| s.to_string()),
        rename: rename.map(|s| s.to_string()),
    }
}

fn place_with(aliases: &[&str], tags: &[(&str, &str)], matches: Vec<MatchInfo>, acquired: Option<&str>) -> PlaceInfo {
    PlaceInfo {
        name: "rpi".to_string(),
        aliases: aliases.iter().map(|s| s.to_string()).collect(),
        comment: "bench".to_string(),
        tags: tags.iter().map(|(k, v)| (k.to_string(), v.to_string())).collect(),
        matches,
        acquired: acquired.map(|s| s.to_string()),
        acquired_resources: vec![],
        allowed: vec![],
        created: 0,
        changed: 0,
        reservation: None,
    }
}

#[test]
fn resource_path_text_joins_with_slashes() {
    let p = ResourcePath { exporter: "exp".into(), group: "grp".into(), name: "serial".into() };
    assert_eq!(p.text(), "exp/grp/serial");
    assert_eq!(p.clone(), p);
}

#[test]
fn resource_paths_order_by_exporter_then_group_then_name() {
    let a = ResourcePath { exporter: "a".into(), group: "z".into(), name: "z".into() };
    let b = ResourcePath { exporter: "b".into(), group: "a".into(), name: "a".into() };
    let c = ResourcePath { exporter: "b".into(), group: "a".into(), name: "b".into() };
    assert!(a < b && b < c);
}

#[test]
fn resource_displays() {
    let r = res("e", "g", "n", "C", true, Some("alice"));
    assert_eq!(r.acquired_display(), "alice");
    assert_eq!(r.avail_display(), "yes");
    let r = res("e", "g", "n", "C", false, Some(""));
    assert_eq!(r.acquired_display(), "");
    assert_eq!(r.avail_display(), "no");
    let r = res("e", "g", "n", "C", false, None);
    assert_eq!(r.acquired_display(), "");
    assert_eq!(owner_display(&Some("bob".to_string())), "bob");
    assert_eq!(owner_display(&None), "");
}

#[test]
fn resource_clone_is_equal() {
    let mut r = res("e", "g", "n", "C", true, Some("alice"));
    r.params = vec![("host".into(), "h".into())];
    assert_eq!(r.clone(), r);
}

#[test]
fn match_pattern_display() {
    assert_eq!(m("e", "g", "C", None, None).pattern_display(), "e/g/C");
    assert_eq!(m("e", "g", "C", Some("n"), None).pattern_display(), "e/g/C/n");
    assert_eq!(m("e", "g", "C", None, Some("r")).pattern_display(), "e/g/C → r");
    assert_eq!(m("e", "g", "C", Some("n"), Some("r")).pattern_display(), "e/g/C/n → r");
}

#[test]
fn place_displays() {
    let p = place_with(
        &["a1", "a2"],
        &[("board", "rpi4"), ("lab", "")],
        vec![m("e", "g", "C", None, None), m("*", "*", "Power", Some("p"), Some("power"))],
        Some("alice"),
    );
    assert_eq!(p.aliases_display(), "a1, a2");
    assert_eq!(p.tags_display(), "board=rpi4, lab");
    assert_eq!(p.matches_display(), "e/g/C, */*/Power/p → power");
    assert_eq!(p.acquired_display(), "alice");

    let empty = place_with(&[], &[], vec![], Some(""));
    assert_eq!(empty.aliases_display(), "");
    assert_eq!(empty.tags_display(), "");
    assert_eq!(empty.matches_display(), "");
    assert_eq!(empty.acquired_display(), "");
}

#[test]
fn exporter_summary_counts_and_classes() {
    let rs = [
        res("exp", "g", "a", "USBSerialPort", true, None),
        res("exp", "g", "b", "NetworkPowerPort", false, Some("alice")),
        res("exp", "g", "c", "USBSerialPort", true, Some("")),
        res("exp", "h", "d", "AndroidFastboot", false, Some("bob")),
    ];
    let refs: Vec<&ResourceInfo> = rs.iter().collect();
    let e = Exporter::from_resources("exp", &refs);
    assert_eq!(e.name, "exp");
    assert_eq!(e.total_resources, 4);
    assert_eq!(e.available, 2);
    assert_eq!(e.unavailable, 2);
    assert_eq!(e.acquired, 2);
    assert_eq!(e.resource_classes, vec!["AndroidFastboot", "NetworkPowerPort", "USBSerialPort"]);
    assert_eq!(e.classes_display(), "AndroidFastboot, NetworkPowerPort, USBSerialPort");
}

#[test]
fn exporter_summary_of_nothing() {
    let e = Exporter::from_resources("lonely", &[]);
    assert_eq!(e.total_resources, 0);
    assert_eq!(e.available, 0);
    assert_eq!(e.unavailable, 0);
    assert_eq!(e.acquired, 0);
    assert!(e.resource_classes.is_empty());
    assert_eq!(e.classes_display(), "");
}

use labgrid_tui::grpc::client::{
    convert_map_value, convert_params, convert_place, convert_resource, convert_resource_path,
    convert_string_map, initial_requests, message_events, proxy_url, stream_closed_event,
    tcp_step, ws_step, ClientRequest, CoordinatorClient, CoordinatorEvent, ProtoMapValue,
    ProtoMapValueKind, ProtoMessage, ProtoPlace, ProtoResource, ProtoResourceMatch,
    ProtoResourcePath, ProtoUpdate, ProtoUpdateKind, TcpRead, TcpStep, WsFrame, WsStep,
};
use labgrid_tui::model::place::MatchInfo;
use labgrid_tui::model::resource::ResourcePath;

fn val(kind: ProtoMapValueKind) -> ProtoMapValue {
    ProtoMapValue { kind: Some(kind) }
}

fn ppath(e: Option<&str>, g: &str, n: &str) -> ProtoResourcePath {
    ProtoResourcePath {
        exporter_name: e.map(|s| s.to_string()),
        group_name: g.to_string(),
        resource_name: n.to_string(),
    }
}

fn presource(path: Option<ProtoResourcePath>, acquired: &str) -> ProtoResource {
    ProtoResource {
        path,
        cls: "USBSerialPort".to_string(),
        params: vec![],
        extra: vec![],
        acquired: acquired.to_string(),
        avail: true,
    }
}

fn pplace(name: &str) -> ProtoPlace {
    ProtoPlace {
        name: name.to_string(),
        aliases: vec!["alias".to_string()],
        comment: "c".to_string(),
        tags: vec![],
        matches: vec![],
        acquired: None,
        acquired_resources: vec![],
        allowed: vec![],
        created: 0,
        changed: 0,
        reservation: None,
    }
}

fn update(kind: ProtoUpdateKind) -> ProtoUpdate {
    ProtoUpdate { kind: Some(kind) }
}

#[test]
fn map_values_as_text() {
    assert_eq!(convert_map_value(&val(ProtoMapValueKind::BoolValue(true))), "true");
    assert_eq!(convert_map_value(&val(ProtoMapValueKind::BoolValue(false))), "false");
    assert_eq!(convert_map_value(&val(ProtoMapValueKind::IntValue(-42))), "-42");
    assert_eq!(convert_map_value(&val(ProtoMapValueKind::IntValue(i64::MIN))), i64::MIN.to_string());
    assert_eq!(convert_map_value(&val(ProtoMapValueKind::UintValue(u64::MAX))), u64::MAX.to_string());
    assert_eq!(convert_map_value(&val(ProtoMapValueKind::UintValue(20408))), "20408");
    assert_eq!(convert_map_value(&val(ProtoMapValueKind::FloatValue(1.5f64.to_string()))), "1.5");
    assert_eq!(convert_map_value(&val(ProtoMapValueKind::StringValue("ttyUSB0".into()))), "ttyUSB0");
    assert_eq!(convert_map_value(&ProtoMapValue { kind: None }), "");
}

#[test]
fn resource_path_needs_an_exporter() {
    assert_eq!(
        convert_resource_path(&ppath(Some("exp"), "grp", "serial")),
        Some(ResourcePath { exporter: "exp".into(), group: "grp".into(), name: "serial".into() })
    );
    assert_eq!(convert_resource_path(&ppath(None, "grp", "serial")), None);
}

#[test]
fn params_are_sorted_and_later_entries_win() {
    let list = vec![
        ("port".to_string(), val(ProtoMapValueKind::UintValue(22))),
        ("host".to_string(), val(ProtoMapValueKind::StringValue("h1".into()))),
        ("port".to_string(), val(ProtoMapValueKind::UintValue(23))),
        ("bool".to_string(), val(ProtoMapValueKind::BoolValue(true))),
    ];
    assert_eq!(
        convert_params(&list),
        vec![
            ("bool".to_string(), "true".to_string()),
            ("host".to_string(), "h1".to_string()),
            ("port".to_string(), "23".to_string()),
        ]
    );
    let tags = vec![("z".to_string(), "1".to_string()), ("a".to_string(), "".to_string())];
    assert_eq!(
        convert_string_map(&tags),
        vec![("a".to_string(), "".to_string()), ("z".to_string(), "1".to_string())]
    );
}

#[test]
fn resource_conversion() {
    assert!(convert_resource(&presource(None, "")).is_none());
    assert!(convert_resource(&presource(Some(ppath(None, "g", "n")), "")).is_none());

    let mut r = presource(Some(ppath(Some("exp"), "g", "n")), "alice");
    r.params = vec![("b".into(), val(ProtoMapValueKind::IntValue(1))), ("a".into(), ProtoMapValue { kind: None })];
    r.extra = vec![("proxy".into(), val(ProtoMapValueKind::StringValue("p".into())))];
    r.avail = false;
    let info = convert_resource(&r).unwrap();
    assert_eq!(info.path, ResourcePath { exporter: "exp".into(), group: "g".into(), name: "n".into() });
    assert_eq!(info.cls, "USBSerialPort");
    assert_eq!(info.params, vec![("a".to_string(), "".to_string()), ("b".to_string(), "1".to_string())]);
    assert_eq!(info.extra, vec![("proxy".to_string(), "p".to_string())]);
    assert_eq!(info.acquired, Some("alice".to_string()));
    assert!(!info.available);

    let free = convert_resource(&presource(Some(ppath(Some("exp"), "g", "n")), "")).unwrap();
    assert_eq!(free.acquired, None);
}

#[test]
fn place_conversion_keeps_every_field() {
    let mut p = pplace("rpi");
    p.tags = vec![("lab".into(), "b".into()), ("board".into(), "rpi4".into())];
    p.matches = vec![ProtoResourceMatch {
        exporter: "e".into(),
        group: "g".into(),
        cls: "C".into(),
        name: Some("n".into()),
        rename: None,
    }];
    p.acquired = Some("alice".into());
    p.acquired_resources = vec!["e/g/C/n".into()];
    p.allowed = vec!["bob".into()];
    p.created = 1.5f64.to_bits();
    p.changed = 2.0f64.to_bits();
    p.reservation = Some("tok".into());
    let info = convert_place(&p);
    assert_eq!(info.name, "rpi");
    assert_eq!(info.aliases, vec!["alias"]);
    assert_eq!(info.comment, "c");
    assert_eq!(info.tags, vec![("board".to_string(), "rpi4".to_string()), ("lab".to_string(), "b".to_string())]);
    assert_eq!(
        info.matches,
        vec![MatchInfo { exporter: "e".into(), group: "g".into(), cls: "C".into(), name: Some("n".into()), rename: None }]
    );
    assert_eq!(info.acquired, Some("alice".to_string()));
    assert_eq!(info.acquired_resources, vec!["e/g/C/n"]);
    assert_eq!(info.allowed, vec!["bob"]);
    assert_eq!(f64::from_bits(info.created), 1.5);
    assert_eq!(f64::from_bits(info.changed), 2.0);
    assert_eq!(info.reservation, Some("tok".to_string()));
}

#[test]
fn message_events_in_order_with_skips() {
    let msg = ProtoMessage {
        sync: Some(7),
        updates: vec![
            update(ProtoUpdateKind::Resource(presource(Some(ppath(Some("exp"), "g", "n")), ""))),
            update(ProtoUpdateKind::Resource(presource(Some(ppath(None, "g", "n")), ""))),
            update(ProtoUpdateKind::DelResource(ppath(Some("exp"), "g", "old"))),
            update(ProtoUpdateKind::DelResource(ppath(None, "g", "old"))),
            ProtoUpdate { kind: None },
            update(ProtoUpdateKind::Place(pplace("rpi"))),
            update(ProtoUpdateKind::DelPlace("gone".into())),
        ],
    };
    let events = message_events(&msg);
    assert_eq!(events.len(), 5);
    assert_eq!(events[0], CoordinatorEvent::SyncComplete(7));
    match &events[1] {
        CoordinatorEvent::ResourceUpdate(info) => assert_eq!(info.path.text(), "exp/g/n"),
        other => panic!("unexpected {:?}", other),
    }
    assert_eq!(
        events[2],
        CoordinatorEvent::ResourceRemoved(ResourcePath { exporter: "exp".into(), group: "g".into(), name: "old".into() })
    );
    match &events[3] {
        CoordinatorEvent::PlaceUpdate(info) => assert_eq!(info.name, "rpi"),
        other => panic!("unexpected {:?}", other),
    }
    assert_eq!(events[4], CoordinatorEvent::PlaceRemoved("gone".into()));
}

#[test]
fn message_without_sync_or_updates() {
    assert!(message_events(&ProtoMessage { sync: None, updates: vec![] }).is_empty());
    assert_eq!(
        message_events(&ProtoMessage { sync: Some(1), updates: vec![] }),
        vec![CoordinatorEvent::SyncComplete(1)]
    );
}

#[test]
fn stream_close_reasons() {
    assert_eq!(stream_closed_event(None), CoordinatorEvent::Disconnected("stream ended".into()));
    assert_eq!(
        stream_closed_event(Some("boom".into())),
        CoordinatorEvent::Disconnected("boom".into())
    );
}

#[test]
fn handshake_messages() {
    let r = initial_requests("0.1.0");
    assert_eq!(
        r,
        vec![
            ClientRequest::Startup { version: "0.1.0".into(), name: "labgrid-tui".into() },
            ClientRequest::SubscribeAllPlaces,
            ClientRequest::SubscribeAllResources,
            ClientRequest::Sync(1),
        ]
    );
}

#[test]
fn transport_choice_and_proxy_url() {
    let c = CoordinatorClient::new("ws://coord:20408/ws".to_string());
    assert_eq!(c.coordinator_url(), "ws://coord:20408/ws");
    assert!(c.uses_websocket());
    assert!(CoordinatorClient::new("wss://coord/ws".to_string()).uses_websocket());
    assert!(!CoordinatorClient::new("http://coord:20408".to_string()).uses_websocket());
    assert!(!CoordinatorClient::new("wsx://coord".to_string()).uses_websocket());
    assert_eq!(proxy_url(40123), "http://127.0.0.1:40123");
    assert_eq!(proxy_url(0), "http://127.0.0.1:0");
    assert_eq!(proxy_url(u16::MAX), "http://127.0.0.1:65535");
}

#[test]
fn bridge_steps() {
    assert_eq!(tcp_step(TcpRead::Bytes(0)), TcpStep::SendClose);
    assert_eq!(tcp_step(TcpRead::Bytes(17)), TcpStep::SendBinary(17));
    assert_eq!(tcp_step(TcpRead::Failed), TcpStep::Stop);
    assert_eq!(ws_step(WsFrame::Binary), WsStep::Write);
    assert_eq!(ws_step(WsFrame::Close), WsStep::Stop);
    assert_eq!(ws_step(WsFrame::Ping), WsStep::Skip);
    assert_eq!(ws_step(WsFrame::Other), WsStep::Skip);
    assert_eq!(ws_step(WsFrame::Failed), WsStep::Stop);
}

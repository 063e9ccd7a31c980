//! The coordinator connection's decisions: which transport a URL asks for,
//! what is sent first, and how each message received becomes events for the
//! application state.

use vstd::prelude::*;
use crate::model::place::{MatchInfo, PlaceInfo};
use crate::model::resource::{ResourceInfo, ResourcePath};
use crate::sorted_map::{
    collect_pairs, insert_entry, lemma_pair_texts_insert, pair_texts, sorted_entries,
};
use crate::text::{
    bool_text, clone_opt, clone_texts, decimal, has_prefix, i64_text, owned, signed_decimal,
    starts_with, u64_text,
};

verus! {

/// Messages sent from the coordinator connection to the app state.
#[derive(Debug, PartialEq, Eq)]
pub enum CoordinatorEvent {
    Connected,
    Disconnected(String),
    ResourceUpdate(ResourceInfo),
    ResourceRemoved(ResourcePath),
    PlaceUpdate(PlaceInfo),
    PlaceRemoved(String),
    SyncComplete(u64),
}

/// Wraps the connection to a labgrid coordinator.
pub struct CoordinatorClient {
    url: String,
}

impl CoordinatorClient {
    pub fn new(url: String) -> (r: Self)
        ensures
            r.url() == url@,
    {
        Self { url }
    }

    /// The coordinator URL this client connects to.
    pub closed spec fn url(&self) -> Seq<char> {
        self.url@
    }

    /// The coordinator URL this client connects to.
    pub fn coordinator_url(&self) -> (r: &str)
        ensures
            r@ == self.url(),
    {
        self.url.as_str()
    }

    /// Whether this client reaches the coordinator over WebSocket rather
    /// than plain HTTP/2.
    pub fn uses_websocket(&self) -> (r: bool)
        ensures
            r == is_websocket_url(self.url()),
    {
        starts_with(self.url.as_str(), "ws://") || starts_with(self.url.as_str(), "wss://")
    }
}

// ── Messages as received ─────────────────────────────────────────────
//
// The coordinator's protobuf messages, as the plain values that the
// conversions read. Maps arrive as lists of pairs, in any order.

/// The value in a parameter map.
#[derive(Debug, PartialEq, Eq)]
pub enum ProtoMapValueKind {
    BoolValue(bool),
    IntValue(i64),
    UintValue(u64),
    /// A floating-point value, as the decimal text Rust prints for it.
    FloatValue(String),
    StringValue(String),
}

#[derive(Debug, PartialEq, Eq)]
pub struct ProtoMapValue {
    pub kind: Option<ProtoMapValueKind>,
}

/// A resource's path; the exporter name is optional in the protocol.
#[derive(Debug, PartialEq, Eq)]
pub struct ProtoResourcePath {
    pub exporter_name: Option<String>,
    pub group_name: String,
    pub resource_name: String,
}

#[derive(Debug, PartialEq, Eq)]
pub struct ProtoResource {
    pub path: Option<ProtoResourcePath>,
    pub cls: String,
    pub params: Vec<(String, ProtoMapValue)>,
    pub extra: Vec<(String, ProtoMapValue)>,
    pub acquired: String,
    pub avail: bool,
}

#[derive(Debug, PartialEq, Eq)]
pub struct ProtoResourceMatch {
    pub exporter: String,
    pub group: String,
    pub cls: String,
    pub name: Option<String>,
    pub rename: Option<String>,
}

/// A place; `created` and `changed` hold the bit patterns of its timestamps.
#[derive(Debug, PartialEq, Eq)]
pub struct ProtoPlace {
    pub name: String,
    pub aliases: Vec<String>,
    pub comment: String,
    pub tags: Vec<(String, String)>,
    pub matches: Vec<ProtoResourceMatch>,
    pub acquired: Option<String>,
    pub acquired_resources: Vec<String>,
    pub allowed: Vec<String>,
    pub created: u64,
    pub changed: u64,
    pub reservation: Option<String>,
}

#[derive(Debug, PartialEq, Eq)]
pub enum ProtoUpdateKind {
    Resource(ProtoResource),
    DelResource(ProtoResourcePath),
    Place(ProtoPlace),
    DelPlace(String),
}

#[derive(Debug, PartialEq, Eq)]
pub struct ProtoUpdate {
    pub kind: Option<ProtoUpdateKind>,
}

/// A message from the coordinator: an optional sync answer and updates.
#[derive(Debug, PartialEq, Eq)]
pub struct ProtoMessage {
    pub sync: Option<u64>,
    pub updates: Vec<ProtoUpdate>,
}

// ── Conversions ──────────────────────────────────────────────────────

/// The text of a parameter value; empty when the value has no kind.
pub open spec fn map_value_text(val: ProtoMapValue) -> Seq<char> {
    match val.kind {
        Some(ProtoMapValueKind::BoolValue(b)) => if b {
            "true"@
        } else {
            "false"@
        },
        Some(ProtoMapValueKind::IntValue(i)) => signed_decimal(i as int),
        Some(ProtoMapValueKind::UintValue(u)) => decimal(u as nat),
        Some(ProtoMapValueKind::FloatValue(f)) => f@,
        Some(ProtoMapValueKind::StringValue(s)) => s@,
        None => Seq::empty(),
    }
}

pub fn convert_map_value(val: &ProtoMapValue) -> (r: String)
    ensures
        r@ == map_value_text(*val),
{
    match &val.kind {
        Some(ProtoMapValueKind::BoolValue(b)) => bool_text(*b),
        Some(ProtoMapValueKind::IntValue(i)) => i64_text(*i),
        Some(ProtoMapValueKind::UintValue(u)) => u64_text(*u),
        Some(ProtoMapValueKind::FloatValue(f)) => f.clone(),
        Some(ProtoMapValueKind::StringValue(s)) => s.clone(),
        None => String::new(),
    }
}

/// The library's path for a protocol path, when it names an exporter.
pub open spec fn path_converts(path: ProtoResourcePath, r: Option<ResourcePath>) -> bool {
    match path.exporter_name {
        Some(e) => r is Some && r->0 == ResourcePath {
            exporter: e,
            group: path.group_name,
            name: path.resource_name,
        },
        None => r is None,
    }
}

pub fn convert_resource_path(path: &ProtoResourcePath) -> (r: Option<ResourcePath>)
    ensures
        path_converts(*path, r),
{
    match &path.exporter_name {
        Some(e) => Some(
            ResourcePath {
                exporter: e.clone(),
                group: path.group_name.clone(),
                name: path.resource_name.clone(),
            },
        ),
        None => None,
    }
}

/// The texts of a parameter list: each key with the text of its value.
pub open spec fn param_texts(list: Seq<(String, ProtoMapValue)>) -> Seq<(Seq<char>, Seq<char>)> {
    list.map_values(|e: (String, ProtoMapValue)| (e.0@, map_value_text(e.1)))
}

/// A parameter list collected into a map sorted by key, a later entry
/// replacing an earlier one of the same key.
pub fn convert_params(list: &Vec<(String, ProtoMapValue)>) -> (r: Vec<(String, String)>)
    ensures
        sorted_entries(r@),
        pair_texts(r@) == collect_pairs(param_texts(list@)),
{
    let mut r: Vec<(String, String)> = Vec::new();
    let mut i: usize = 0;
    while i < list.len()
        invariant
            i <= list.len(),
            sorted_entries(r@),
            pair_texts(r@) == collect_pairs(param_texts(list@).subrange(0, i as int)),
        decreases list.len() - i,
    {
        let ghost before = r@;
        let (k, v) = &list[i];
        let text = convert_map_value(v);
        let key = k.clone();
        proof {
            let p = param_texts(list@).subrange(0, i + 1);
            assert(p.drop_last() =~= param_texts(list@).subrange(0, i as int));
            assert(p.last() == (k@, text@));
            lemma_pair_texts_insert(before, key, text);
        }
        insert_entry(&mut r, key, text);
        i = i + 1;
    }
    assert(param_texts(list@).subrange(0, i as int) =~= param_texts(list@));
    r
}

/// A list of string pairs collected into a map sorted by key, a later
/// pair replacing an earlier one of the same key.
pub fn convert_string_map(list: &Vec<(String, String)>) -> (r: Vec<(String, String)>)
    ensures
        sorted_entries(r@),
        pair_texts(r@) == collect_pairs(pair_texts(list@)),
{
    let mut r: Vec<(String, String)> = Vec::new();
    let mut i: usize = 0;
    while i < list.len()
        invariant
            i <= list.len(),
            sorted_entries(r@),
            pair_texts(r@) == collect_pairs(pair_texts(list@).subrange(0, i as int)),
        decreases list.len() - i,
    {
        let ghost before = r@;
        let (k, v) = &list[i];
        let key = k.clone();
        let value = v.clone();
        proof {
            let p = pair_texts(list@).subrange(0, i + 1);
            assert(p.drop_last() =~= pair_texts(list@).subrange(0, i as int));
            assert(p.last() == (k@, v@));
            lemma_pair_texts_insert(before, key, value);
        }
        insert_entry(&mut r, key, value);
        i = i + 1;
    }
    assert(pair_texts(list@).subrange(0, i as int) =~= pair_texts(list@));
    r
}

/// `info` is the library's form of the protocol resource `res`: same path,
/// class and availability; parameters and extras collected by key; the
/// owner kept when non-empty.
pub open spec fn resource_converts(res: ProtoResource, info: ResourceInfo) -> bool {
    &&& res.path is Some
    &&& path_converts(res.path->0, Some(info.path))
    &&& info.cls == res.cls
    &&& sorted_entries(info.params@)
    &&& pair_texts(info.params@) == collect_pairs(param_texts(res.params@))
    &&& sorted_entries(info.extra@)
    &&& pair_texts(info.extra@) == collect_pairs(param_texts(res.extra@))
    &&& info.acquired == if res.acquired@.len() == 0 {
        None
    } else {
        Some(res.acquired)
    }
    &&& info.available == res.avail
}

/// A protocol resource converts when it has a path naming an exporter.
pub open spec fn resource_has_path(res: ProtoResource) -> bool {
    res.path is Some && res.path->0.exporter_name is Some
}

pub fn convert_resource(res: &ProtoResource) -> (r: Option<ResourceInfo>)
    ensures
        r is Some <==> resource_has_path(*res),
        r matches Some(info) ==> resource_converts(*res, info),
{
    let path = match &res.path {
        Some(p) => match convert_resource_path(p) {
            Some(q) => q,
            None => {
                return None;
            },
        },
        None => {
            return None;
        },
    };
    let params = convert_params(&res.params);
    let extra = convert_params(&res.extra);
    let acquired = if res.acquired.as_str().is_empty() {
        None
    } else {
        Some(res.acquired.clone())
    };
    Some(
        ResourceInfo {
            path,
            cls: res.cls.clone(),
            params,
            extra,
            acquired,
            available: res.avail,
        },
    )
}

/// `m` is the library's form of the protocol match `p`.
pub open spec fn match_converts(p: ProtoResourceMatch, m: MatchInfo) -> bool {
    m == MatchInfo {
        exporter: p.exporter,
        group: p.group,
        cls: p.cls,
        name: p.name,
        rename: p.rename,
    }
}

/// `info` is the library's form of the protocol place `place`: every field
/// kept, the tags collected by key.
pub open spec fn place_converts(place: ProtoPlace, info: PlaceInfo) -> bool {
    &&& info.name == place.name
    &&& info.aliases@ == place.aliases@
    &&& info.comment == place.comment
    &&& sorted_entries(info.tags@)
    &&& pair_texts(info.tags@) == collect_pairs(pair_texts(place.tags@))
    &&& info.matches@.len() == place.matches@.len()
    &&& forall|i: int|
        0 <= i < info.matches@.len() ==> match_converts(
            #[trigger] place.matches@[i],
            info.matches@[i],
        )
    &&& info.acquired == place.acquired
    &&& info.acquired_resources@ == place.acquired_resources@
    &&& info.allowed@ == place.allowed@
    &&& info.created == place.created
    &&& info.changed == place.changed
    &&& info.reservation == place.reservation
}

pub fn convert_place(place: &ProtoPlace) -> (r: PlaceInfo)
    ensures
        place_converts(*place, r),
{
    let mut matches: Vec<MatchInfo> = Vec::new();
    let mut i: usize = 0;
    while i < place.matches.len()
        invariant
            i <= place.matches.len(),
            matches@.len() == i,
            forall|j: int|
                0 <= j < i ==> match_converts(#[trigger] place.matches@[j], matches@[j]),
        decreases place.matches.len() - i,
    {
        let m = &place.matches[i];
        matches.push(
            MatchInfo {
                exporter: m.exporter.clone(),
                group: m.group.clone(),
                cls: m.cls.clone(),
                name: clone_opt(&m.name),
                rename: clone_opt(&m.rename),
            },
        );
        i = i + 1;
    }
    PlaceInfo {
        name: place.name.clone(),
        aliases: clone_texts(&place.aliases),
        comment: place.comment.clone(),
        tags: convert_string_map(&place.tags),
        matches,
        acquired: clone_opt(&place.acquired),
        acquired_resources: clone_texts(&place.acquired_resources),
        allowed: clone_texts(&place.allowed),
        created: place.created,
        changed: place.changed,
        reservation: clone_opt(&place.reservation),
    }
}

// ── What a received message means ────────────────────────────────────

/// One event that a message calls for, named by what it is made from.
pub enum ExpectedEvent {
    Sync(u64),
    ResourceUpdate(ProtoResource),
    ResourceRemoved(ProtoResourcePath),
    PlaceUpdate(ProtoPlace),
    PlaceRemoved(String),
}

/// The events one update calls for: resources and removals without an
/// exporter name, and updates without a kind, call for none.
pub open spec fn update_expected(u: ProtoUpdate) -> Seq<ExpectedEvent> {
    match u.kind {
        Some(ProtoUpdateKind::Resource(res)) => if resource_has_path(res) {
            seq![ExpectedEvent::ResourceUpdate(res)]
        } else {
            Seq::empty()
        },
        Some(ProtoUpdateKind::DelResource(p)) => if p.exporter_name is Some {
            seq![ExpectedEvent::ResourceRemoved(p)]
        } else {
            Seq::empty()
        },
        Some(ProtoUpdateKind::Place(p)) => seq![ExpectedEvent::PlaceUpdate(p)],
        Some(ProtoUpdateKind::DelPlace(n)) => seq![ExpectedEvent::PlaceRemoved(n)],
        None => Seq::empty(),
    }
}

/// The events a list of updates calls for, in order.
pub open spec fn updates_expected(us: Seq<ProtoUpdate>) -> Seq<ExpectedEvent>
    decreases us.len(),
{
    if us.len() == 0 {
        Seq::empty()
    } else {
        updates_expected(us.drop_last()) + update_expected(us.last())
    }
}

/// The events a message calls for: the sync answer first, then the updates.
pub open spec fn message_expected(msg: ProtoMessage) -> Seq<ExpectedEvent> {
    let sync = match msg.sync {
        Some(id) => seq![ExpectedEvent::Sync(id)],
        None => Seq::empty(),
    };
    sync + updates_expected(msg.updates@)
}

/// `e` is the event that `x` calls for.
pub open spec fn event_matches(e: CoordinatorEvent, x: ExpectedEvent) -> bool {
    match x {
        ExpectedEvent::Sync(id) => e == CoordinatorEvent::SyncComplete(id),
        ExpectedEvent::ResourceUpdate(res) => e matches CoordinatorEvent::ResourceUpdate(info)
            && resource_converts(res, info),
        ExpectedEvent::ResourceRemoved(p) => e matches CoordinatorEvent::ResourceRemoved(q)
            && path_converts(p, Some(q)),
        ExpectedEvent::PlaceUpdate(p) => e matches CoordinatorEvent::PlaceUpdate(info)
            && place_converts(p, info),
        ExpectedEvent::PlaceRemoved(n) => e matches CoordinatorEvent::PlaceRemoved(m) && m == n,
    }
}

/// `events` are, one by one, the events that `expected` calls for.
pub open spec fn events_match(events: Seq<CoordinatorEvent>, expected: Seq<ExpectedEvent>) -> bool {
    &&& events.len() == expected.len()
    &&& forall|i: int| 0 <= i < events.len() ==> event_matches(#[trigger] events[i], expected[i])
}

/// The events for the application that one message from the coordinator
/// calls for.
pub fn message_events(msg: &ProtoMessage) -> (r: Vec<CoordinatorEvent>)
    ensures
        events_match(r@, message_expected(*msg)),
{
    let mut r: Vec<CoordinatorEvent> = Vec::new();
    if let Some(id) = msg.sync {
        r.push(CoordinatorEvent::SyncComplete(id));
    }
    let ghost head = r@;
    let ghost sync_part = match msg.sync {
        Some(id) => seq![ExpectedEvent::Sync(id)],
        None => Seq::<ExpectedEvent>::empty(),
    };
    assert(events_match(head, sync_part));
    let mut i: usize = 0;
    while i < msg.updates.len()
        invariant
            i <= msg.updates.len(),
            sync_part == match msg.sync {
                Some(id) => seq![ExpectedEvent::Sync(id)],
                None => Seq::<ExpectedEvent>::empty(),
            },
            events_match(r@, sync_part + updates_expected(msg.updates@.subrange(0, i as int))),
        decreases msg.updates.len() - i,
    {
        let ghost before = r@;
        let ghost done = sync_part + updates_expected(msg.updates@.subrange(0, i as int));
        let u = &msg.updates[i];
        proof {
            let p = msg.updates@.subrange(0, i + 1);
            assert(p.drop_last() =~= msg.updates@.subrange(0, i as int));
            assert(p.last() == *u);
        }
        let ghost add = update_expected(*u);
        let ghost next = sync_part + updates_expected(msg.updates@.subrange(0, i + 1));
        assert(next =~= done + add);
        match &u.kind {
            Some(ProtoUpdateKind::Resource(res)) => {
                if let Some(info) = convert_resource(res) {
                    r.push(CoordinatorEvent::ResourceUpdate(info));
                }
            },
            Some(ProtoUpdateKind::DelResource(path)) => {
                if let Some(p) = convert_resource_path(path) {
                    r.push(CoordinatorEvent::ResourceRemoved(p));
                }
            },
            Some(ProtoUpdateKind::Place(place)) => {
                r.push(CoordinatorEvent::PlaceUpdate(convert_place(place)));
            },
            Some(ProtoUpdateKind::DelPlace(name)) => {
                r.push(CoordinatorEvent::PlaceRemoved(name.clone()));
            },
            None => {},
        }
        proof {
            assert forall|j: int| 0 <= j < r@.len() implies event_matches(#[trigger] r@[j], next[j]) by {
                if j < before.len() {
                    assert(r@[j] == before[j]);
                    assert(next[j] == done[j]);
                }
            }
        }
        i = i + 1;
    }
    assert(msg.updates@.subrange(0, i as int) =~= msg.updates@);
    r
}

/// The event sent when the stream from the coordinator closes: its error's
/// text, or "stream ended" when it ended without one.
pub fn stream_closed_event(error: Option<String>) -> (r: CoordinatorEvent)
    ensures
        r matches CoordinatorEvent::Disconnected(reason) && reason@ == match error {
            Some(e) => e@,
            None => "stream ended"@,
        },
{
    match error {
        Some(e) => CoordinatorEvent::Disconnected(e),
        None => CoordinatorEvent::Disconnected(owned("stream ended")),
    }
}

// ── Opening the stream ───────────────────────────────────────────────

/// A message this client sends to the coordinator.
#[derive(Debug, PartialEq, Eq)]
pub enum ClientRequest {
    /// Announces the client: its version and name.
    Startup { version: String, name: String },
    SubscribeAllPlaces,
    SubscribeAllResources,
    /// Asks the coordinator to answer once it has sent all it knows.
    Sync(u64),
}

/// The messages sent as soon as the stream opens: the coordinator answers
/// only after the startup message, then the client subscribes to all places
/// and all resources and asks for sync 1.
pub fn initial_requests(version: &str) -> (r: Vec<ClientRequest>)
    ensures
        r@.len() == 4,
        r@[0] matches ClientRequest::Startup { version: v, name: n } && v@ == version@ && n@
            == "labgrid-tui"@,
        r@[1] matches ClientRequest::SubscribeAllPlaces,
        r@[2] matches ClientRequest::SubscribeAllResources,
        r@[3] == ClientRequest::Sync(1),
{
    let mut r: Vec<ClientRequest> = Vec::new();
    r.push(ClientRequest::Startup { version: owned(version), name: owned("labgrid-tui") });
    r.push(ClientRequest::SubscribeAllPlaces);
    r.push(ClientRequest::SubscribeAllResources);
    r.push(ClientRequest::Sync(1));
    r
}

/// The URL asks for the WebSocket transport: it starts with `ws://` or `wss://`.
pub open spec fn is_websocket_url(url: Seq<char>) -> bool {
    has_prefix(url, "ws://"@) || has_prefix(url, "wss://"@)
}

/// The local endpoint that the WebSocket bridge listens on.
pub open spec fn proxy_url_text(port: u16) -> Seq<char> {
    "http://127.0.0.1:"@ + decimal(port as nat)
}

/// The URL of the local bridge to a WebSocket coordinator.
pub fn proxy_url(port: u16) -> (r: String)
    ensures
        r@ == proxy_url_text(port),
{
    let mut r = owned("http://127.0.0.1:");
    r.append(u64_text(port as u64).as_str());
    r
}

// ── The WebSocket bridge ─────────────────────────────────────────────

/// What the bridge's TCP side read: a count of bytes (none at the end of
/// the stream), or an error.
#[derive(Debug, Clone, Copy, PartialEq, Eq, Structural)]
pub enum TcpRead {
    Bytes(usize),
    Failed,
}

/// What the bridge does with a TCP read.
#[derive(Debug, Clone, Copy, PartialEq, Eq, Structural)]
pub enum TcpStep {
    /// Send the bytes read as one binary frame, then read again.
    SendBinary(usize),
    /// Send a close frame and stop.
    SendClose,
    /// Stop.
    Stop,
}

/// TCP to WebSocket: bytes go out as a binary frame, the end of the TCP
/// stream as a close frame, a read error stops the bridge.
pub fn tcp_step(read: TcpRead) -> (r: TcpStep)
    ensures
        r == match read {
            TcpRead::Bytes(0) => TcpStep::SendClose,
            TcpRead::Bytes(n) => TcpStep::SendBinary(n),
            TcpRead::Failed => TcpStep::Stop,
        },
{
    match read {
        TcpRead::Bytes(n) => if n == 0 {
            TcpStep::SendClose
        } else {
            TcpStep::SendBinary(n)
        },
        TcpRead::Failed => TcpStep::Stop,
    }
}

/// What the bridge's WebSocket side received.
#[derive(Debug, Clone, Copy, PartialEq, Eq, Structural)]
pub enum WsFrame {
    Binary,
    Close,
    Ping,
    /// Text and pong frames.
    Other,
    /// The stream ended or failed.
    Failed,
}

/// What the bridge does with a WebSocket frame.
#[derive(Debug, Clone, Copy, PartialEq, Eq, Structural)]
pub enum WsStep {
    /// Write the frame's bytes to TCP and flush, then receive again.
    Write,
    /// Receive again (tungstenite answers pings by itself).
    Skip,
    /// Stop.
    Stop,
}

/// WebSocket to TCP: binary frames are written through, a close frame or an
/// error stops the bridge, everything else is skipped.
pub fn ws_step(frame: WsFrame) -> (r: WsStep)
    ensures
        r == match frame {
            WsFrame::Binary => WsStep::Write,
            WsFrame::Close => WsStep::Stop,
            WsFrame::Ping => WsStep::Skip,
            WsFrame::Other => WsStep::Skip,
            WsFrame::Failed => WsStep::Stop,
        },
{
    match frame {
        WsFrame::Binary => WsStep::Write,
        WsFrame::Close => WsStep::Stop,
        WsFrame::Ping => WsStep::Skip,
        WsFrame::Other => WsStep::Skip,
        WsFrame::Failed => WsStep::Stop,
    }
}

} // verus!

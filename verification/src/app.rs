//! The application state, the single source of truth, and every update of it.

use vstd::prelude::*;
use vstd::view::View as _;
use crate::grpc::client::CoordinatorEvent;
use crate::model::exporter::{deref_all, summarizes, Exporter};
use crate::model::place::PlaceInfo;
use crate::model::resource::{path_text, ResourceInfo, ResourcePath};
use crate::sorted_map::{
    entries_insert, entries_remove, insert_entry, lemma_insert_entries, lemma_insert_sorted,
    lemma_remove_entries, lemma_remove_sorted,
    remove_entry, sorted_entries, MapKey,
};
use crate::text::{
    clear_text, contains_text, decimal, has_substring, lowercase, text_eq, texts, to_lowercase,
    trim_text, trimmed, usize_text,
};

verus! {

/// Which main view is active.
#[derive(Debug, Clone, Copy, PartialEq, Eq, Structural)]
pub enum View {
    Places,
    Resources,
    Exporters,
}

/// The label of a view.
pub open spec fn view_label(v: View) -> Seq<char> {
    match v {
        View::Places => "Places"@,
        View::Resources => "Resources"@,
        View::Exporters => "Exporters"@,
    }
}

/// The position of a view among the tabs.
pub open spec fn view_index(v: View) -> nat {
    match v {
        View::Places => 0,
        View::Resources => 1,
        View::Exporters => 2,
    }
}

impl View {
    pub fn label(&self) -> (r: &'static str)
        ensures
            r@ == view_label(*self),
    {
        match self {
            View::Places => "Places",
            View::Resources => "Resources",
            View::Exporters => "Exporters",
        }
    }

    /// The views, in tab order.
    pub fn all() -> (r: [View; 3])
        ensures
            r@ == seq![View::Places, View::Resources, View::Exporters],
    {
        let r = [View::Places, View::Resources, View::Exporters];
        assert(r@ =~= seq![View::Places, View::Resources, View::Exporters]);
        r
    }

    pub fn index(&self) -> (r: usize)
        ensures
            r == view_index(*self),
    {
        match self {
            View::Places => 0,
            View::Resources => 1,
            View::Exporters => 2,
        }
    }
}

/// Input mode for the command/filter bar.
#[derive(Debug, Clone, Copy, PartialEq, Eq, Structural)]
pub enum InputMode {
    Normal,
    Filter,
    Command,
}

/// Central application state: the single source of truth. `places` and
/// `resources` hold their entries sorted by key, each key once, each entry
/// under the name or path of the item it holds.
pub struct App {
    // Connection
    pub connected: bool,
    pub coordinator_url: String,
    pub status_message: String,
    // Data
    pub places: Vec<(String, PlaceInfo)>,
    pub resources: Vec<(ResourcePath, ResourceInfo)>,
    // View state
    pub view: View,
    pub selected_index: usize,
    pub detail_open: bool,
    pub help_open: bool,
    pub input_mode: InputMode,
    pub input_buffer: String,
    pub filter: Option<String>,
    // Scroll state for detail pane
    pub detail_scroll: u16,
    // Sync tracking
    pub last_sync_id: u64,
    pub synced: bool,
    // Quit signal
    pub should_quit: bool,
}

/// The state of the application as a value: texts in place of strings.
pub struct AppView {
    pub connected: bool,
    pub coordinator_url: Seq<char>,
    pub status_message: Seq<char>,
    pub places: Seq<(String, PlaceInfo)>,
    pub resources: Seq<(ResourcePath, ResourceInfo)>,
    pub view: View,
    pub selected_index: usize,
    pub detail_open: bool,
    pub help_open: bool,
    pub input_mode: InputMode,
    pub input_buffer: Seq<char>,
    pub filter: Option<Seq<char>>,
    pub detail_scroll: u16,
    pub last_sync_id: u64,
    pub synced: bool,
    pub should_quit: bool,
}

/// The text of an optional string.
pub open spec fn opt_text(o: Option<String>) -> Option<Seq<char>> {
    match o {
        Some(s) => Some(s@),
        None => None,
    }
}

impl vstd::view::View for App {
    type V = AppView;

    open spec fn view(&self) -> AppView {
        AppView {
            connected: self.connected,
            coordinator_url: self.coordinator_url@,
            status_message: self.status_message@,
            places: self.places@,
            resources: self.resources@,
            view: self.view,
            selected_index: self.selected_index,
            detail_open: self.detail_open,
            help_open: self.help_open,
            input_mode: self.input_mode,
            input_buffer: self.input_buffer@,
            filter: opt_text(self.filter),
            detail_scroll: self.detail_scroll,
            last_sync_id: self.last_sync_id,
            synced: self.synced,
            should_quit: self.should_quit,
        }
    }
}

/// The place entries are sorted by name, each under its place's name.
pub open spec fn places_well_formed(s: Seq<(String, PlaceInfo)>) -> bool {
    &&& sorted_entries(s)
    &&& forall|i: int| 0 <= i < s.len() ==> (#[trigger] s[i]).1.name@ == s[i].0@
}

/// The resource entries are sorted by path, each under its resource's path.
pub open spec fn resources_well_formed(s: Seq<(ResourcePath, ResourceInfo)>) -> bool {
    &&& sorted_entries(s)
    &&& forall|i: int| 0 <= i < s.len() ==> (#[trigger] s[i]).1.path == s[i].0
}

/// A text passes the filter: there is no filter, the filter is empty, or
/// the lowercase filter occurs in the lowercase text.
pub open spec fn filter_accepts(filter: Option<Seq<char>>, text: Seq<char>) -> bool {
    match filter {
        Some(f) => f.len() == 0 || has_substring(lowercase(text), lowercase(f)),
        None => true,
    }
}

/// Each name once, in the order first seen, merging neighbours that repeat.
pub open spec fn distinct_run(s: Seq<Seq<char>>) -> Seq<Seq<char>>
    decreases s.len(),
{
    if s.len() == 0 {
        s
    } else {
        let p = distinct_run(s.drop_last());
        if p.len() > 0 && p.last() == s.last() {
            p
        } else {
            p.push(s.last())
        }
    }
}

/// The status after a sync: how many places and resources are known.
pub open spec fn synced_status(places: nat, resources: nat) -> Seq<char> {
    "synced — "@ + decimal(places) + " places, "@ + decimal(resources) + " resources"@
}

impl AppView {
    /// The state is well formed: both stores sorted and keyed by their items.
    pub open spec fn well_formed(self) -> bool {
        places_well_formed(self.places) && resources_well_formed(self.resources)
    }

    /// Names of the places that pass the filter, in name order.
    pub open spec fn place_names(self) -> Seq<Seq<char>> {
        self.places.map_values(|e: (String, PlaceInfo)| e.0@).filter(
            |k: Seq<char>| filter_accepts(self.filter, k),
        )
    }

    /// Paths of the resources whose text passes the filter, in path order.
    pub open spec fn resource_paths(self) -> Seq<ResourcePath> {
        self.resources.map_values(|e: (ResourcePath, ResourceInfo)| e.0).filter(
            |p: ResourcePath| filter_accepts(self.filter, path_text(p)),
        )
    }

    /// Every exporter name, each once, in name order.
    pub open spec fn all_exporter_names(self) -> Seq<Seq<char>> {
        distinct_run(self.resources.map_values(|e: (ResourcePath, ResourceInfo)| e.0.exporter@))
    }

    /// Names of the exporters that pass the filter, in name order.
    pub open spec fn exporter_names(self) -> Seq<Seq<char>> {
        self.all_exporter_names().filter(|k: Seq<char>| filter_accepts(self.filter, k))
    }

    /// The resources of one exporter, in path order.
    pub open spec fn exporter_group(self, name: Seq<char>) -> Seq<ResourceInfo> {
        self.resources.map_values(|e: (ResourcePath, ResourceInfo)| e.1).filter(
            |r: ResourceInfo| r.path.exporter@ == name,
        )
    }

    /// Number of items in the current view, after filtering.
    pub open spec fn item_count(self) -> nat {
        match self.view {
            View::Places => self.place_names().len(),
            View::Resources => self.resource_paths().len(),
            View::Exporters => self.exporter_names().len(),
        }
    }

    pub open spec fn after_switch_view(self, view: View) -> AppView {
        AppView { view, selected_index: 0, detail_open: false, detail_scroll: 0, ..self }
    }

    pub open spec fn after_select_next(self) -> AppView {
        let count = self.item_count();
        AppView {
            selected_index: if count > 0 {
                if self.selected_index + 1 <= count - 1 {
                    (self.selected_index + 1) as usize
                } else {
                    (count - 1) as usize
                }
            } else {
                self.selected_index
            },
            detail_scroll: 0,
            ..self
        }
    }

    pub open spec fn after_select_prev(self) -> AppView {
        AppView {
            selected_index: if self.selected_index > 0 {
                (self.selected_index - 1) as usize
            } else {
                0
            },
            detail_scroll: 0,
            ..self
        }
    }

    pub open spec fn after_select_first(self) -> AppView {
        AppView { selected_index: 0, detail_scroll: 0, ..self }
    }

    pub open spec fn after_select_last(self) -> AppView {
        let count = self.item_count();
        AppView {
            selected_index: if count > 0 {
                (count - 1) as usize
            } else {
                self.selected_index
            },
            detail_scroll: 0,
            ..self
        }
    }

    pub open spec fn after_toggle_detail(self) -> AppView {
        AppView { detail_open: !self.detail_open, detail_scroll: 0, ..self }
    }

    pub open spec fn after_toggle_help(self) -> AppView {
        AppView { help_open: !self.help_open, ..self }
    }

    pub open spec fn after_enter_mode(self, mode: InputMode) -> AppView {
        AppView { input_mode: mode, input_buffer: Seq::empty(), ..self }
    }

    pub open spec fn after_clear_filter(self) -> AppView {
        AppView { filter: None, selected_index: 0, ..self }
    }

    pub open spec fn after_scroll_down(self) -> AppView {
        AppView {
            detail_scroll: if self.detail_scroll < u16::MAX {
                (self.detail_scroll + 1) as u16
            } else {
                u16::MAX
            },
            ..self
        }
    }

    pub open spec fn after_scroll_up(self) -> AppView {
        AppView {
            detail_scroll: if self.detail_scroll > 0 {
                (self.detail_scroll - 1) as u16
            } else {
                0
            },
            ..self
        }
    }

    /// The effect of a command: the command is trimmed and lowercased, then
    /// quits, switches view, or reports itself unknown.
    pub open spec fn after_command(self, cmd: Seq<char>) -> AppView {
        let c = lowercase(trimmed(cmd));
        if c == "q"@ || c == "quit"@ {
            AppView { should_quit: true, ..self }
        } else if c == "places"@ || c == "p"@ {
            self.after_switch_view(View::Places)
        } else if c == "resources"@ || c == "r"@ {
            self.after_switch_view(View::Resources)
        } else if c == "exporters"@ || c == "e"@ {
            self.after_switch_view(View::Exporters)
        } else {
            AppView { status_message: "unknown command: "@ + c, ..self }
        }
    }

    /// Submitting the input bar: a filter is set (none when empty) and the
    /// selection reset, or a command runs; then the bar closes empty.
    pub open spec fn after_submit(self) -> AppView {
        let done = match self.input_mode {
            InputMode::Filter => AppView {
                filter: if self.input_buffer.len() == 0 {
                    None
                } else {
                    Some(self.input_buffer)
                },
                selected_index: 0,
                ..self
            },
            InputMode::Command => self.after_command(self.input_buffer),
            InputMode::Normal => self,
        };
        AppView { input_mode: InputMode::Normal, input_buffer: Seq::empty(), ..done }
    }

    /// The effect of an event from the coordinator.
    pub open spec fn after_event(self, event: CoordinatorEvent) -> AppView {
        match event {
            CoordinatorEvent::Connected => AppView {
                connected: true,
                status_message: "connected"@,
                ..self
            },
            CoordinatorEvent::Disconnected(reason) => AppView {
                connected: false,
                status_message: "disconnected: "@ + reason@,
                ..self
            },
            CoordinatorEvent::ResourceUpdate(info) => AppView {
                resources: entries_insert(self.resources, info.path, info),
                ..self
            },
            CoordinatorEvent::ResourceRemoved(path) => AppView {
                resources: entries_remove(self.resources, path.key_parts()),
                ..self
            },
            CoordinatorEvent::PlaceUpdate(info) => AppView {
                places: entries_insert(self.places, info.name, info),
                ..self
            },
            CoordinatorEvent::PlaceRemoved(name) => AppView {
                places: entries_remove(self.places, name.key_parts()),
                ..self
            },
            CoordinatorEvent::SyncComplete(id) => AppView {
                last_sync_id: id,
                synced: true,
                status_message: synced_status(self.places.len(), self.resources.len()),
                ..self
            },
        }
    }
}

impl App {
    /// The state at start: disconnected, no data, the places view.
    pub fn new(coordinator_url: String) -> (r: Self)
        ensures
            r@.well_formed(),
            r@.connected == false,
            r@.coordinator_url == coordinator_url@,
            r@.status_message == "connecting..."@,
            r@.places.len() == 0,
            r@.resources.len() == 0,
            r@.view == View::Places,
            r@.selected_index == 0,
            !r@.detail_open,
            !r@.help_open,
            r@.input_mode == InputMode::Normal,
            r@.input_buffer.len() == 0,
            r@.filter is None,
            r@.detail_scroll == 0,
            r@.last_sync_id == 0,
            !r@.synced,
            !r@.should_quit,
    {
        Self {
            connected: false,
            coordinator_url,
            status_message: crate::text::owned("connecting..."),
            places: Vec::new(),
            resources: Vec::new(),
            view: View::Places,
            selected_index: 0,
            detail_open: false,
            help_open: false,
            input_mode: InputMode::Normal,
            input_buffer: String::new(),
            filter: None,
            detail_scroll: 0,
            last_sync_id: 0,
            synced: false,
            should_quit: false,
        }
    }

    /// Whether a text passes the current filter.
    pub fn matches_filter(&self, text: &str) -> (r: bool)
        ensures
            r == filter_accepts(opt_text(self.filter), text@),
    {
        match &self.filter {
            Some(f) => {
                if f.as_str().is_empty() {
                    true
                } else {
                    let t = to_lowercase(text);
                    let p = to_lowercase(f.as_str());
                    contains_text(t.as_str(), p.as_str())
                }
            },
            None => true,
        }
    }

    /// The names of the places that pass the filter, in name order.
    pub fn filtered_place_names(&self) -> (r: Vec<String>)
        ensures
            texts(r@) == self@.place_names(),
    {
        let ghost keys = self.places@.map_values(|e: (String, PlaceInfo)| e.0@);
        let ghost pred = |k: Seq<char>| filter_accepts(opt_text(self.filter), k);
        let mut r: Vec<String> = Vec::new();
        let mut i: usize = 0;
        while i < self.places.len()
            invariant
                i <= self.places.len(),
                keys == self.places@.map_values(|e: (String, PlaceInfo)| e.0@),
                pred == (|k: Seq<char>| filter_accepts(opt_text(self.filter), k)),
                texts(r@) == keys.subrange(0, i as int).filter(pred),
            decreases self.places.len() - i,
        {
            let ghost before = r@;
            let name = &self.places[i].0;
            proof {
                assert(keys.subrange(0, i + 1).drop_last() =~= keys.subrange(0, i as int));
                assert(keys.subrange(0, i + 1).last() == name@);
                reveal(Seq::filter);
            }
            let keep = self.matches_filter(name.as_str());
            assert(keep == pred(name@));
            if keep {
                r.push(name.clone());
                assert(texts(r@) =~= texts(before).push(name@));
            }
            i = i + 1;
        }
        assert(keys.subrange(0, i as int) =~= keys);
        r
    }

    /// The paths of the resources whose text passes the filter, in path order.
    pub fn filtered_resource_paths(&self) -> (r: Vec<ResourcePath>)
        ensures
            r@ == self@.resource_paths(),
    {
        let ghost keys = self.resources@.map_values(|e: (ResourcePath, ResourceInfo)| e.0);
        let ghost pred = |p: ResourcePath| filter_accepts(opt_text(self.filter), path_text(p));
        let mut r: Vec<ResourcePath> = Vec::new();
        let mut i: usize = 0;
        while i < self.resources.len()
            invariant
                i <= self.resources.len(),
                keys == self.resources@.map_values(|e: (ResourcePath, ResourceInfo)| e.0),
                pred == (|p: ResourcePath| filter_accepts(opt_text(self.filter), path_text(p))),
                r@ == keys.subrange(0, i as int).filter(pred),
            decreases self.resources.len() - i,
        {
            let path = &self.resources[i].0;
            proof {
                assert(keys.subrange(0, i + 1).drop_last() =~= keys.subrange(0, i as int));
                assert(keys.subrange(0, i + 1).last() == *path);
                reveal(Seq::filter);
            }
            let text = path.text();
            let keep = self.matches_filter(text.as_str());
            assert(keep == pred(*path));
            if keep {
                r.push(path.clone());
            }
            i = i + 1;
        }
        assert(keys.subrange(0, i as int) =~= keys);
        r
    }

    /// The resources of one exporter, in path order.
    pub fn exporter_group(&self, name: &str) -> (g: Vec<&ResourceInfo>)
        ensures
            deref_all(g@) == self@.exporter_group(name@),
    {
        let ghost vals = self.resources@.map_values(|e: (ResourcePath, ResourceInfo)| e.1);
        let ghost pred = |r: ResourceInfo| r.path.exporter@ == name@;
        let mut g: Vec<&ResourceInfo> = Vec::new();
        let mut i: usize = 0;
        while i < self.resources.len()
            invariant
                i <= self.resources.len(),
                vals == self.resources@.map_values(|e: (ResourcePath, ResourceInfo)| e.1),
                pred == (|r: ResourceInfo| r.path.exporter@ == name@),
                deref_all(g@) == vals.subrange(0, i as int).filter(pred),
            decreases self.resources.len() - i,
        {
            let ghost before = g@;
            let res = &self.resources[i].1;
            proof {
                assert(vals.subrange(0, i + 1).drop_last() =~= vals.subrange(0, i as int));
                assert(vals.subrange(0, i + 1).last() == *res);
                reveal(Seq::filter);
            }
            let keep = text_eq(res.path.exporter.as_str(), name);
            assert(keep == pred(*res));
            if keep {
                g.push(res);
                assert(deref_all(g@) =~= deref_all(before).push(*res));
            }
            i = i + 1;
        }
        assert(vals.subrange(0, i as int) =~= vals);
        g
    }

    /// Every exporter name, each once, in name order.
    pub fn all_exporter_names(&self) -> (r: Vec<String>)
        ensures
            texts(r@) == self@.all_exporter_names(),
    {
        let ghost exps = self.resources@.map_values(
            |e: (ResourcePath, ResourceInfo)| e.0.exporter@,
        );
        let mut names: Vec<String> = Vec::new();
        let mut i: usize = 0;
        while i < self.resources.len()
            invariant
                i <= self.resources.len(),
                exps == self.resources@.map_values(|e: (ResourcePath, ResourceInfo)| e.0.exporter@),
                texts(names@) == distinct_run(exps.subrange(0, i as int)),
            decreases self.resources.len() - i,
        {
            let ghost before = names@;
            let exporter = &self.resources[i].0.exporter;
            proof {
                assert(exps.subrange(0, i + 1).drop_last() =~= exps.subrange(0, i as int));
                assert(exps.subrange(0, i + 1).last() == exporter@);
            }
            let n = names.len();
            let repeat = n > 0 && text_eq(names[n - 1].as_str(), exporter.as_str());
            if !repeat {
                names.push(exporter.clone());
                assert(texts(names@) =~= texts(before).push(exporter@));
            }
            i = i + 1;
        }
        assert(exps.subrange(0, i as int) =~= exps);
        names
    }

    /// Exporter summaries built from the current resources: one per exporter
    /// whose name passes the filter, in name order.
    pub fn exporters(&self) -> (r: Vec<Exporter>)
        ensures
            r@.len() == self@.exporter_names().len(),
            forall|i: int|
                0 <= i < r@.len() ==> summarizes(
                    #[trigger] r@[i],
                    self@.exporter_names()[i],
                    self@.exporter_group(self@.exporter_names()[i]),
                ),
    {
        let names = self.all_exporter_names();
        let ghost all = texts(names@);
        let ghost pred = |k: Seq<char>| filter_accepts(opt_text(self.filter), k);
        let mut r: Vec<Exporter> = Vec::new();
        let mut j: usize = 0;
        while j < names.len()
            invariant
                j <= names.len(),
                all == texts(names@),
                pred == (|k: Seq<char>| filter_accepts(opt_text(self.filter), k)),
                r@.len() == all.subrange(0, j as int).filter(pred).len(),
                forall|i: int|
                    0 <= i < r@.len() ==> summarizes(
                        #[trigger] r@[i],
                        all.subrange(0, j as int).filter(pred)[i],
                        self@.exporter_group(all.subrange(0, j as int).filter(pred)[i]),
                    ),
            decreases names.len() - j,
        {
            let ghost before = r@;
            let name = &names[j];
            proof {
                assert(all.subrange(0, j + 1).drop_last() =~= all.subrange(0, j as int));
                assert(all.subrange(0, j + 1).last() == name@);
                reveal(Seq::filter);
            }
            let keep = self.matches_filter(name.as_str());
            assert(keep == pred(name@));
            if keep {
                let group = self.exporter_group(name.as_str());
                let e = Exporter::from_resources(name.as_str(), group.as_slice());
                r.push(e);
                proof {
                    let f = all.subrange(0, j as int).filter(pred);
                    let g = all.subrange(0, j + 1).filter(pred);
                    assert(g == f.push(name@));
                    assert forall|i: int| 0 <= i < r@.len() implies summarizes(
                        #[trigger] r@[i],
                        g[i],
                        self@.exporter_group(g[i]),
                    ) by {
                        if i < before.len() {
                            assert(r@[i] == before[i]);
                            assert(g[i] == f[i]);
                        }
                    }
                }
            }
            j = j + 1;
        }
        assert(all.subrange(0, j as int) =~= all);
        r
    }

    /// Number of items in the current view, after filtering.
    pub fn item_count(&self) -> (r: usize)
        ensures
            r == self@.item_count(),
    {
        match self.view {
            View::Places => self.filtered_place_names().len(),
            View::Resources => self.filtered_resource_paths().len(),
            View::Exporters => self.exporters().len(),
        }
    }

    /// Applies an event from the coordinator.
    pub fn handle_coordinator_event(&mut self, event: CoordinatorEvent)
        requires
            old(self)@.well_formed(),
        ensures
            final(self)@ == old(self)@.after_event(event),
            final(self)@.well_formed(),
    {
        let ghost ev = event;
        match event {
            CoordinatorEvent::Connected => {
                self.connected = true;
                self.status_message = crate::text::owned("connected");
            },
            CoordinatorEvent::Disconnected(reason) => {
                self.connected = false;
                self.status_message = crate::text::concat2("disconnected: ", reason.as_str());
            },
            CoordinatorEvent::ResourceUpdate(info) => {
                proof {
                    lemma_resources_insert_well_formed(self.resources@, info);
                }
                let key = info.path.clone();
                insert_entry(&mut self.resources, key, info);
            },
            CoordinatorEvent::ResourceRemoved(path) => {
                proof {
                    lemma_resources_remove_well_formed(self.resources@, path.key_parts());
                }
                remove_entry(&mut self.resources, &path);
            },
            CoordinatorEvent::PlaceUpdate(info) => {
                proof {
                    lemma_places_insert_well_formed(self.places@, info);
                }
                let key = info.name.clone();
                insert_entry(&mut self.places, key, info);
            },
            CoordinatorEvent::PlaceRemoved(name) => {
                proof {
                    lemma_places_remove_well_formed(self.places@, name.key_parts());
                }
                remove_entry(&mut self.places, &name);
            },
            CoordinatorEvent::SyncComplete(id) => {
                self.last_sync_id = id;
                self.synced = true;
                let mut m = crate::text::owned("synced — ");
                m.append(usize_text(self.places.len()).as_str());
                m.append(" places, ");
                m.append(usize_text(self.resources.len()).as_str());
                m.append(" resources");
                self.status_message = m;
            },
        }
    }

    pub fn switch_view(&mut self, view: View)
        ensures
            final(self)@ == old(self)@.after_switch_view(view),
    {
        self.view = view;
        self.selected_index = 0;
        self.detail_open = false;
        self.detail_scroll = 0;
    }

    /// Moves the selection down by one, stopping at the last item.
    pub fn select_next(&mut self)
        ensures
            final(self)@ == old(self)@.after_select_next(),
    {
        let count = self.item_count();
        if count > 0 {
            if self.selected_index < count - 1 {
                self.selected_index = self.selected_index + 1;
            } else {
                self.selected_index = count - 1;
            }
        }
        self.detail_scroll = 0;
    }

    /// Moves the selection up by one, stopping at the first item.
    pub fn select_prev(&mut self)
        ensures
            final(self)@ == old(self)@.after_select_prev(),
    {
        self.selected_index = self.selected_index.saturating_sub(1);
        self.detail_scroll = 0;
    }

    pub fn select_first(&mut self)
        ensures
            final(self)@ == old(self)@.after_select_first(),
    {
        self.selected_index = 0;
        self.detail_scroll = 0;
    }

    pub fn select_last(&mut self)
        ensures
            final(self)@ == old(self)@.after_select_last(),
    {
        let count = self.item_count();
        if count > 0 {
            self.selected_index = count - 1;
        }
        self.detail_scroll = 0;
    }

    pub fn toggle_detail(&mut self)
        ensures
            final(self)@ == old(self)@.after_toggle_detail(),
    {
        self.detail_open = !self.detail_open;
        self.detail_scroll = 0;
    }

    pub fn toggle_help(&mut self)
        ensures
            final(self)@ == old(self)@.after_toggle_help(),
    {
        self.help_open = !self.help_open;
    }

    pub fn enter_filter_mode(&mut self)
        ensures
            final(self)@ == old(self)@.after_enter_mode(InputMode::Filter),
    {
        self.input_mode = InputMode::Filter;
        clear_text(&mut self.input_buffer);
    }

    pub fn enter_command_mode(&mut self)
        ensures
            final(self)@ == old(self)@.after_enter_mode(InputMode::Command),
    {
        self.input_mode = InputMode::Command;
        clear_text(&mut self.input_buffer);
    }

    pub fn exit_input_mode(&mut self)
        ensures
            final(self)@ == old(self)@.after_enter_mode(InputMode::Normal),
    {
        self.input_mode = InputMode::Normal;
        clear_text(&mut self.input_buffer);
    }

    /// Submits the input bar: sets the filter or runs the command.
    pub fn submit_input(&mut self)
        ensures
            final(self)@ == old(self)@.after_submit(),
    {
        match self.input_mode {
            InputMode::Filter => {
                if self.input_buffer.as_str().is_empty() {
                    self.filter = None;
                } else {
                    self.filter = Some(self.input_buffer.clone());
                }
                self.selected_index = 0;
            },
            InputMode::Command => {
                let cmd = self.input_buffer.clone();
                self.execute_command(cmd.as_str());
            },
            InputMode::Normal => {},
        }
        self.input_mode = InputMode::Normal;
        clear_text(&mut self.input_buffer);
    }

    pub fn clear_filter(&mut self)
        ensures
            final(self)@ == old(self)@.after_clear_filter(),
    {
        self.filter = None;
        self.selected_index = 0;
    }

    /// Runs a command typed in the command bar.
    fn execute_command(&mut self, cmd: &str)
        ensures
            final(self)@ == old(self)@.after_command(cmd@),
    {
        let t = trim_text(cmd);
        let c = to_lowercase(t.as_str());
        let c = c.as_str();
        if text_eq(c, "q") || text_eq(c, "quit") {
            self.should_quit = true;
        } else if text_eq(c, "places") || text_eq(c, "p") {
            self.switch_view(View::Places);
        } else if text_eq(c, "resources") || text_eq(c, "r") {
            self.switch_view(View::Resources);
        } else if text_eq(c, "exporters") || text_eq(c, "e") {
            self.switch_view(View::Exporters);
        } else {
            self.status_message = crate::text::concat2("unknown command: ", c);
        }
    }

    pub fn scroll_detail_down(&mut self)
        ensures
            final(self)@ == old(self)@.after_scroll_down(),
    {
        self.detail_scroll = self.detail_scroll.saturating_add(1);
    }

    pub fn scroll_detail_up(&mut self)
        ensures
            final(self)@ == old(self)@.after_scroll_up(),
    {
        self.detail_scroll = self.detail_scroll.saturating_sub(1);
    }
}

/// Storing a resource under its own path keeps the resource store well formed.
pub proof fn lemma_resources_insert_well_formed(
    s: Seq<(ResourcePath, ResourceInfo)>,
    info: ResourceInfo,
)
    requires
        resources_well_formed(s),
    ensures
        resources_well_formed(entries_insert(s, info.path, info)),
{
    lemma_insert_sorted(s, info.path, info);
    let t = entries_insert(s, info.path, info);
    assert forall|i: int| 0 <= i < t.len() implies (#[trigger] t[i]).1.path == t[i].0 by {
        lemma_insert_entries(s, info.path, info, i);
    }
}

/// Removing a path keeps the resource store well formed.
pub proof fn lemma_resources_remove_well_formed(
    s: Seq<(ResourcePath, ResourceInfo)>,
    k: Seq<Seq<char>>,
)
    requires
        resources_well_formed(s),
    ensures
        resources_well_formed(entries_remove(s, k)),
{
    lemma_remove_sorted(s, k);
    let t = entries_remove(s, k);
    assert forall|i: int| 0 <= i < t.len() implies (#[trigger] t[i]).1.path == t[i].0 by {
        lemma_remove_entries(s, k, i);
    }
}

/// Storing a place under its own name keeps the place store well formed.
pub proof fn lemma_places_insert_well_formed(s: Seq<(String, PlaceInfo)>, info: PlaceInfo)
    requires
        places_well_formed(s),
    ensures
        places_well_formed(entries_insert(s, info.name, info)),
{
    lemma_insert_sorted(s, info.name, info);
    let t = entries_insert(s, info.name, info);
    assert forall|i: int| 0 <= i < t.len() implies (#[trigger] t[i]).1.name@ == t[i].0@ by {
        lemma_insert_entries(s, info.name, info, i);
    }
}

/// Removing a name keeps the place store well formed.
pub proof fn lemma_places_remove_well_formed(s: Seq<(String, PlaceInfo)>, k: Seq<Seq<char>>)
    requires
        places_well_formed(s),
    ensures
        places_well_formed(entries_remove(s, k)),
{
    lemma_remove_sorted(s, k);
    let t = entries_remove(s, k);
    assert forall|i: int| 0 <= i < t.len() implies (#[trigger] t[i]).1.name@ == t[i].0@ by {
        lemma_remove_entries(s, k, i);
    }
}

} // verus!

//! Properties of the library as a whole: what updates from the coordinator
//! do to the stores, what keys never touch, and the promises of the
//! selection, filter, input bar, URLs and summaries.

use vstd::prelude::*;
use crate::app::{distinct_run, filter_accepts, resources_well_formed, AppView, InputMode};
use crate::config::{has_scheme, normalized_url};
use crate::event::{input_key_outcome, terminal_outcome, KeyCode, KeyEvent, TerminalEvent};
use crate::grpc::client::CoordinatorEvent;
use crate::model::exporter::{count_acquired, count_available, lemma_counts_bounded, sorted_texts};
use crate::model::place::PlaceInfo;
use crate::model::resource::{lemma_three_part_order, ResourceInfo, ResourcePath};
use crate::sorted_map::{
    entry_key, lemma_lookup_after_insert, lemma_lookup_after_remove, lookup, MapKey,
};
use crate::model::exporter::{summarizes, Exporter};
use crate::ui::detail::{
    exporter_detail_spec, place_detail_spec, place_lines, resource_detail_spec, resource_lines,
    LineText,
};
use crate::ui::tables::{exporter_cells, place_cells, resource_cells, shown_places, shown_resources};
use crate::ui::header::tab_title;
use crate::ui::selected_row_spec;
use crate::model::resource::owner_text;
use crate::model::resource::path_text;
use crate::text::{decimal, has_substring, lowercase, has_prefix, lemma_char_order_strict_total, lemma_lex_transitive, str_lt, char_order};

verus! {

/// After a resource update, reading its path gives the resource; every
/// other path reads as before.
pub proof fn law_resource_update_is_read_back(v: AppView, info: ResourceInfo, other: Seq<Seq<char>>)
    requires
        v.well_formed(),
    ensures
        lookup(
            v.after_event(CoordinatorEvent::ResourceUpdate(info)).resources,
            info.path.key_parts(),
        ) == Some(info),
        other != info.path.key_parts() ==> lookup(
            v.after_event(CoordinatorEvent::ResourceUpdate(info)).resources,
            other,
        ) == lookup(v.resources, other),
{
    lemma_lookup_after_insert(v.resources, info.path, info, other);
}

/// After a resource is removed, its path reads as absent; every other path
/// reads as before.
pub proof fn law_resource_removal_is_read_back(v: AppView, path: ResourcePath, other: Seq<Seq<char>>)
    requires
        v.well_formed(),
    ensures
        lookup(
            v.after_event(CoordinatorEvent::ResourceRemoved(path)).resources,
            path.key_parts(),
        ) is None,
        other != path.key_parts() ==> lookup(
            v.after_event(CoordinatorEvent::ResourceRemoved(path)).resources,
            other,
        ) == lookup(v.resources, other),
{
    lemma_lookup_after_remove(v.resources, path.key_parts(), other);
}

/// After a place update, reading its name gives the place; every other
/// name reads as before.
pub proof fn law_place_update_is_read_back(v: AppView, info: PlaceInfo, other: Seq<Seq<char>>)
    requires
        v.well_formed(),
    ensures
        lookup(v.after_event(CoordinatorEvent::PlaceUpdate(info)).places, info.name.key_parts())
            == Some(info),
        other != info.name.key_parts() ==> lookup(
            v.after_event(CoordinatorEvent::PlaceUpdate(info)).places,
            other,
        ) == lookup(v.places, other),
{
    lemma_lookup_after_insert(v.places, info.name, info, other);
}

/// After a place is removed, its name reads as absent; every other name
/// reads as before.
pub proof fn law_place_removal_is_read_back(v: AppView, name: String, other: Seq<Seq<char>>)
    requires
        v.well_formed(),
    ensures
        lookup(v.after_event(CoordinatorEvent::PlaceRemoved(name)).places, name.key_parts())
            is None,
        other != name.key_parts() ==> lookup(
            v.after_event(CoordinatorEvent::PlaceRemoved(name)).places,
            other,
        ) == lookup(v.places, other),
{
    lemma_lookup_after_remove(v.places, name.key_parts(), other);
}

/// Events from the coordinator never touch what the user is looking at:
/// view, selection, panels, input bar, filter and scroll stay as they were.
pub proof fn law_events_keep_view_state(v: AppView, event: CoordinatorEvent)
    ensures
        v.after_event(event).view == v.view,
        v.after_event(event).selected_index == v.selected_index,
        v.after_event(event).detail_open == v.detail_open,
        v.after_event(event).help_open == v.help_open,
        v.after_event(event).input_mode == v.input_mode,
        v.after_event(event).input_buffer == v.input_buffer,
        v.after_event(event).filter == v.filter,
        v.after_event(event).detail_scroll == v.detail_scroll,
        v.after_event(event).should_quit == v.should_quit,
{
}

/// Terminal input never touches what the coordinator reported: places,
/// resources, connection, and sync state stay as they were.
pub proof fn law_input_keeps_data(v: AppView, event: TerminalEvent)
    ensures
        terminal_outcome(v, event).0.places == v.places,
        terminal_outcome(v, event).0.resources == v.resources,
        terminal_outcome(v, event).0.connected == v.connected,
        terminal_outcome(v, event).0.coordinator_url == v.coordinator_url,
        terminal_outcome(v, event).0.last_sync_id == v.last_sync_id,
        terminal_outcome(v, event).0.synced == v.synced,
{
}

/// Terminal input keeps the state well formed.
pub proof fn law_input_keeps_well_formed(v: AppView, event: TerminalEvent)
    requires
        v.well_formed(),
    ensures
        terminal_outcome(v, event).0.well_formed(),
{
    law_input_keeps_data(v, event);
}

/// Moving the selection keeps it on an item: down stops at the last one,
/// up at the first, and "last" lands on the last.
pub proof fn law_selection_stays_in_range(v: AppView)
    requires
        0 < v.item_count() <= usize::MAX,
    ensures
        v.after_select_next().selected_index < v.item_count(),
        v.selected_index < v.item_count() ==> v.after_select_prev().selected_index
            < v.item_count(),
        v.after_select_last().selected_index == v.item_count() - 1,
        v.after_select_first().selected_index == 0,
{
}

/// Switching view starts at the first item with the detail panel closed.
pub proof fn law_switch_view_resets(v: AppView, view: crate::app::View)
    ensures
        v.after_switch_view(view).view == view,
        v.after_switch_view(view).selected_index == 0,
        !v.after_switch_view(view).detail_open,
        v.after_switch_view(view).detail_scroll == 0,
{
}

/// Toggling help twice leaves the state as it was.
pub proof fn law_help_toggle_twice(v: AppView)
    ensures
        v.after_toggle_help().after_toggle_help() == v,
{
}

/// In the input bar, typing a character and erasing it leaves the state as
/// it was.
pub proof fn law_type_then_erase(v: AppView, c: char, ctrl1: bool, ctrl2: bool)
    ensures
        input_key_outcome(
            input_key_outcome(v, KeyEvent { code: KeyCode::Char(c), ctrl: ctrl1 }),
            KeyEvent { code: KeyCode::Backspace, ctrl: ctrl2 },
        ) == v,
{
    assert(v.input_buffer.push(c).drop_last() =~= v.input_buffer);
}

/// Leaving the input bar with Esc returns to normal mode with nothing typed
/// and the filter as it was.
pub proof fn law_escape_discards_input(v: AppView, ctrl: bool)
    ensures
        input_key_outcome(v, KeyEvent { code: KeyCode::Esc, ctrl }).input_mode
            == InputMode::Normal,
        input_key_outcome(v, KeyEvent { code: KeyCode::Esc, ctrl }).input_buffer.len() == 0,
        input_key_outcome(v, KeyEvent { code: KeyCode::Esc, ctrl }).filter == v.filter,
{
}

/// Submitting the filter bar sets the filter to what was typed, or clears
/// it when nothing was typed.
pub proof fn law_submit_filter(v: AppView)
    requires
        v.input_mode == InputMode::Filter,
    ensures
        v.input_buffer.len() == 0 ==> v.after_submit().filter is None,
        v.input_buffer.len() > 0 ==> v.after_submit().filter == Some(v.input_buffer),
        v.after_submit().selected_index == 0,
        v.after_submit().input_mode == InputMode::Normal,
{
}

/// No filter, or an empty one, lets every text through; so every place is
/// listed, in name order.
pub proof fn law_no_filter_shows_all(v: AppView, text: Seq<char>)
    requires
        v.filter is None || v.filter == Some(Seq::<char>::empty()),
    ensures
        filter_accepts(v.filter, text),
        v.place_names() == v.places.map_values(|e: (String, PlaceInfo)| e.0@),
{
    let keys = v.places.map_values(|e: (String, PlaceInfo)| e.0@);
    let pred = |k: Seq<char>| filter_accepts(v.filter, k);
    assert(keys.filter(pred) =~= keys) by {
        lemma_filter_all(keys, pred);
    }
}

proof fn lemma_filter_all(s: Seq<Seq<char>>, pred: spec_fn(Seq<char>) -> bool)
    requires
        forall|x: Seq<char>| #[trigger] pred(x),
    ensures
        s.filter(pred) == s,
    decreases s.len(),
{
    reveal(Seq::filter);
    if s.len() > 0 {
        lemma_filter_all(s.drop_last(), pred);
        assert(s.drop_last().push(s.last()) =~= s);
    }
}

/// Filtering keeps the order of what it keeps.
proof fn lemma_filter_keeps_order<A>(s: Seq<A>, pred: spec_fn(A) -> bool, lt: spec_fn(A, A) -> bool)
    requires
        forall|i: int, j: int| 0 <= i < j < s.len() ==> lt(#[trigger] s[i], #[trigger] s[j]),
    ensures
        forall|i: int, j: int|
            0 <= i < j < s.filter(pred).len() ==> lt(
                #[trigger] s.filter(pred)[i],
                #[trigger] s.filter(pred)[j],
            ),
    decreases s.len(),
{
    reveal(Seq::filter);
    if s.len() > 0 {
        let rest = s.drop_last();
        lemma_filter_keeps_order(rest, pred, lt);
        let f = rest.filter(pred);
        if pred(s.last()) {
            assert(s.filter(pred) == f.push(s.last()));
            assert forall|i: int, j: int| 0 <= i < j < s.filter(pred).len() implies lt(
                #[trigger] s.filter(pred)[i],
                #[trigger] s.filter(pred)[j],
            ) by {
                if j == f.len() {
                    assert(f.contains(f[i]));
                    rest.lemma_filter_contains_rev(pred, f[i]);
                    let k = choose|k: int| 0 <= k < rest.len() && rest[k] == f[i];
                    assert(lt(s[k], s[s.len() - 1]));
                } else {
                    assert(s.filter(pred)[i] == f[i]);
                    assert(s.filter(pred)[j] == f[j]);
                }
            }
        } else {
            assert(s.filter(pred) == f);
        }
    }
}

/// The listings are in order, each item once: place names sorted, resource
/// paths sorted by exporter, group and name, exporter names sorted,
/// whatever the filter.
pub proof fn law_listings_in_order(v: AppView)
    requires
        v.well_formed(),
    ensures
        sorted_texts(v.place_names()),
        forall|i: int, j: int|
            0 <= i < j < v.resource_paths().len() ==> crate::text::parts_lt(
                (#[trigger] v.resource_paths()[i]).key_parts(),
                (#[trigger] v.resource_paths()[j]).key_parts(),
            ),
        sorted_texts(v.exporter_names()),
{
    let names = v.places.map_values(|e: (String, PlaceInfo)| e.0@);
    assert forall|i: int, j: int| 0 <= i < j < names.len() implies str_lt(
        #[trigger] names[i],
        #[trigger] names[j],
    ) by {
        assert(crate::text::parts_lt(entry_key(v.places[i]), entry_key(v.places[j])));
        crate::sorted_map::lemma_single_part_order(names[i], names[j]);
    }
    lemma_filter_keeps_order(
        names,
        |k: Seq<char>| filter_accepts(v.filter, k),
        |a: Seq<char>, b: Seq<char>| str_lt(a, b),
    );
    let paths = v.resources.map_values(|e: (ResourcePath, ResourceInfo)| e.0);
    assert forall|i: int, j: int| 0 <= i < j < paths.len() implies crate::text::parts_lt(
        (#[trigger] paths[i]).key_parts(),
        (#[trigger] paths[j]).key_parts(),
    ) by {
        assert(crate::text::parts_lt(entry_key(v.resources[i]), entry_key(v.resources[j])));
    }
    lemma_filter_keeps_order(
        paths,
        |p: ResourcePath| filter_accepts(v.filter, crate::model::resource::path_text(p)),
        |a: ResourcePath, b: ResourcePath| crate::text::parts_lt(a.key_parts(), b.key_parts()),
    );
    law_exporter_names_sorted(v);
    lemma_filter_keeps_order(
        v.all_exporter_names(),
        |k: Seq<char>| filter_accepts(v.filter, k),
        |a: Seq<char>, b: Seq<char>| str_lt(a, b),
    );
}

/// Normalizing a coordinator URL twice changes nothing more than once; a
/// normalized URL always names its scheme.
pub proof fn law_normalize_idempotent(raw: Seq<char>)
    ensures
        has_scheme(normalized_url(raw)),
        normalized_url(normalized_url(raw)) == normalized_url(raw),
{
    if !has_scheme(raw) {
        let n = "http://"@ + raw;
        assert(n.subrange(0, ("http://"@).len() as int) =~= "http://"@);
        assert(has_prefix(n, "http://"@));
    }
}

/// In an exporter summary the available and unavailable resources add up
/// to all of them, and no more are acquired than there are.
pub proof fn law_exporter_counts(rs: Seq<ResourceInfo>)
    ensures
        count_available(rs) + (rs.len() - count_available(rs)) == rs.len(),
        count_available(rs) <= rs.len(),
        count_acquired(rs) <= rs.len(),
{
    lemma_counts_bounded(rs);
}

/// Along a sorted resource store, exporter names never decrease.
proof fn lemma_exporters_ordered(s: Seq<(ResourcePath, ResourceInfo)>, i: int, j: int)
    requires
        resources_well_formed(s),
        0 <= i < j < s.len(),
    ensures
        s[i].0.exporter@ == s[j].0.exporter@ || str_lt(s[i].0.exporter@, s[j].0.exporter@),
{
    assert(crate::text::parts_lt(entry_key(s[i]), entry_key(s[j])));
    let a = s[i].0;
    let b = s[j].0;
    lemma_three_part_order(a.exporter@, a.group@, a.name@, b.exporter@, b.group@, b.name@);
}

/// Each exporter once, in name order: the exporter names of a well-formed
/// store are sorted, each once, and are exactly the exporters of its
/// resources.
pub proof fn law_exporter_names_sorted(v: AppView)
    requires
        v.well_formed(),
    ensures
        sorted_texts(v.all_exporter_names()),
        forall|x: Seq<char>|
            v.all_exporter_names().contains(x) <==> exists|i: int|
                0 <= i < v.resources.len() && #[trigger] v.resources[i].0.exporter@ == x,
{
    let e = v.resources.map_values(|r: (ResourcePath, ResourceInfo)| r.0.exporter@);
    assert forall|i: int, j: int| 0 <= i < j < e.len() implies e[i] == e[j] || str_lt(
        #[trigger] e[i],
        #[trigger] e[j],
    ) by {
        lemma_exporters_ordered(v.resources, i, j);
    }
    lemma_distinct_run(e);
    assert forall|x: Seq<char>| v.all_exporter_names().contains(x) <==> exists|i: int|
        0 <= i < v.resources.len() && #[trigger] v.resources[i].0.exporter@ == x by {
        if e.contains(x) {
            let i = choose|i: int| 0 <= i < e.len() && e[i] == x;
            assert(v.resources[i].0.exporter@ == x);
        }
        if exists|i: int| 0 <= i < v.resources.len() && #[trigger] v.resources[i].0.exporter@ == x {
            let i = choose|i: int| 0 <= i < v.resources.len() && #[trigger] v.resources[i].0.exporter@ == x;
            assert(e[i] == x);
        }
    }
}

/// Merging repeated neighbours of a never-decreasing list of texts gives
/// each text once, in order.
proof fn lemma_distinct_run(s: Seq<Seq<char>>)
    requires
        forall|i: int, j: int| 0 <= i < j < s.len() ==> s[i] == s[j] || str_lt(#[trigger] s[i], #[trigger] s[j]),
    ensures
        sorted_texts(distinct_run(s)),
        forall|x: Seq<char>| distinct_run(s).contains(x) <==> s.contains(x),
        s.len() > 0 ==> distinct_run(s).len() > 0 && distinct_run(s).last() == s.last(),
    decreases s.len(),
{
    if s.len() > 0 {
        let q = s.drop_last();
        assert forall|i: int, j: int| 0 <= i < j < q.len() implies q[i] == q[j] || str_lt(#[trigger] q[i], #[trigger] q[j]) by {
            assert(q[i] == s[i] && q[j] == s[j]);
        }
        lemma_distinct_run(q);
        let p = distinct_run(q);
        let l = s.last();
        if p.len() > 0 && p.last() == l {
            assert forall|x: Seq<char>| p.contains(x) <==> s.contains(x) by {
                if s.contains(x) {
                    let k = choose|k: int| 0 <= k < s.len() && s[k] == x;
                    if k < s.len() - 1 {
                        assert(q[k] == x);
                        assert(q.contains(x));
                    } else {
                        assert(p[p.len() - 1] == x);
                    }
                }
                if p.contains(x) {
                    assert(q.contains(x));
                    let k = choose|k: int| 0 <= k < q.len() && q[k] == x;
                    assert(s[k] == x);
                }
            }
        } else {
            let t = p.push(l);
            if p.len() > 0 {
                // the previous last is the previous element of s
                assert(q.len() > 0);
                assert(p.last() == q.last());
                assert(q.last() == s[s.len() - 2]);
                assert(str_lt(p.last(), l));
            }
            assert(sorted_texts(t)) by {
                lemma_char_order_strict_total();
                assert forall|a: int, b: int| 0 <= a < b < t.len() implies str_lt(#[trigger] t[a], #[trigger] t[b]) by {
                    if b < p.len() {
                        assert(t[a] == p[a] && t[b] == p[b]);
                    } else if a < p.len() - 1 {
                        assert(str_lt(p[a], p[p.len() - 1]));
                        lemma_lex_transitive(p[a], p[p.len() - 1], l, char_order());
                    }
                }
            }
            assert forall|x: Seq<char>| t.contains(x) <==> s.contains(x) by {
                if s.contains(x) {
                    let k = choose|k: int| 0 <= k < s.len() && s[k] == x;
                    if k < s.len() - 1 {
                        assert(q[k] == x);
                        assert(q.contains(x));
                        assert(p.contains(x));
                        let m = choose|m: int| 0 <= m < p.len() && p[m] == x;
                        assert(t[m] == x);
                    } else {
                        assert(t[t.len() - 1] == x);
                    }
                }
                if t.contains(x) {
                    let k = choose|k: int| 0 <= k < t.len() && t[k] == x;
                    if k < p.len() {
                        assert(t[k] == p[k]);
                        assert(p.contains(x)) by {
                            assert(0 <= k < p.len() && p[k] == x);
                        }
                        assert(q.contains(x));
                        let m = choose|m: int| 0 <= m < q.len() && q[m] == x;
                        assert(s[m] == x);
                    } else {
                        assert(s[s.len() - 1] == x);
                    }
                }
            }
        }
    }
}

// ── Filtering ignores case ───────────────────────────────────────────

/// A non-empty filter lets a text through exactly when the lowercase filter
/// occurs in the lowercase text.
pub proof fn law_filter_is_case_insensitive_substring(f: Seq<char>, t: Seq<char>)
    requires
        f.len() > 0,
    ensures
        filter_accepts(Some(f), t) <==> has_substring(lowercase(t), lowercase(f)),
{
}

/// Case does not matter on either side: texts with the same lowercase form
/// pass the same filters, and non-empty filters with the same lowercase form
/// let the same texts through.
pub proof fn law_filter_ignores_case(f: Seq<char>, g: Seq<char>, t: Seq<char>, u: Seq<char>)
    requires
        lowercase(t) == lowercase(u),
        lowercase(f) == lowercase(g),
        f.len() > 0,
        g.len() > 0,
    ensures
        filter_accepts(Some(f), t) == filter_accepts(Some(f), u),
        filter_accepts(Some(f), t) == filter_accepts(Some(g), t),
{
}

// ── The exporters table ──────────────────────────────────────────────

/// The row of an exporter summary shows, column by column: the exporter's
/// name, how many resources it has, how many are available, how many are
/// not, and how many are acquired.
pub proof fn law_exporter_row_columns(e: Exporter, name: Seq<char>, rs: Seq<ResourceInfo>)
    requires
        summarizes(e, name, rs),
    ensures
        exporter_cells(e).len() == 6,
        exporter_cells(e)[0] == name,
        exporter_cells(e)[1] == decimal(rs.len()),
        exporter_cells(e)[2] == decimal(count_available(rs)),
        exporter_cells(e)[3] == decimal((rs.len() - count_available(rs)) as nat),
        exporter_cells(e)[4] == decimal(count_acquired(rs)),
{
    lemma_counts_bounded(rs);
}

// ── The detail panel follows the highlighted row ─────────────────────

/// The row a table highlights for `len` items: the selection, held to the
/// last row.
pub open spec fn highlighted(selected: usize, len: nat) -> int {
    if selected < len {
        selected as int
    } else {
        len - 1
    }
}

/// With some place listed, the detail panel describes the place on the
/// highlighted row of the filtered listing: its title names that place and
/// its lines are those of the place stored under that name.
pub proof fn law_place_detail_shows_highlighted_place(v: AppView)
    requires
        v.well_formed(),
        0 < v.place_names().len() <= usize::MAX,
    ensures
        ({
            let name = v.place_names()[highlighted(v.selected_index, v.place_names().len())];
            exists|k: int|
                0 <= k < v.places.len() && v.places[k].0@ == name && #[trigger] place_detail_spec(v)
                    == ("Place: "@ + name, place_lines(v.places[k].1))
        }),
{
    let names = v.place_names();
    let keys = v.places.map_values(|e: (String, PlaceInfo)| e.0@);
    let pred = |k: Seq<char>| filter_accepts(v.filter, k);
    let i = highlighted(v.selected_index, names.len());
    let name = names[i];
    assert(names.contains(name));
    keys.lemma_filter_contains_rev(pred, name);
    let k = choose|k: int| 0 <= k < keys.len() && keys[k] == name;
    assert(entry_key(v.places[k]) == seq![name]);
    crate::sorted_map::lemma_lookup_at(v.places, k);
    assert(v.places[k].1.name@ == name);
    assert(crate::ui::selected_row_spec(v.selected_index, names.len() as usize) == Some(i as usize));
    assert(place_detail_spec(v) == ("Place: "@ + name, place_lines(v.places[k].1)));
}

/// With some resource listed, the detail panel describes the resource on
/// the highlighted row of the filtered listing.
pub proof fn law_resource_detail_shows_highlighted_resource(v: AppView)
    requires
        v.well_formed(),
        0 < v.resource_paths().len() <= usize::MAX,
    ensures
        ({
            let path = v.resource_paths()[highlighted(v.selected_index, v.resource_paths().len())];
            exists|k: int|
                0 <= k < v.resources.len() && v.resources[k].0 == path && #[trigger] resource_detail_spec(v)
                    == ("Resource: "@ + path_text(path), resource_lines(v.resources[k].1))
        }),
{
    let paths = v.resource_paths();
    let keys = v.resources.map_values(|e: (ResourcePath, ResourceInfo)| e.0);
    let pred = |p: ResourcePath| filter_accepts(v.filter, path_text(p));
    let i = highlighted(v.selected_index, paths.len());
    let path = paths[i];
    assert(paths.contains(path));
    keys.lemma_filter_contains_rev(pred, path);
    let k = choose|k: int| 0 <= k < keys.len() && keys[k] == path;
    crate::sorted_map::lemma_lookup_at(v.resources, k);
    assert(crate::ui::selected_row_spec(v.selected_index, paths.len() as usize) == Some(i as usize));
    assert(resource_detail_spec(v) == ("Resource: "@ + path_text(path), resource_lines(v.resources[k].1)));
}

/// With some exporter listed, the detail panel is titled by the exporter on
/// the highlighted row of the filtered listing and names it first.
pub proof fn law_exporter_detail_shows_highlighted_exporter(v: AppView)
    requires
        0 < v.exporter_names().len() <= usize::MAX,
    ensures
        ({
            let name = v.exporter_names()[highlighted(v.selected_index, v.exporter_names().len())];
            &&& exporter_detail_spec(v).0 == "Exporter: "@ + name
            &&& exporter_detail_spec(v).1[0] == LineText::Field("Name"@, name)
        }),
{
    let names = v.exporter_names();
    let i = highlighted(v.selected_index, names.len());
    assert(crate::ui::selected_row_spec(v.selected_index, names.len() as usize) == Some(i as usize));
}

// ── The detail panel toggles ─────────────────────────────────────────

/// Toggling the detail panel flips it and rewinds its scroll; toggling
/// twice leaves it as it was. In normal mode, with no help shown, Enter
/// toggles it.
pub proof fn law_detail_toggles(v: AppView, ctrl: bool)
    ensures
        v.after_toggle_detail().detail_open == !v.detail_open,
        v.after_toggle_detail().detail_scroll == 0,
        v.after_toggle_detail().after_toggle_detail().detail_open == v.detail_open,
        v.input_mode == InputMode::Normal && !v.help_open ==> terminal_outcome(
            v,
            TerminalEvent::Key(KeyEvent { code: KeyCode::Enter, ctrl }),
        ) == (v.after_toggle_detail(), false),
{
}

/// Scrolling the detail panel down then up returns to where it was, short
/// of the largest offset; up then down likewise, from any offset above 0.
pub proof fn law_scroll_down_then_up(v: AppView)
    ensures
        v.detail_scroll < u16::MAX ==> v.after_scroll_down().after_scroll_up() == v,
        v.detail_scroll > 0 ==> v.after_scroll_up().after_scroll_down() == v,
{
}

// ── Status messages ──────────────────────────────────────────────────

/// After a sync the status counts the places, then the resources, as the
/// stores hold them; the stores are untouched and the sync is recorded.
/// Connecting and disconnecting report themselves, the latter with its
/// reason.
pub proof fn law_status_messages(v: AppView, id: u64, reason: String)
    ensures
        ({
            let w = v.after_event(CoordinatorEvent::SyncComplete(id));
            &&& w.status_message == "synced — "@ + decimal(v.places.len()) + " places, "@ + decimal(
                v.resources.len(),
            ) + " resources"@
            &&& w.places == v.places
            &&& w.resources == v.resources
            &&& w.last_sync_id == id
            &&& w.synced
        }),
        v.after_event(CoordinatorEvent::Connected).status_message == "connected"@,
        v.after_event(CoordinatorEvent::Connected).connected,
        v.after_event(CoordinatorEvent::Disconnected(reason)).status_message == "disconnected: "@
            + reason@,
        !v.after_event(CoordinatorEvent::Disconnected(reason)).connected,
{
}

// ── Tables follow the listings ───────────────────────────────────────

/// Filtering on a projection then projecting is projecting then filtering.
proof fn lemma_filter_map<A, B>(s: Seq<A>, f: spec_fn(A) -> B, p: spec_fn(B) -> bool)
    ensures
        s.filter(|a: A| p(f(a))).map_values(f) == s.map_values(f).filter(p),
    decreases s.len(),
{
    reveal(Seq::filter);
    if s.len() > 0 {
        let rest = s.drop_last();
        lemma_filter_map(rest, f, p);
        assert(s.map_values(f).drop_last() =~= rest.map_values(f));
        if p(f(s.last())) {
            assert(s.filter(|a: A| p(f(a))).map_values(f) =~= rest.filter(|a: A| p(f(a))).map_values(
                f,
            ).push(f(s.last())));
        }
        assert(s.filter(|a: A| p(f(a))).map_values(f) =~= s.map_values(f).filter(p));
    } else {
        assert(s.filter(|a: A| p(f(a))).map_values(f) =~= s.map_values(f).filter(p));
    }
}

/// The rows of the places and resources tables are, in order, the items of
/// the filtered listings that the selection and the detail panel use.
pub proof fn law_table_rows_are_the_listing(v: AppView)
    ensures
        shown_places(v).map_values(|e: (String, PlaceInfo)| e.0@) == v.place_names(),
        shown_resources(v).map_values(|e: (ResourcePath, ResourceInfo)| e.0) == v.resource_paths(),
{
    let fp = |e: (String, PlaceInfo)| e.0@;
    let pp = |k: Seq<char>| filter_accepts(v.filter, k);
    lemma_filter_map(v.places, fp, pp);
    assert((|a: (String, PlaceInfo)| pp(fp(a))) =~= (|e: (String, PlaceInfo)| filter_accepts(v.filter, e.0@)));
    let fr = |e: (ResourcePath, ResourceInfo)| e.0;
    let pr = |p: ResourcePath| filter_accepts(v.filter, path_text(p));
    lemma_filter_map(v.resources, fr, pr);
    assert((|a: (ResourcePath, ResourceInfo)| pr(fr(a))) =~= (|e: (ResourcePath, ResourceInfo)| filter_accepts(v.filter, path_text(e.0))));
}

/// A resource's row shows its path split into exporter, group and name,
/// then its class, "yes" or "no" for its availability, and its owner.
pub proof fn law_resource_row_columns(r: ResourceInfo)
    ensures
        resource_cells(r).len() == 6,
        resource_cells(r)[0] + "/"@ + resource_cells(r)[1] + "/"@ + resource_cells(r)[2] == path_text(
            r.path,
        ),
        resource_cells(r)[3] == r.cls@,
        resource_cells(r)[4] == "yes"@ <==> r.available,
        resource_cells(r)[4] == "yes"@ || resource_cells(r)[4] == "no"@,
        resource_cells(r)[5] == owner_text(r.acquired),
{
    reveal_strlit("yes");
    reveal_strlit("no");
    assert("yes"@.len() == 3);
    assert("no"@.len() == 2);
}

/// A place's row shows its name, its comment in the third column and its
/// owner in the fourth.
pub proof fn law_place_row_columns(p: PlaceInfo)
    ensures
        place_cells(p).len() == 6,
        place_cells(p)[0] == p.name@,
        place_cells(p)[2] == p.comment@,
        place_cells(p)[3] == owner_text(p.acquired),
{
}

/// The highlighted row is on the table whenever the table has rows, is the
/// selection when that is on the table, and the last row otherwise.
pub proof fn law_selected_row_on_table(selected: usize, len: usize)
    ensures
        selected_row_spec(selected, len) is None <==> len == 0,
        selected_row_spec(selected, len) matches Some(i) ==> i < len && (i == selected || (
        selected >= len && i == len - 1)),
{
}

// ── The header counts ────────────────────────────────────────────────

/// The tabs count all places, all resources and each exporter once,
/// whatever the filter, numbered from 1 in view order.
pub proof fn law_tab_counts(v: AppView)
    ensures
        tab_title(v, crate::app::View::Places) == " "@ + decimal(1) + ":"@ + "Places"@ + " ("@ + decimal(
            v.places.len(),
        ) + ") "@,
        tab_title(v, crate::app::View::Resources) == " "@ + decimal(2) + ":"@ + "Resources"@ + " ("@
            + decimal(v.resources.len()) + ") "@,
        tab_title(v, crate::app::View::Exporters) == " "@ + decimal(3) + ":"@ + "Exporters"@ + " ("@
            + decimal(v.all_exporter_names().len()) + ") "@,
{
}

// ── Key bindings ─────────────────────────────────────────────────────

/// The key with no Control held.
pub open spec fn plain_key(code: KeyCode) -> TerminalEvent {
    TerminalEvent::Key(KeyEvent { code, ctrl: false })
}

/// In normal mode with no help shown: the letter keys and the arrow keys
/// move the selection alike (`j`/Down, `k`/Up, `g`/Home, `G`/End); `1`,
/// `2`, `3` open the places, resources and exporters views; `q` and
/// Control-C quit without touching the state; `?` opens the help.
pub proof fn law_key_bindings(v: AppView)
    requires
        v.input_mode == InputMode::Normal,
        !v.help_open,
    ensures
        terminal_outcome(v, plain_key(KeyCode::Char('j'))) == terminal_outcome(v, plain_key(KeyCode::Down)),
        terminal_outcome(v, plain_key(KeyCode::Char('k'))) == terminal_outcome(v, plain_key(KeyCode::Up)),
        terminal_outcome(v, plain_key(KeyCode::Char('g'))) == terminal_outcome(v, plain_key(KeyCode::Home)),
        terminal_outcome(v, plain_key(KeyCode::Char('G'))) == terminal_outcome(v, plain_key(KeyCode::End)),
        terminal_outcome(v, plain_key(KeyCode::Down)).0 == v.after_select_next(),
        terminal_outcome(v, plain_key(KeyCode::Up)).0 == v.after_select_prev(),
        terminal_outcome(v, plain_key(KeyCode::Char('1'))).0.view == crate::app::View::Places,
        terminal_outcome(v, plain_key(KeyCode::Char('2'))).0.view == crate::app::View::Resources,
        terminal_outcome(v, plain_key(KeyCode::Char('3'))).0.view == crate::app::View::Exporters,
        terminal_outcome(v, plain_key(KeyCode::Char('q'))) == (v, true),
        terminal_outcome(v, TerminalEvent::Key(KeyEvent { code: KeyCode::Char('c'), ctrl: true }))
            == (v, true),
        !terminal_outcome(v, plain_key(KeyCode::Char('c'))).1,
        terminal_outcome(v, plain_key(KeyCode::Char('?'))).0.help_open,
        !terminal_outcome(v, plain_key(KeyCode::Char('j'))).1,
{
}

/// Moving down never moves up and moving up never moves down; on a listing
/// with a row below the selection, down then up comes back.
pub proof fn law_down_then_up(v: AppView)
    requires
        v.item_count() <= usize::MAX,
    ensures
        v.after_select_next().selected_index >= v.selected_index || v.selected_index >= v.item_count(),
        v.after_select_prev().selected_index <= v.selected_index,
        v.selected_index + 1 < v.item_count() ==> v.after_select_next().after_select_prev().selected_index
            == v.selected_index,
        v.selected_index + 1 < v.item_count() ==> v.after_select_next().selected_index == v.selected_index
            + 1,
{
}

} // verus!

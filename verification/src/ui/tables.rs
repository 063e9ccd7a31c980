//! The tables of the three views: their titles and the text of their rows.

use vstd::prelude::*;
use vstd::view::View as _;
use crate::app::{filter_accepts, opt_text, App, AppView};
use crate::model::exporter::{summarizes, Exporter};
use crate::model::place::{pattern_text, tag_text, MatchInfo, PlaceInfo};
use crate::model::resource::{owner_text, path_text, ResourceInfo, ResourcePath};
use crate::text::{decimal, join_spec, owned, texts, usize_text};

verus! {

/// A table's title: its name and, when a filter is set, the filter.
pub open spec fn table_title_text(name: Seq<char>, filter: Option<Seq<char>>) -> Seq<char> {
    " "@ + name + match filter {
        Some(f) => " (filter: "@ + f + ")"@,
        None => Seq::empty(),
    } + " "@
}

pub fn table_title(name: &str, app: &App) -> (r: String)
    ensures
        r@ == table_title_text(name@, opt_text(app.filter)),
{
    let mut t = owned(" ");
    t.append(name);
    if let Some(f) = &app.filter {
        t.append(" (filter: ");
        t.append(f.as_str());
        t.append(")");
    }
    t.append(" ");
    proof {
        reveal_strlit("");
    }
    assert(t@ =~= table_title_text(name@, opt_text(app.filter)));
    t
}

/// A row of the places table.
#[derive(Debug, PartialEq, Eq)]
pub struct PlaceRow {
    /// Name, aliases, comment, owner, match patterns, tags.
    pub cells: Vec<String>,
    /// Whether the place has an owner entry, which the owner cell marks.
    pub acquired: bool,
}

/// The cells of a place's row.
pub open spec fn place_cells(p: PlaceInfo) -> Seq<Seq<char>> {
    seq![
        p.name@,
        join_spec(texts(p.aliases@), ", "@),
        p.comment@,
        owner_text(p.acquired),
        join_spec(p.matches@.map_values(|m: MatchInfo| pattern_text(m)), ", "@),
        join_spec(p.tags@.map_values(|t: (String, String)| tag_text(t)), ", "@),
    ]
}

/// The places that pass the filter, in name order.
pub open spec fn shown_places(v: AppView) -> Seq<(String, PlaceInfo)> {
    v.places.filter(|e: (String, PlaceInfo)| filter_accepts(v.filter, e.0@))
}

/// The rows of the places table.
pub fn place_rows(app: &App) -> (r: Vec<PlaceRow>)
    ensures
        r@.len() == shown_places(app@).len(),
        forall|i: int|
            0 <= i < r@.len() ==> texts((#[trigger] r@[i]).cells@) == place_cells(
                shown_places(app@)[i].1,
            ) && r@[i].acquired == (shown_places(app@)[i].1.acquired is Some),
{
    let ghost all = app.places@;
    let ghost pred = |e: (String, PlaceInfo)| filter_accepts(opt_text(app.filter), e.0@);
    let mut r: Vec<PlaceRow> = Vec::new();
    let mut i: usize = 0;
    while i < app.places.len()
        invariant
            i <= app.places.len(),
            all == app.places@,
            pred == (|e: (String, PlaceInfo)| filter_accepts(opt_text(app.filter), e.0@)),
            r@.len() == all.subrange(0, i as int).filter(pred).len(),
            forall|j: int|
                0 <= j < r@.len() ==> texts((#[trigger] r@[j]).cells@) == place_cells(
                    all.subrange(0, i as int).filter(pred)[j].1,
                ) && r@[j].acquired == (all.subrange(0, i as int).filter(pred)[j].1.acquired is Some),
        decreases app.places.len() - i,
    {
        let ghost before = r@;
        let (name, place) = &app.places[i];
        proof {
            assert(all.subrange(0, i + 1).drop_last() =~= all.subrange(0, i as int));
            assert(all.subrange(0, i + 1).last() == all[i as int]);
            reveal(Seq::filter);
        }
        let keep = app.matches_filter(name.as_str());
        assert(keep == pred(all[i as int]));
        if keep {
            let mut cells: Vec<String> = Vec::new();
            cells.push(place.name.clone());
            cells.push(place.aliases_display());
            cells.push(place.comment.clone());
            cells.push(owned(place.acquired_display()));
            cells.push(place.matches_display());
            cells.push(place.tags_display());
            assert(texts(cells@) =~= place_cells(*place));
            r.push(PlaceRow { cells, acquired: place.acquired.is_some() });
            proof {
                let f = all.subrange(0, i as int).filter(pred);
                let g = all.subrange(0, i + 1).filter(pred);
                assert(g == f.push(all[i as int]));
                assert forall|j: int| 0 <= j < r@.len() implies texts((#[trigger] r@[j]).cells@)
                    == place_cells(g[j].1) && r@[j].acquired == (g[j].1.acquired is Some) by {
                    if j < before.len() {
                        assert(r@[j] == before[j]);
                        assert(g[j] == f[j]);
                    }
                }
            }
        }
        i = i + 1;
    }
    assert(all.subrange(0, i as int) =~= all);
    r
}

/// A row of the resources table.
#[derive(Debug, PartialEq, Eq)]
pub struct ResourceRow {
    /// Exporter, group, name, class, availability, owner.
    pub cells: Vec<String>,
    /// Whether the resource is available, which the availability cell marks.
    pub available: bool,
    /// Whether the resource has an owner entry, which the owner cell marks.
    pub acquired: bool,
}

/// The cells of a resource's row.
pub open spec fn resource_cells(r: ResourceInfo) -> Seq<Seq<char>> {
    seq![
        r.path.exporter@,
        r.path.group@,
        r.path.name@,
        r.cls@,
        if r.available {
            "yes"@
        } else {
            "no"@
        },
        owner_text(r.acquired),
    ]
}

/// The resources whose path passes the filter, in path order.
pub open spec fn shown_resources(v: AppView) -> Seq<(ResourcePath, ResourceInfo)> {
    v.resources.filter(|e: (ResourcePath, ResourceInfo)| filter_accepts(v.filter, path_text(e.0)))
}

/// The rows of the resources table.
pub fn resource_rows(app: &App) -> (r: Vec<ResourceRow>)
    ensures
        r@.len() == shown_resources(app@).len(),
        forall|i: int|
            0 <= i < r@.len() ==> texts((#[trigger] r@[i]).cells@) == resource_cells(
                shown_resources(app@)[i].1,
            ) && r@[i].available == shown_resources(app@)[i].1.available && r@[i].acquired == (
            shown_resources(app@)[i].1.acquired is Some),
{
    let ghost all = app.resources@;
    let ghost pred = |e: (ResourcePath, ResourceInfo)|
        filter_accepts(opt_text(app.filter), path_text(e.0));
    let mut r: Vec<ResourceRow> = Vec::new();
    let mut i: usize = 0;
    while i < app.resources.len()
        invariant
            i <= app.resources.len(),
            all == app.resources@,
            pred == (|e: (ResourcePath, ResourceInfo)|
                filter_accepts(opt_text(app.filter), path_text(e.0))),
            r@.len() == all.subrange(0, i as int).filter(pred).len(),
            forall|j: int|
                0 <= j < r@.len() ==> texts((#[trigger] r@[j]).cells@) == resource_cells(
                    all.subrange(0, i as int).filter(pred)[j].1,
                ) && r@[j].available == all.subrange(0, i as int).filter(pred)[j].1.available
                    && r@[j].acquired == (all.subrange(0, i as int).filter(
                    pred,
                )[j].1.acquired is Some),
        decreases app.resources.len() - i,
    {
        let ghost before = r@;
        let (path, res) = &app.resources[i];
        proof {
            assert(all.subrange(0, i + 1).drop_last() =~= all.subrange(0, i as int));
            assert(all.subrange(0, i + 1).last() == all[i as int]);
            reveal(Seq::filter);
        }
        let text = path.text();
        let keep = app.matches_filter(text.as_str());
        assert(keep == pred(all[i as int]));
        if keep {
            let mut cells: Vec<String> = Vec::new();
            cells.push(res.path.exporter.clone());
            cells.push(res.path.group.clone());
            cells.push(res.path.name.clone());
            cells.push(res.cls.clone());
            cells.push(owned(res.avail_display()));
            cells.push(owned(res.acquired_display()));
            assert(texts(cells@) =~= resource_cells(*res));
            r.push(ResourceRow { cells, available: res.available, acquired: res.acquired.is_some() });
            proof {
                let f = all.subrange(0, i as int).filter(pred);
                let g = all.subrange(0, i + 1).filter(pred);
                assert(g == f.push(all[i as int]));
                assert forall|j: int| 0 <= j < r@.len() implies texts((#[trigger] r@[j]).cells@)
                    == resource_cells(g[j].1) && r@[j].available == g[j].1.available
                    && r@[j].acquired == (g[j].1.acquired is Some) by {
                    if j < before.len() {
                        assert(r@[j] == before[j]);
                        assert(g[j] == f[j]);
                    }
                }
            }
        }
        i = i + 1;
    }
    assert(all.subrange(0, i as int) =~= all);
    r
}

/// The cells of an exporter's row: name, resources, available,
/// unavailable, acquired, classes.
pub open spec fn exporter_cells(e: Exporter) -> Seq<Seq<char>> {
    seq![
        e.name@,
        decimal(e.total_resources as nat),
        decimal(e.available as nat),
        decimal(e.unavailable as nat),
        decimal(e.acquired as nat),
        join_spec(texts(e.resource_classes@), ", "@),
    ]
}

/// The rows of the exporters table: one per exporter summary.
pub fn exporter_rows(exporters: &Vec<Exporter>) -> (r: Vec<Vec<String>>)
    ensures
        r@.len() == exporters@.len(),
        forall|i: int| 0 <= i < r@.len() ==> texts(#[trigger] r@[i]@) == exporter_cells(exporters@[i]),
{
    let mut r: Vec<Vec<String>> = Vec::new();
    let mut i: usize = 0;
    while i < exporters.len()
        invariant
            i <= exporters.len(),
            r@.len() == i,
            forall|j: int| 0 <= j < i ==> texts(#[trigger] r@[j]@) == exporter_cells(exporters@[j]),
        decreases exporters.len() - i,
    {
        let e = &exporters[i];
        let mut cells: Vec<String> = Vec::new();
        cells.push(e.name.clone());
        cells.push(usize_text(e.total_resources));
        cells.push(usize_text(e.available));
        cells.push(usize_text(e.unavailable));
        cells.push(usize_text(e.acquired));
        cells.push(e.classes_display());
        assert(texts(cells@) =~= exporter_cells(*e));
        r.push(cells);
        i = i + 1;
    }
    r
}

} // verus!

//! The detail panel: a title and lines describing the selected item.

use vstd::prelude::*;
use vstd::view::View as _;
use crate::app::{App, AppView, View};
use crate::model::exporter::{
    count_acquired, count_available, has_class, sorted_texts, summarizes, Exporter,
};
use crate::model::place::{pattern_text, PlaceInfo};
use crate::model::resource::{is_acquired, owner_text, path_text, ResourceInfo, ResourcePath};
use crate::sorted_map::{get_entry, lookup, MapKey};
use crate::text::{concat2, decimal, join_spec, join_texts, owned, texts, usize_text};
use crate::ui::{selected_row, selected_row_spec};

verus! {

/// One line of the detail panel.
#[derive(Debug, PartialEq, Eq)]
pub enum DetailLine {
    /// A labelled value.
    Field(String, String),
    /// A section heading.
    Section(String),
    /// Ordinary text.
    Body(String),
    /// Faint text, for what is absent.
    Dim(String),
    /// An empty line.
    Blank,
}

/// The text of a detail line.
pub enum LineText {
    Field(Seq<char>, Seq<char>),
    Section(Seq<char>),
    Body(Seq<char>),
    Dim(Seq<char>),
    Blank,
}

pub open spec fn line_text(l: DetailLine) -> LineText {
    match l {
        DetailLine::Field(a, b) => LineText::Field(a@, b@),
        DetailLine::Section(a) => LineText::Section(a@),
        DetailLine::Body(a) => LineText::Body(a@),
        DetailLine::Dim(a) => LineText::Dim(a@),
        DetailLine::Blank => LineText::Blank,
    }
}

pub open spec fn lines_text(ls: Seq<DetailLine>) -> Seq<LineText> {
    ls.map_values(|l: DetailLine| line_text(l))
}

/// The lines of a list under a heading: each item indented, or a faint
/// "(none)" when the list is empty.
pub open spec fn listed(items: Seq<Seq<char>>) -> Seq<LineText> {
    if items.len() == 0 {
        seq![LineText::Dim("  (none)"@)]
    } else {
        items.map_values(|s: Seq<char>| LineText::Body("  "@ + s))
    }
}

/// The lines of a list: each item indented.
pub open spec fn indented(items: Seq<Seq<char>>) -> Seq<LineText> {
    items.map_values(|s: Seq<char>| LineText::Body("  "@ + s))
}

fn push_indented(lines: &mut Vec<DetailLine>, items: &Vec<String>)
    ensures
        lines_text(final(lines)@) == lines_text(old(lines)@) + indented(texts(items@)),
{
    let ghost start = lines_text(lines@);
    let mut i: usize = 0;
    while i < items.len()
        invariant
            i <= items.len(),
            lines_text(lines@) == start + indented(texts(items@).subrange(0, i as int)),
        decreases items.len() - i,
    {
        let ghost before = lines@;
        lines.push(DetailLine::Body(concat2("  ", items[i].as_str())));
        assert(lines_text(lines@) =~= lines_text(before).push(LineText::Body("  "@ + items@[i as int]@)));
        assert(indented(texts(items@).subrange(0, i + 1)) =~= indented(texts(items@).subrange(0, i as int)).push(LineText::Body("  "@ + items@[i as int]@)));
        i = i + 1;
    }
    assert(texts(items@).subrange(0, i as int) =~= texts(items@));
}

fn push_listed(lines: &mut Vec<DetailLine>, items: &Vec<String>)
    ensures
        lines_text(final(lines)@) == lines_text(old(lines)@) + listed(texts(items@)),
{
    if items.len() == 0 {
        let ghost before = lines@;
        lines.push(DetailLine::Dim(owned("  (none)")));
        assert(lines_text(lines@) =~= lines_text(before) + listed(texts(items@)));
    } else {
        push_indented(lines, items);
    }
}

fn push_field(lines: &mut Vec<DetailLine>, label: &str, value: &str)
    ensures
        lines_text(final(lines)@) == lines_text(old(lines)@).push(LineText::Field(label@, value@)),
{
    let ghost before = lines@;
    lines.push(DetailLine::Field(owned(label), owned(value)));
    assert(lines_text(lines@) =~= lines_text(before).push(LineText::Field(label@, value@)));
}

fn push_section(lines: &mut Vec<DetailLine>, title: &str)
    ensures
        lines_text(final(lines)@) == lines_text(old(lines)@).push(LineText::Section(title@)),
{
    let ghost before = lines@;
    lines.push(DetailLine::Section(owned(title)));
    assert(lines_text(lines@) =~= lines_text(before).push(LineText::Section(title@)));
}

fn push_blank(lines: &mut Vec<DetailLine>)
    ensures
        lines_text(final(lines)@) == lines_text(old(lines)@).push(LineText::Blank),
{
    let ghost before = lines@;
    lines.push(DetailLine::Blank);
    assert(lines_text(lines@) =~= lines_text(before).push(LineText::Blank));
}

// ── Places ───────────────────────────────────────────────────────────

/// A tag as listed: the key, or `key = value` when the value is not empty.
pub open spec fn tag_line(t: (String, String)) -> Seq<char> {
    if t.1@.len() == 0 {
        t.0@
    } else {
        t.0@ + " = "@ + t.1@
    }
}

/// The lines describing a place.
pub open spec fn place_lines(p: PlaceInfo) -> Seq<LineText> {
    seq![
        LineText::Field("Name"@, p.name@),
        LineText::Field("Comment"@, p.comment@),
        LineText::Field("Aliases"@, join_spec(texts(p.aliases@), ", "@)),
        LineText::Field("Acquired"@, owner_text(p.acquired)),
        LineText::Field(
            "Reservation"@,
            match p.reservation {
                Some(r) => r@,
                None => "none"@,
            },
        ),
        LineText::Blank,
        LineText::Section("Tags"@),
    ] + listed(p.tags@.map_values(|t: (String, String)| tag_line(t))) + seq![
        LineText::Blank,
        LineText::Section("Matches"@),
    ] + listed(p.matches@.map_values(|m: crate::model::place::MatchInfo| pattern_text(m)))
        + seq![LineText::Blank, LineText::Section("Acquired Resources"@)] + listed(
        texts(p.acquired_resources@),
    ) + seq![LineText::Blank, LineText::Section("Allowed"@)] + listed(texts(p.allowed@))
}

/// The panel for the selected place: its lines under its name; "No
/// selection" when no place passes the filter.
pub open spec fn place_detail_spec(v: AppView) -> (Seq<char>, Seq<LineText>) {
    let names = v.place_names();
    match selected_row_spec(v.selected_index, names.len() as usize) {
        None => ("No selection"@, Seq::empty()),
        Some(i) => match lookup(v.places, seq![names[i as int]]) {
            Some(p) => ("Place: "@ + p.name@, place_lines(p)),
            None => ("Not found"@, Seq::empty()),
        },
    }
}

fn place_lines_of(place: &PlaceInfo) -> (r: Vec<DetailLine>)
    ensures
        lines_text(r@) == place_lines(*place),
{
    let mut lines: Vec<DetailLine> = Vec::new();
    push_field(&mut lines, "Name", place.name.as_str());
    push_field(&mut lines, "Comment", place.comment.as_str());
    let aliases = place.aliases_display();
    push_field(&mut lines, "Aliases", aliases.as_str());
    push_field(&mut lines, "Acquired", place.acquired_display());
    match &place.reservation {
        Some(r) => push_field(&mut lines, "Reservation", r.as_str()),
        None => push_field(&mut lines, "Reservation", "none"),
    }
    push_blank(&mut lines);
    push_section(&mut lines, "Tags");
    let mut tags: Vec<String> = Vec::new();
    let mut i: usize = 0;
    while i < place.tags.len()
        invariant
            i <= place.tags.len(),
            texts(tags@) == place.tags@.subrange(0, i as int).map_values(
                |t: (String, String)| tag_line(t),
            ),
        decreases place.tags.len() - i,
    {
        let ghost before = tags@;
        let (k, v) = &place.tags[i];
        let line = if v.as_str().is_empty() {
            k.clone()
        } else {
            let mut l = k.clone();
            l.append(" = ");
            l.append(v.as_str());
            l
        };
        assert(line@ == tag_line(place.tags@[i as int]));
        tags.push(line);
        assert(texts(tags@) =~= texts(before).push(line@));
        assert(place.tags@.subrange(0, i + 1).map_values(|t: (String, String)| tag_line(t))
            =~= place.tags@.subrange(0, i as int).map_values(|t: (String, String)| tag_line(t)).push(
            line@,
        ));
        i = i + 1;
    }
    assert(place.tags@.subrange(0, i as int) =~= place.tags@);
    push_listed(&mut lines, &tags);
    push_blank(&mut lines);
    push_section(&mut lines, "Matches");
    let mut pats: Vec<String> = Vec::new();
    let mut j: usize = 0;
    while j < place.matches.len()
        invariant
            j <= place.matches.len(),
            texts(pats@) == place.matches@.subrange(0, j as int).map_values(
                |m: crate::model::place::MatchInfo| pattern_text(m),
            ),
        decreases place.matches.len() - j,
    {
        let ghost before = pats@;
        let line = place.matches[j].pattern_display();
        pats.push(line);
        assert(texts(pats@) =~= texts(before).push(line@));
        assert(place.matches@.subrange(0, j + 1).map_values(
            |m: crate::model::place::MatchInfo| pattern_text(m),
        ) =~= place.matches@.subrange(0, j as int).map_values(
            |m: crate::model::place::MatchInfo| pattern_text(m),
        ).push(line@));
        j = j + 1;
    }
    assert(place.matches@.subrange(0, j as int) =~= place.matches@);
    push_listed(&mut lines, &pats);
    push_blank(&mut lines);
    push_section(&mut lines, "Acquired Resources");
    push_listed(&mut lines, &place.acquired_resources);
    push_blank(&mut lines);
    push_section(&mut lines, "Allowed");
    push_listed(&mut lines, &place.allowed);
    proof {
        reveal_strlit("");
    }
    assert(lines_text(lines@) =~= place_lines(*place));
    lines
}

/// The detail panel for the selected place.
pub fn place_detail(app: &App) -> (r: (String, Vec<DetailLine>))
    requires
        app@.well_formed(),
    ensures
        (r.0@, lines_text(r.1@)) == place_detail_spec(app@),
{
    let names = app.filtered_place_names();
    let ghost ns = app@.place_names();
    assert(names@.len() == ns.len());
    match selected_row(app.selected_index, names.len()) {
        None => (owned("No selection"), Vec::new()),
        Some(i) => {
            assert(names@[i as int]@ == ns[i as int]);
            assert(names@[i as int].key_parts() == seq![ns[i as int]]);
            match get_entry(&app.places, &names[i]) {
                Some(place) => {
                    let lines = place_lines_of(place);
                    (concat2("Place: ", place.name.as_str()), lines)
                },
                None => (owned("Not found"), Vec::new()),
            }
        },
    }
}

// ── Resources ────────────────────────────────────────────────────────

/// A parameter as listed: `key = value`.
pub open spec fn param_line(t: (String, String)) -> Seq<char> {
    t.0@ + " = "@ + t.1@
}

/// The lines describing a resource.
pub open spec fn resource_lines(r: ResourceInfo) -> Seq<LineText> {
    seq![
        LineText::Field("Exporter"@, r.path.exporter@),
        LineText::Field("Group"@, r.path.group@),
        LineText::Field("Name"@, r.path.name@),
        LineText::Field("Class"@, r.cls@),
        LineText::Field(
            "Available"@,
            if r.available {
                "yes"@
            } else {
                "no"@
            },
        ),
        LineText::Field("Acquired"@, owner_text(r.acquired)),
        LineText::Blank,
        LineText::Section("Parameters"@),
    ] + listed(r.params@.map_values(|t: (String, String)| param_line(t))) + seq![
        LineText::Blank,
        LineText::Section("Extra"@),
    ] + listed(r.extra@.map_values(|t: (String, String)| param_line(t)))
}

/// The panel for the selected resource: its lines under its path; "No
/// selection" when no resource passes the filter.
pub open spec fn resource_detail_spec(v: AppView) -> (Seq<char>, Seq<LineText>) {
    let paths = v.resource_paths();
    match selected_row_spec(v.selected_index, paths.len() as usize) {
        None => ("No selection"@, Seq::empty()),
        Some(i) => match lookup(v.resources, paths[i as int].key_parts()) {
            Some(r) => ("Resource: "@ + path_text(paths[i as int]), resource_lines(r)),
            None => ("Not found"@, Seq::empty()),
        },
    }
}

fn param_lines(list: &Vec<(String, String)>) -> (r: Vec<String>)
    ensures
        texts(r@) == list@.map_values(|t: (String, String)| param_line(t)),
{
    let mut out: Vec<String> = Vec::new();
    let mut i: usize = 0;
    while i < list.len()
        invariant
            i <= list.len(),
            texts(out@) == list@.subrange(0, i as int).map_values(
                |t: (String, String)| param_line(t),
            ),
        decreases list.len() - i,
    {
        let ghost before = out@;
        let (k, v) = &list[i];
        let mut l = k.clone();
        l.append(" = ");
        l.append(v.as_str());
        out.push(l);
        assert(texts(out@) =~= texts(before).push(l@));
        assert(list@.subrange(0, i + 1).map_values(|t: (String, String)| param_line(t))
            =~= list@.subrange(0, i as int).map_values(|t: (String, String)| param_line(t)).push(
            l@,
        ));
        i = i + 1;
    }
    assert(list@.subrange(0, i as int) =~= list@);
    out
}

fn resource_lines_of(res: &ResourceInfo) -> (r: Vec<DetailLine>)
    ensures
        lines_text(r@) == resource_lines(*res),
{
    let mut lines: Vec<DetailLine> = Vec::new();
    push_field(&mut lines, "Exporter", res.path.exporter.as_str());
    push_field(&mut lines, "Group", res.path.group.as_str());
    push_field(&mut lines, "Name", res.path.name.as_str());
    push_field(&mut lines, "Class", res.cls.as_str());
    push_field(&mut lines, "Available", res.avail_display());
    push_field(&mut lines, "Acquired", res.acquired_display());
    push_blank(&mut lines);
    push_section(&mut lines, "Parameters");
    let params = param_lines(&res.params);
    push_listed(&mut lines, &params);
    push_blank(&mut lines);
    push_section(&mut lines, "Extra");
    let extra = param_lines(&res.extra);
    push_listed(&mut lines, &extra);
    assert(lines_text(lines@) =~= resource_lines(*res));
    lines
}

/// The detail panel for the selected resource.
pub fn resource_detail(app: &App) -> (r: (String, Vec<DetailLine>))
    requires
        app@.well_formed(),
    ensures
        (r.0@, lines_text(r.1@)) == resource_detail_spec(app@),
{
    let paths = app.filtered_resource_paths();
    match selected_row(app.selected_index, paths.len()) {
        None => (owned("No selection"), Vec::new()),
        Some(i) => {
            let path = &paths[i];
            match get_entry(&app.resources, path) {
                Some(res) => {
                    let lines = resource_lines_of(res);
                    (concat2("Resource: ", path.text().as_str()), lines)
                },
                None => (owned("Not found"), Vec::new()),
            }
        },
    }
}

// ── Exporters ────────────────────────────────────────────────────────

/// The availability mark of a resource.
pub open spec fn status_mark(available: bool) -> Seq<char> {
    if available {
        "✓"@
    } else {
        "✗"@
    }
}

/// A resource as listed under its exporter: mark, `group/name`, class, and
/// the owner in brackets when acquired.
pub open spec fn exporter_resource_line(r: ResourceInfo) -> Seq<char> {
    status_mark(r.available) + " "@ + r.path.group@ + "/"@ + r.path.name@ + " ("@ + r.cls@ + ")"@
        + if is_acquired(r.acquired) {
        " ["@ + owner_text(r.acquired) + "]"@
    } else {
        Seq::empty()
    }
}

/// The lines describing an exporter, given its classes and its resources.
pub open spec fn exporter_lines(
    name: Seq<char>,
    classes: Seq<Seq<char>>,
    group: Seq<ResourceInfo>,
) -> Seq<LineText> {
    let total = group.len();
    let available = count_available(group);
    seq![
        LineText::Field("Name"@, name),
        LineText::Field("Total Resources"@, decimal(total)),
        LineText::Field("Available"@, decimal(available)),
        LineText::Field("Unavailable"@, decimal((total - available) as nat)),
        LineText::Field("Acquired"@, decimal(count_acquired(group))),
        LineText::Blank,
        LineText::Section("Resource Classes"@),
    ] + indented(classes) + seq![LineText::Blank, LineText::Section("Resources"@)] + indented(
        group.map_values(|r: ResourceInfo| exporter_resource_line(r)),
    )
}

/// The classes of a list of resources, sorted, each once.
pub open spec fn class_list(group: Seq<ResourceInfo>) -> Seq<Seq<char>> {
    choose|s: Seq<Seq<char>>|
        sorted_texts(s) && forall|c: Seq<char>| s.contains(c) <==> has_class(group, c)
}

/// The panel for the selected exporter: its counts, classes and resources
/// under its name; "No selection" when no exporter passes the filter.
pub open spec fn exporter_detail_spec(v: AppView) -> (Seq<char>, Seq<LineText>) {
    let names = v.exporter_names();
    match selected_row_spec(v.selected_index, names.len() as usize) {
        None => ("No selection"@, Seq::empty()),
        Some(i) => {
            let name = names[i as int];
            let group = v.exporter_group(name);
            ("Exporter: "@ + name, exporter_lines(name, class_list(group), group))
        },
    }
}

fn exporter_resource_line_of(res: &ResourceInfo) -> (r: String)
    ensures
        r@ == exporter_resource_line(*res),
{
    let mut l = String::new();
    if res.available {
        l.append("✓");
    } else {
        l.append("✗");
    }
    l.append(" ");
    l.append(res.path.group.as_str());
    l.append("/");
    l.append(res.path.name.as_str());
    l.append(" (");
    l.append(res.cls.as_str());
    l.append(")");
    let owner = res.acquired_display();
    if !owner.is_empty() {
        l.append(" [");
        l.append(owner);
        l.append("]");
    }
    proof {
        reveal_strlit("");
    }
    assert(l@ =~= exporter_resource_line(*res));
    l
}

/// The detail panel for the selected exporter.
pub fn exporter_detail(app: &App) -> (r: (String, Vec<DetailLine>))
    ensures
        (r.0@, lines_text(r.1@)) == exporter_detail_spec(app@),
{
    let exporters = app.exporters();
    match selected_row(app.selected_index, exporters.len()) {
        None => (owned("No selection"), Vec::new()),
        Some(i) => {
            let exp = &exporters[i];
            let ghost name = app@.exporter_names()[i as int];
            let ghost group = app@.exporter_group(name);
            assert(summarizes(*exp, name, group));
            proof {
                crate::model::exporter::lemma_sorted_texts_unique(
                    texts(exp.resource_classes@),
                    class_list(group),
                );
            }
            let mut lines: Vec<DetailLine> = Vec::new();
            push_field(&mut lines, "Name", exp.name.as_str());
            push_field(&mut lines, "Total Resources", usize_text(exp.total_resources).as_str());
            push_field(&mut lines, "Available", usize_text(exp.available).as_str());
            push_field(&mut lines, "Unavailable", usize_text(exp.unavailable).as_str());
            push_field(&mut lines, "Acquired", usize_text(exp.acquired).as_str());
            push_blank(&mut lines);
            push_section(&mut lines, "Resource Classes");
            push_indented(&mut lines, &exp.resource_classes);
            push_blank(&mut lines);
            push_section(&mut lines, "Resources");
            let members = app.exporter_group(exp.name.as_str());
            let mut texts_of: Vec<String> = Vec::new();
            let mut k: usize = 0;
            while k < members.len()
                invariant
                    k <= members.len(),
                    texts(texts_of@) == crate::model::exporter::deref_all(members@).subrange(
                        0,
                        k as int,
                    ).map_values(|r: ResourceInfo| exporter_resource_line(r)),
                decreases members.len() - k,
            {
                let ghost before = texts_of@;
                let l = exporter_resource_line_of(members[k]);
                texts_of.push(l);
                assert(texts(texts_of@) =~= texts(before).push(l@));
                assert(crate::model::exporter::deref_all(members@).subrange(0, k + 1).map_values(
                    |r: ResourceInfo| exporter_resource_line(r),
                ) =~= crate::model::exporter::deref_all(members@).subrange(0, k as int).map_values(
                    |r: ResourceInfo| exporter_resource_line(r),
                ).push(l@));
                k = k + 1;
            }
            assert(crate::model::exporter::deref_all(members@).subrange(0, k as int)
                =~= crate::model::exporter::deref_all(members@));
            push_indented(&mut lines, &texts_of);
            assert(lines_text(lines@) =~= exporter_lines(name, class_list(group), group));
            (concat2("Exporter: ", exp.name.as_str()), lines)
        },
    }
}

} // verus!

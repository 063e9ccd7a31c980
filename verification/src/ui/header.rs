//! The header: one tab per view with its count, and the connection status.

use vstd::prelude::*;
use vstd::view::View as _;
use crate::app::{view_index, view_label, App, AppView, View};
use crate::text::{concat2, decimal, owned, texts, usize_text};

verus! {

/// How many items a view's tab counts: all places, all resources, or all
/// distinct exporters, whatever the filter.
pub open spec fn tab_count(v: AppView, view: View) -> nat {
    match view {
        View::Places => v.places.len(),
        View::Resources => v.resources.len(),
        View::Exporters => v.all_exporter_names().len(),
    }
}

/// A tab's title: ` n:Label (count) `, numbered from 1.
pub open spec fn tab_title(v: AppView, view: View) -> Seq<char> {
    " "@ + decimal(view_index(view) + 1) + ":"@ + view_label(view) + " ("@ + decimal(tab_count(v, view))
        + ") "@
}

/// The tabs' titles, in view order.
pub fn tab_titles(app: &App) -> (r: Vec<String>)
    ensures
        texts(r@) == seq![
            tab_title(app@, View::Places),
            tab_title(app@, View::Resources),
            tab_title(app@, View::Exporters),
        ],
{
    let views = View::all();
    let mut r: Vec<String> = Vec::new();
    let mut i: usize = 0;
    while i < 3
        invariant
            i <= 3,
            views@ == seq![View::Places, View::Resources, View::Exporters],
            texts(r@) == seq![
                tab_title(app@, View::Places),
                tab_title(app@, View::Resources),
                tab_title(app@, View::Exporters),
            ].subrange(0, i as int),
        decreases 3 - i,
    {
        let ghost before = r@;
        let v = views[i];
        let count = match v {
            View::Places => app.places.len(),
            View::Resources => app.resources.len(),
            View::Exporters => app.all_exporter_names().len(),
        };
        let mut t = owned(" ");
        t.append(usize_text(i + 1).as_str());
        t.append(":");
        t.append(v.label());
        t.append(" (");
        t.append(usize_text(count).as_str());
        t.append(") ");
        assert(t@ == tab_title(app@, v));
        r.push(t);
        assert(texts(r@) =~= texts(before).push(t@));
        i = i + 1;
    }
    assert(seq![
        tab_title(app@, View::Places),
        tab_title(app@, View::Resources),
        tab_title(app@, View::Exporters),
    ].subrange(0, 3) =~= seq![
        tab_title(app@, View::Places),
        tab_title(app@, View::Resources),
        tab_title(app@, View::Exporters),
    ]);
    r
}

/// The connection status shown in the header: a filled dot when connected,
/// a hollow one otherwise, then the coordinator URL.
pub open spec fn connection_status_text(v: AppView) -> Seq<char> {
    if v.connected {
        " ● "@ + v.coordinator_url
    } else {
        " ○ "@ + v.coordinator_url
    }
}

pub fn connection_status(app: &App) -> (r: String)
    ensures
        r@ == connection_status_text(app@),
{
    if app.connected {
        concat2(" ● ", app.coordinator_url.as_str())
    } else {
        concat2(" ○ ", app.coordinator_url.as_str())
    }
}

} // verus!

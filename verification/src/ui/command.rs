//! The bottom bar: the status line, or the filter or command being typed.

use vstd::prelude::*;
use vstd::view::View as _;
use crate::app::{view_label, App, AppView};
use crate::text::{concat2, owned};

verus! {

/// The status line: the view, the status message, the filter when one is
/// set, and where help is.
pub open spec fn status_text(v: AppView) -> Seq<char> {
    let filter_info = match v.filter {
        Some(f) => " | filter: "@ + f,
        None => Seq::empty(),
    };
    " "@ + view_label(v.view) + " | "@ + v.status_message + filter_info + " | ? for help"@
}

pub fn status_line(app: &App) -> (r: String)
    ensures
        r@ == status_text(app@),
{
    let mut t = owned(" ");
    t.append(app.view.label());
    t.append(" | ");
    t.append(app.status_message.as_str());
    if let Some(f) = &app.filter {
        t.append(" | filter: ");
        t.append(f.as_str());
    }
    t.append(" | ? for help");
    proof {
        reveal_strlit("");
    }
    assert(t@ =~= status_text(app@));
    t
}

/// The filter bar: a slash, then what is typed.
pub fn filter_line(app: &App) -> (r: String)
    ensures
        r@ == "/"@ + app@.input_buffer,
{
    concat2("/", app.input_buffer.as_str())
}

/// The command bar: a colon, then what is typed.
pub fn command_line(app: &App) -> (r: String)
    ensures
        r@ == ":"@ + app@.input_buffer,
{
    concat2(":", app.input_buffer.as_str())
}

} // verus!

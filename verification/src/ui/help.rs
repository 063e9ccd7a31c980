//! The help overlay: the keybindings and commands, and where it stands.

use vstd::prelude::*;
use crate::text::owned;

verus! {

/// One line of the help overlay.
#[derive(Debug, PartialEq, Eq)]
pub enum HelpLine {
    Title(String),
    Blank,
    Section(String),
    /// A key or command, and what it does.
    Binding(String, String),
}

/// The text of a help line.
pub enum HelpText {
    Title(Seq<char>),
    Blank,
    Section(Seq<char>),
    Binding(Seq<char>, Seq<char>),
}

pub open spec fn help_line_text(l: HelpLine) -> HelpText {
    match l {
        HelpLine::Title(t) => HelpText::Title(t@),
        HelpLine::Blank => HelpText::Blank,
        HelpLine::Section(t) => HelpText::Section(t@),
        HelpLine::Binding(k, d) => HelpText::Binding(k@, d@),
    }
}

pub open spec fn help_lines_text(ls: Seq<HelpLine>) -> Seq<HelpText> {
    ls.map_values(|l: HelpLine| help_line_text(l))
}

/// The help overlay's lines.
pub open spec fn help_text() -> Seq<HelpText> {
    seq![
        HelpText::Title("labgrid-tui Keybindings"@),
        HelpText::Blank,
        HelpText::Section("Navigation"@),
        HelpText::Binding("j / ↓"@, "Move down"@),
        HelpText::Binding("k / ↑"@, "Move up"@),
        HelpText::Binding("g / Home"@, "Go to first item"@),
        HelpText::Binding("G / End"@, "Go to last item"@),
        HelpText::Blank,
        HelpText::Section("Views"@),
        HelpText::Binding("1"@, "Places view"@),
        HelpText::Binding("2"@, "Resources view"@),
        HelpText::Binding("3"@, "Exporters view"@),
        HelpText::Blank,
        HelpText::Section("Actions"@),
        HelpText::Binding("Enter"@, "Toggle detail panel"@),
        HelpText::Binding("/"@, "Filter mode"@),
        HelpText::Binding(":"@, "Command mode"@),
        HelpText::Binding("Esc"@, "Close filter / detail / back"@),
        HelpText::Binding("?"@, "Toggle this help"@),
        HelpText::Binding("q / Ctrl-C"@, "Quit"@),
        HelpText::Blank,
        HelpText::Section("Detail Panel"@),
        HelpText::Binding("d"@, "Scroll detail down"@),
        HelpText::Binding("u"@, "Scroll detail up"@),
        HelpText::Blank,
        HelpText::Section("Commands"@),
        HelpText::Binding(":places / :p"@, "Switch to places view"@),
        HelpText::Binding(":resources / :r"@, "Switch to resources view"@),
        HelpText::Binding(":exporters / :e"@, "Switch to exporters view"@),
        HelpText::Binding(":quit / :q"@, "Quit"@),
    ]
}

fn push_line(lines: &mut Vec<HelpLine>, l: HelpLine)
    ensures
        help_lines_text(final(lines)@) == help_lines_text(old(lines)@).push(help_line_text(l)),
{
    let ghost before = lines@;
    lines.push(l);
    assert(help_lines_text(lines@) =~= help_lines_text(before).push(help_line_text(l)));
}

fn push_title(lines: &mut Vec<HelpLine>, t: &str)
    ensures
        help_lines_text(final(lines)@) == help_lines_text(old(lines)@).push(HelpText::Title(t@)),
{
    push_line(lines, HelpLine::Title(owned(t)));
}

fn push_blank(lines: &mut Vec<HelpLine>)
    ensures
        help_lines_text(final(lines)@) == help_lines_text(old(lines)@).push(HelpText::Blank),
{
    push_line(lines, HelpLine::Blank);
}

fn push_section(lines: &mut Vec<HelpLine>, t: &str)
    ensures
        help_lines_text(final(lines)@) == help_lines_text(old(lines)@).push(HelpText::Section(t@)),
{
    push_line(lines, HelpLine::Section(owned(t)));
}

fn push_binding(lines: &mut Vec<HelpLine>, key: &str, desc: &str)
    ensures
        help_lines_text(final(lines)@) == help_lines_text(old(lines)@).push(
            HelpText::Binding(key@, desc@),
        ),
{
    push_line(lines, HelpLine::Binding(owned(key), owned(desc)));
}

/// The help text: a title, then the bindings by section.
pub fn help_lines() -> (r: Vec<HelpLine>)
    ensures
        help_lines_text(r@) == help_text(),
{
    let mut lines: Vec<HelpLine> = Vec::new();
    push_title(&mut lines, "labgrid-tui Keybindings");
    push_blank(&mut lines);
    push_section(&mut lines, "Navigation");
    push_binding(&mut lines, "j / ↓", "Move down");
    push_binding(&mut lines, "k / ↑", "Move up");
    push_binding(&mut lines, "g / Home", "Go to first item");
    push_binding(&mut lines, "G / End", "Go to last item");
    push_blank(&mut lines);
    push_section(&mut lines, "Views");
    push_binding(&mut lines, "1", "Places view");
    push_binding(&mut lines, "2", "Resources view");
    push_binding(&mut lines, "3", "Exporters view");
    push_blank(&mut lines);
    push_section(&mut lines, "Actions");
    push_binding(&mut lines, "Enter", "Toggle detail panel");
    push_binding(&mut lines, "/", "Filter mode");
    push_binding(&mut lines, ":", "Command mode");
    push_binding(&mut lines, "Esc", "Close filter / detail / back");
    push_binding(&mut lines, "?", "Toggle this help");
    push_binding(&mut lines, "q / Ctrl-C", "Quit");
    push_blank(&mut lines);
    push_section(&mut lines, "Detail Panel");
    push_binding(&mut lines, "d", "Scroll detail down");
    push_binding(&mut lines, "u", "Scroll detail up");
    push_blank(&mut lines);
    push_section(&mut lines, "Commands");
    push_binding(&mut lines, ":places / :p", "Switch to places view");
    push_binding(&mut lines, ":resources / :r", "Switch to resources view");
    push_binding(&mut lines, ":exporters / :e", "Switch to exporters view");
    push_binding(&mut lines, ":quit / :q", "Quit");
    assert(help_lines_text(lines@) =~= help_text());
    lines
}

/// The margins and middle of a centered overlay, in percent of one side.
pub open spec fn centered_split_spec(percent: u16) -> (u16, u16, u16) {
    (((100 - percent) / 2) as u16, percent, ((100 - percent) / 2) as u16)
}

/// The percentages that center an overlay taking `percent` of a side.
pub fn centered_split(percent: u16) -> (r: (u16, u16, u16))
    requires
        percent <= 100,
    ensures
        r == centered_split_spec(percent),
{
    let margin = (100 - percent) / 2;
    (margin, percent, margin)
}

} // verus!

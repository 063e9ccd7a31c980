//! Places: what the coordinator reports of one, and how it is shown.

use vstd::prelude::*;
use crate::text::{clone_opt, clone_pairs, clone_texts, join_spec, join_texts, texts};

verus! {

/// A resource match pattern on a place.
#[derive(Debug, PartialEq, Eq)]
pub struct MatchInfo {
    pub exporter: String,
    pub group: String,
    pub cls: String,
    pub name: Option<String>,
    pub rename: Option<String>,
}

impl Clone for MatchInfo {
    fn clone(&self) -> (r: Self)
        ensures
            r == *self,
    {
        MatchInfo {
            exporter: self.exporter.clone(),
            group: self.group.clone(),
            cls: self.cls.clone(),
            name: clone_opt(&self.name),
            rename: clone_opt(&self.rename),
        }
    }
}

/// The text of a match pattern: `exporter/group/class`, then `/name` when a
/// name is given, then ` → rename` when a rename is given.
pub open spec fn pattern_text(m: MatchInfo) -> Seq<char> {
    let base = m.exporter@ + "/"@ + m.group@ + "/"@ + m.cls@;
    let with_name = match m.name {
        Some(n) => base + "/"@ + n@,
        None => base,
    };
    match m.rename {
        Some(r) => with_name + " → "@ + r@,
        None => with_name,
    }
}

impl MatchInfo {
    pub fn pattern_display(&self) -> (r: String)
        ensures
            r@ == pattern_text(*self),
    {
        let mut s = String::new();
        s.append(self.exporter.as_str());
        s.append("/");
        s.append(self.group.as_str());
        s.append("/");
        s.append(self.cls.as_str());
        if let Some(name) = &self.name {
            s.append("/");
            s.append(name.as_str());
        }
        if let Some(rename) = &self.rename {
            s.append(" → ");
            s.append(rename.as_str());
        }
        s
    }
}

/// Flattened representation of a labgrid place for display. `tags` holds its
/// entries sorted by key, each key once. `created` and `changed` hold the
/// bit patterns of the coordinator's timestamps, which are only carried.
#[derive(Debug, PartialEq, Eq)]
pub struct PlaceInfo {
    pub name: String,
    pub aliases: Vec<String>,
    pub comment: String,
    pub tags: Vec<(String, String)>,
    pub matches: Vec<MatchInfo>,
    pub acquired: Option<String>,
    pub acquired_resources: Vec<String>,
    pub allowed: Vec<String>,
    pub created: u64,
    pub changed: u64,
    pub reservation: Option<String>,
}

/// A copy of a list of match patterns.
pub fn clone_matches(v: &Vec<MatchInfo>) -> (r: Vec<MatchInfo>)
    ensures
        r@ == v@,
{
    let mut r: Vec<MatchInfo> = Vec::new();
    let mut i: usize = 0;
    while i < v.len()
        invariant
            i <= v.len(),
            r@ == v@.subrange(0, i as int),
        decreases v.len() - i,
    {
        r.push(v[i].clone());
        i = i + 1;
    }
    assert(r@ =~= v@);
    r
}

impl Clone for PlaceInfo {
    fn clone(&self) -> (r: Self)
        ensures
            r.name == self.name,
            r.aliases@ == self.aliases@,
            r.comment == self.comment,
            r.tags@ == self.tags@,
            r.matches@ == self.matches@,
            r.acquired == self.acquired,
            r.acquired_resources@ == self.acquired_resources@,
            r.allowed@ == self.allowed@,
            r.created == self.created,
            r.changed == self.changed,
            r.reservation == self.reservation,
    {
        PlaceInfo {
            name: self.name.clone(),
            aliases: clone_texts(&self.aliases),
            comment: self.comment.clone(),
            tags: clone_pairs(&self.tags),
            matches: clone_matches(&self.matches),
            acquired: clone_opt(&self.acquired),
            acquired_resources: clone_texts(&self.acquired_resources),
            allowed: clone_texts(&self.allowed),
            created: self.created,
            changed: self.changed,
            reservation: clone_opt(&self.reservation),
        }
    }
}

/// The text of one tag: the key alone when the value is empty, otherwise
/// `key=value`.
pub open spec fn tag_text(tag: (String, String)) -> Seq<char> {
    if tag.1@.len() == 0 {
        tag.0@
    } else {
        tag.0@ + "="@ + tag.1@
    }
}

/// The separator between listed items.
pub open spec fn list_sep() -> Seq<char> {
    ", "@
}

impl PlaceInfo {
    /// The aliases, separated by commas.
    pub fn aliases_display(&self) -> (r: String)
        ensures
            r@ == join_spec(texts(self.aliases@), list_sep()),
    {
        join_texts(&self.aliases, ", ")
    }

    /// The owner, or empty when the place is not acquired.
    pub fn acquired_display(&self) -> (r: &str)
        ensures
            r@ == crate::model::resource::owner_text(self.acquired),
    {
        crate::model::resource::owner_display(&self.acquired)
    }

    /// The tags in key order, separated by commas.
    pub fn tags_display(&self) -> (r: String)
        ensures
            r@ == join_spec(self.tags@.map_values(|t: (String, String)| tag_text(t)), list_sep()),
    {
        let mut pieces: Vec<String> = Vec::new();
        let mut i: usize = 0;
        while i < self.tags.len()
            invariant
                i <= self.tags.len(),
                texts(pieces@) == self.tags@.subrange(0, i as int).map_values(
                    |t: (String, String)| tag_text(t),
                ),
            decreases self.tags.len() - i,
        {
            let (k, v) = &self.tags[i];
            let piece = if v.as_str().is_empty() {
                k.clone()
            } else {
                let mut p = k.clone();
                p.append("=");
                p.append(v.as_str());
                p
            };
            let ghost before = pieces@;
            assert(piece@ == tag_text(self.tags@[i as int]));
            pieces.push(piece);
            assert(pieces@ == before.push(piece));
            assert(texts(pieces@) =~= texts(before).push(piece@));
            assert(texts(pieces@) =~= self.tags@.subrange(0, i + 1).map_values(
                |t: (String, String)| tag_text(t),
            ));
            i = i + 1;
        }
        assert(self.tags@.subrange(0, i as int) =~= self.tags@);
        join_texts(&pieces, ", ")
    }

    /// The match patterns, separated by commas.
    pub fn matches_display(&self) -> (r: String)
        ensures
            r@ == join_spec(self.matches@.map_values(|m: MatchInfo| pattern_text(m)), list_sep()),
    {
        let mut pieces: Vec<String> = Vec::new();
        let mut i: usize = 0;
        while i < self.matches.len()
            invariant
                i <= self.matches.len(),
                texts(pieces@) == self.matches@.subrange(0, i as int).map_values(
                    |m: MatchInfo| pattern_text(m),
                ),
            decreases self.matches.len() - i,
        {
            let ghost before = pieces@;
            let piece = self.matches[i].pattern_display();
            pieces.push(piece);
            assert(texts(pieces@) =~= texts(before).push(piece@));
            assert(texts(pieces@) =~= self.matches@.subrange(0, i + 1).map_values(
                |m: MatchInfo| pattern_text(m),
            ));
            i = i + 1;
        }
        assert(self.matches@.subrange(0, i as int) =~= self.matches@);
        join_texts(&pieces, ", ")
    }
}

} // verus!

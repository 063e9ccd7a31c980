//! Resources: the path that names one, and what the coordinator reports of it.

use vstd::prelude::*;
use crate::sorted_map::{lemma_parts_irreflexive, MapKey};
use crate::text::{
    char_order, clone_opt, clone_pairs, lemma_lex_irreflexive, lex_lt, parts_lt, str_lt, str_order, text_eq, text_less,
};

verus! {

/// Unique identifier for a resource: (exporter, group, resource name).
/// Paths are ordered by exporter, then group, then name.
#[derive(Debug, PartialEq, Eq, PartialOrd, Ord, Hash)]
pub struct ResourcePath {
    pub exporter: String,
    pub group: String,
    pub name: String,
}

impl Clone for ResourcePath {
    fn clone(&self) -> (r: Self)
        ensures
            r == *self,
    {
        ResourcePath {
            exporter: self.exporter.clone(),
            group: self.group.clone(),
            name: self.name.clone(),
        }
    }
}

/// The text of a path: its three parts joined by slashes.
pub open spec fn path_text(p: ResourcePath) -> Seq<char> {
    p.exporter@ + "/"@ + p.group@ + "/"@ + p.name@
}

/// A three-part tuple is ordered by its first differing part.
pub proof fn lemma_three_part_order(a: Seq<char>, b: Seq<char>, c: Seq<char>, x: Seq<char>, y: Seq<char>, z: Seq<char>)
    ensures
        parts_lt(seq![a, b, c], seq![x, y, z]) == if a != x {
            str_lt(a, x)
        } else if b != y {
            str_lt(b, y)
        } else {
            str_lt(c, z)
        },
{
    let s = seq![a, b, c];
    let t = seq![x, y, z];
    assert(s.drop_first() =~= seq![b, c]);
    assert(t.drop_first() =~= seq![y, z]);
    assert(s.drop_first().drop_first() =~= seq![c]);
    assert(t.drop_first().drop_first() =~= seq![z]);
    assert(s.drop_first().drop_first().drop_first() =~= Seq::<Seq<char>>::empty());
    assert(t.drop_first().drop_first().drop_first() =~= Seq::<Seq<char>>::empty());
    reveal_with_fuel(lex_lt, 4);
    assert(str_order()(a, x) == str_lt(a, x));
    assert(str_order()(b, y) == str_lt(b, y));
    assert(str_order()(c, z) == str_lt(c, z));
    if a == x && b == y && c == z {
        lemma_lex_irreflexive(c, char_order());
    }
}

impl MapKey for ResourcePath {
    open spec fn key_parts(&self) -> Seq<Seq<char>> {
        seq![self.exporter@, self.group@, self.name@]
    }

    fn key_before(&self, other: &Self) -> (r: bool) {
        proof {
            lemma_three_part_order(
                self.exporter@,
                self.group@,
                self.name@,
                other.exporter@,
                other.group@,
                other.name@,
            );
        }
        if !text_eq(self.exporter.as_str(), other.exporter.as_str()) {
            text_less(self.exporter.as_str(), other.exporter.as_str())
        } else if !text_eq(self.group.as_str(), other.group.as_str()) {
            text_less(self.group.as_str(), other.group.as_str())
        } else {
            text_less(self.name.as_str(), other.name.as_str())
        }
    }

    fn key_same(&self, other: &Self) -> (r: bool) {
        let r = text_eq(self.exporter.as_str(), other.exporter.as_str()) && text_eq(
            self.group.as_str(),
            other.group.as_str(),
        ) && text_eq(self.name.as_str(), other.name.as_str());
        assert(r == (self.key_parts() == other.key_parts())) by {
            if self.key_parts() == other.key_parts() {
                assert(self.key_parts()[0] == other.key_parts()[0]);
                assert(self.key_parts()[1] == other.key_parts()[1]);
                assert(self.key_parts()[2] == other.key_parts()[2]);
            }
            if r {
                assert(self.key_parts() =~= other.key_parts());
            }
        }
        r
    }
}

impl ResourcePath {
    /// The path as text, `exporter/group/name`.
    pub fn text(&self) -> (r: String)
        ensures
            r@ == path_text(*self),
    {
        let mut r = String::new();
        r.append(self.exporter.as_str());
        r.append("/");
        r.append(self.group.as_str());
        r.append("/");
        r.append(self.name.as_str());
        r
    }
}

/// Flattened representation of a labgrid resource for display. `params` and
/// `extra` hold their entries sorted by key, each key once.
#[derive(Debug, PartialEq, Eq)]
pub struct ResourceInfo {
    pub path: ResourcePath,
    pub cls: String,
    pub params: Vec<(String, String)>,
    pub extra: Vec<(String, String)>,
    pub acquired: Option<String>,
    pub available: bool,
}

impl Clone for ResourceInfo {
    fn clone(&self) -> (r: Self)
        ensures
            r.path == self.path,
            r.cls == self.cls,
            r.params@ == self.params@,
            r.extra@ == self.extra@,
            r.acquired == self.acquired,
            r.available == self.available,
    {
        ResourceInfo {
            path: self.path.clone(),
            cls: self.cls.clone(),
            params: clone_pairs(&self.params),
            extra: clone_pairs(&self.extra),
            acquired: clone_opt(&self.acquired),
            available: self.available,
        }
    }
}

/// The owner shown for an acquired item: the owner's name, or nothing when
/// there is no owner or the owner is empty.
pub open spec fn owner_text(acquired: Option<String>) -> Seq<char> {
    match acquired {
        Some(owner) => owner@,
        None => Seq::empty(),
    }
}

/// An item counts as acquired when it has a non-empty owner.
pub open spec fn is_acquired(acquired: Option<String>) -> bool {
    owner_text(acquired).len() > 0
}

/// The owner's name, or the empty text.
pub fn owner_display(acquired: &Option<String>) -> (r: &str)
    ensures
        r@ == owner_text(*acquired),
{
    proof {
        reveal_strlit("");
    }
    match acquired {
        Some(owner) => {
            if owner.as_str().is_empty() {
                ""
            } else {
                owner.as_str()
            }
        },
        None => "",
    }
}

impl ResourceInfo {
    /// Human-readable acquired status: the owner, or empty.
    pub fn acquired_display(&self) -> (r: &str)
        ensures
            r@ == owner_text(self.acquired),
    {
        owner_display(&self.acquired)
    }

    /// Human-readable availability: "yes" or "no".
    pub fn avail_display(&self) -> (r: &str)
        ensures
            r@ == (if self.available {
                "yes"@
            } else {
                "no"@
            }),
    {
        if self.available {
            "yes"
        } else {
            "no"
        }
    }
}

} // verus!

//! Exporters: summaries derived from the resources that share an exporter name.

use vstd::prelude::*;
use crate::model::resource::{is_acquired, ResourceInfo};
use crate::sorted_map::{
    entry_key, has_key, insert_entry, lemma_keys_after_insert, lemma_single_part_order,
    sorted_entries, MapKey,
};
use crate::text::{join_spec, join_texts, str_lt, texts};

verus! {

/// Aggregated exporter view, derived from resources grouped by exporter name.
#[derive(Debug, PartialEq, Eq)]
pub struct Exporter {
    pub name: String,
    pub total_resources: usize,
    pub available: usize,
    pub unavailable: usize,
    pub acquired: usize,
    pub resource_classes: Vec<String>,
}

/// The resources behind a list of references.
pub open spec fn deref_all(rs: Seq<&ResourceInfo>) -> Seq<ResourceInfo> {
    rs.map_values(|r: &ResourceInfo| *r)
}

/// The number of available resources.
pub open spec fn count_available(rs: Seq<ResourceInfo>) -> nat
    decreases rs.len(),
{
    if rs.len() == 0 {
        0
    } else {
        count_available(rs.drop_last()) + if rs.last().available {
            1nat
        } else {
            0nat
        }
    }
}

/// The number of resources acquired by a non-empty owner.
pub open spec fn count_acquired(rs: Seq<ResourceInfo>) -> nat
    decreases rs.len(),
{
    if rs.len() == 0 {
        0
    } else {
        count_acquired(rs.drop_last()) + if is_acquired(rs.last().acquired) {
            1nat
        } else {
            0nat
        }
    }
}

pub proof fn lemma_counts_bounded(rs: Seq<ResourceInfo>)
    ensures
        count_available(rs) <= rs.len(),
        count_acquired(rs) <= rs.len(),
    decreases rs.len(),
{
    if rs.len() > 0 {
        lemma_counts_bounded(rs.drop_last());
    }
}

/// Texts strictly increasing in the order of strings: sorted, each once.
pub open spec fn sorted_texts(s: Seq<Seq<char>>) -> bool {
    forall|i: int, j: int| 0 <= i < j < s.len() ==> str_lt(#[trigger] s[i], #[trigger] s[j])
}

/// Some resource has class `c`.
pub open spec fn has_class(rs: Seq<ResourceInfo>, c: Seq<char>) -> bool {
    exists|i: int| 0 <= i < rs.len() && #[trigger] rs[i].cls@ == c
}

/// `e` is the summary, under `name`, of the resources `rs`.
pub open spec fn summarizes(e: Exporter, name: Seq<char>, rs: Seq<ResourceInfo>) -> bool {
    &&& e.name@ == name
    &&& e.total_resources == rs.len()
    &&& e.available == count_available(rs)
    &&& e.acquired == count_acquired(rs)
    &&& e.unavailable == e.total_resources - e.available
    &&& sorted_texts(texts(e.resource_classes@))
    &&& forall|c: Seq<char>| texts(e.resource_classes@).contains(c) <==> has_class(rs, c)
}

impl Exporter {
    /// Build an exporter summary from a set of resources sharing the same
    /// exporter name. The classes are listed sorted, each once.
    pub fn from_resources(name: &str, resources: &[&ResourceInfo]) -> (r: Exporter)
        ensures
            summarizes(r, name@, deref_all(resources@)),
    {
        let n = resources.len();
        let mut available: usize = 0;
        let mut acquired: usize = 0;
        let mut classes: Vec<(String, ())> = Vec::new();
        let mut i: usize = 0;
        while i < n
            invariant
                n == resources@.len(),
                i <= n,
                available == count_available(deref_all(resources@).subrange(0, i as int)),
                acquired == count_acquired(deref_all(resources@).subrange(0, i as int)),
                available <= i,
                acquired <= i,
                sorted_entries(classes@),
                forall|c: Seq<char>|
                    has_key(classes@, seq![c]) <==> has_class(deref_all(resources@).subrange(0, i as int), c),
            decreases n - i,
        {
            let r = resources[i];
            let ghost before = classes@;
            proof {
                let p = deref_all(resources@).subrange(0, i + 1);
                assert(p.drop_last() =~= deref_all(resources@).subrange(0, i as int));
                assert(p.last() == *r);
            }
            if r.available {
                available = available + 1;
            }
            if !r.acquired_display().is_empty() {
                acquired = acquired + 1;
            }
            insert_entry(&mut classes, r.cls.clone(), ());
            proof {
                assert forall|c: Seq<char>|
                    has_key(classes@, seq![c]) <==> has_class(deref_all(resources@).subrange(0, i + 1), c) by {
                    lemma_keys_after_insert(before, r.cls, (), seq![c]);
                    if seq![c] == seq![r.cls@] {
                        assert(seq![c][0] == c);
                    }
                    let p = deref_all(resources@).subrange(0, i + 1);
                    if has_class(p, c) {
                        let j = choose|j: int| 0 <= j < p.len() && #[trigger] p[j].cls@ == c;
                        if j < i {
                            assert(deref_all(resources@).subrange(0, i as int)[j] == p[j]);
                        } else {
                            assert(seq![c] =~= seq![r.cls@]);
                        }
                    }
                    if has_class(deref_all(resources@).subrange(0, i as int), c) {
                        let j = choose|j: int|
                            0 <= j < i && #[trigger] deref_all(resources@).subrange(0, i as int)[j].cls@ == c;
                        assert(p[j] == deref_all(resources@).subrange(0, i as int)[j]);
                    }
                    if c == r.cls@ {
                        assert(p[i as int] == *r);
                    }
                }
            }
            i = i + 1;
        }
        assert(deref_all(resources@).subrange(0, n as int) =~= deref_all(resources@));
        let mut names: Vec<String> = Vec::new();
        let mut j: usize = 0;
        while j < classes.len()
            invariant
                j <= classes.len(),
                texts(names@) == classes@.subrange(0, j as int).map_values(
                    |e: (String, ())| e.0@,
                ),
            decreases classes.len() - j,
        {
            let ghost before = names@;
            let c = classes[j].0.clone();
            names.push(c);
            assert(texts(names@) =~= texts(before).push(c@));
            assert(classes@.subrange(0, j + 1).map_values(|e: (String, ())| e.0@) =~= classes@.subrange(
                0,
                j as int,
            ).map_values(|e: (String, ())| e.0@).push(classes@[j as int].0@));
            j = j + 1;
        }
        assert(classes@.subrange(0, j as int) =~= classes@);
        proof {
            let t = texts(names@);
            assert forall|a: int, b: int| 0 <= a < b < t.len() implies str_lt(
                #[trigger] t[a],
                #[trigger] t[b],
            ) by {
                assert(entry_key(classes@[a]) == seq![t[a]]);
                assert(entry_key(classes@[b]) == seq![t[b]]);
                lemma_single_part_order(t[a], t[b]);
            }
            assert forall|c: Seq<char>| t.contains(c) <==> has_class(deref_all(resources@), c) by {
                if t.contains(c) {
                    let a = choose|a: int| 0 <= a < t.len() && t[a] == c;
                    assert(entry_key(classes@[a]) == seq![c]);
                }
                if has_key(classes@, seq![c]) {
                    let a = choose|a: int|
                        0 <= a < classes@.len() && #[trigger] entry_key(classes@[a]) == seq![c];
                    assert(entry_key(classes@[a])[0] == c);
                    assert(t[a] == c);
                }
            }
            lemma_counts_bounded(deref_all(resources@));
        }
        Exporter {
            name: crate::text::owned(name),
            total_resources: n,
            available,
            unavailable: n - available,
            acquired,
            resource_classes: names,
        }
    }

    /// The resource classes, separated by commas.
    pub fn classes_display(&self) -> (r: String)
        ensures
            r@ == join_spec(texts(self.resource_classes@), ", "@),
    {
        join_texts(&self.resource_classes, ", ")
    }
}

/// Two lists of texts, each sorted with every text once, that hold the same
/// texts are the same list.
pub proof fn lemma_sorted_texts_unique(s: Seq<Seq<char>>, t: Seq<Seq<char>>)
    requires
        sorted_texts(s),
        sorted_texts(t),
        forall|c: Seq<char>| s.contains(c) <==> t.contains(c),
    ensures
        s == t,
    decreases s.len(),
{
    crate::text::lemma_char_order_strict_total();
    if s.len() == 0 {
        if t.len() > 0 {
            assert(t.contains(t[0]));
        }
        assert(s =~= t);
    } else {
        assert(s.contains(s[0]));
        let j = choose|j: int| 0 <= j < t.len() && t[j] == s[0];
        assert(t.contains(t[0]));
        let k = choose|k: int| 0 <= k < s.len() && s[k] == t[0];
        if j > 0 {
            assert(str_lt(t[0], t[j]));
            if k == 0 {
                crate::text::lemma_lex_irreflexive(s[0], crate::text::char_order());
            } else {
                assert(str_lt(s[0], s[k]));
                crate::text::lemma_lex_transitive(t[0], s[0], t[0], crate::text::char_order());
                crate::text::lemma_lex_irreflexive(t[0], crate::text::char_order());
            }
        }
        assert(t[0] == s[0]);
        let s2 = s.drop_first();
        let t2 = t.drop_first();
        assert forall|c: Seq<char>| s2.contains(c) <==> t2.contains(c) by {
            if s2.contains(c) {
                let a = choose|a: int| 0 <= a < s2.len() && s2[a] == c;
                assert(s[a + 1] == c);
                assert(str_lt(s[0], c));
                assert(t.contains(c));
                let b = choose|b: int| 0 <= b < t.len() && t[b] == c;
                if b == 0 {
                    crate::text::lemma_lex_irreflexive(c, crate::text::char_order());
                }
                assert(t2[b - 1] == c);
            }
            if t2.contains(c) {
                let a = choose|a: int| 0 <= a < t2.len() && t2[a] == c;
                assert(t[a + 1] == c);
                assert(str_lt(t[0], c));
                assert(s.contains(c));
                let b = choose|b: int| 0 <= b < s.len() && s[b] == c;
                if b == 0 {
                    crate::text::lemma_lex_irreflexive(c, crate::text::char_order());
                }
                assert(s2[b - 1] == c);
            }
        }
        assert(sorted_texts(s2)) by {
            assert forall|a: int, b: int| 0 <= a < b < s2.len() implies str_lt(#[trigger] s2[a], #[trigger] s2[b]) by {
                assert(s2[a] == s[a + 1] && s2[b] == s[b + 1]);
            }
        }
        assert(sorted_texts(t2)) by {
            assert forall|a: int, b: int| 0 <= a < b < t2.len() implies str_lt(#[trigger] t2[a], #[trigger] t2[b]) by {
                assert(t2[a] == t[a + 1] && t2[b] == t[b + 1]);
            }
        }
        lemma_sorted_texts_unique(s2, t2);
        assert(s =~= seq![s[0]] + s2);
        assert(t =~= seq![t[0]] + t2);
    }
}

} // verus!

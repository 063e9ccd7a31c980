//! Ordered maps kept as vectors of entries sorted by key, strictly: the
//! shape in which the library stores places, resources and the string maps
//! they carry. Keys are compared as tuples of strings, in the order of
//! Rust's derived `Ord`.

use vstd::prelude::*;
use crate::text::{
    lemma_lex_irreflexive, lemma_lex_total, lemma_lex_transitive, lemma_str_order_strict_total,
    char_order, lex_lt, parts_lt, str_lt, str_order, text_eq, text_less,
};

verus! {

/// A key that can be seen as a tuple of strings and compared as one.
pub trait MapKey: Sized {
    /// The key as a tuple of texts.
    spec fn key_parts(&self) -> Seq<Seq<char>>;

    /// Whether `self` comes strictly before `other`.
    fn key_before(&self, other: &Self) -> (r: bool)
        ensures
            r == parts_lt(self.key_parts(), other.key_parts()),
    ;

    /// Whether `self` and `other` are the same key.
    fn key_same(&self, other: &Self) -> (r: bool)
        ensures
            r == (self.key_parts() == other.key_parts()),
    ;
}

impl MapKey for String {
    open spec fn key_parts(&self) -> Seq<Seq<char>> {
        seq![self@]
    }

    fn key_before(&self, other: &Self) -> (r: bool) {
        let r = text_less(self.as_str(), other.as_str());
        proof {
            lemma_single_part_order(self@, other@);
        }
        r
    }

    fn key_same(&self, other: &Self) -> (r: bool) {
        let r = text_eq(self.as_str(), other.as_str());
        assert(r == (self.key_parts() == other.key_parts())) by {
            if self.key_parts() == other.key_parts() {
                assert(self.key_parts()[0] == other.key_parts()[0]);
            }
        }
        r
    }
}

/// A one-part tuple is ordered as its only part.
pub proof fn lemma_single_part_order(a: Seq<char>, b: Seq<char>)
    ensures
        parts_lt(seq![a], seq![b]) == str_lt(a, b),
{
    assert(seq![a].drop_first() =~= Seq::<Seq<char>>::empty());
    assert(seq![b].drop_first() =~= Seq::<Seq<char>>::empty());
    reveal_with_fuel(lex_lt, 2);
    if a == b {
        lemma_lex_irreflexive(a, char_order());
    } else {
        assert(str_order()(a, b) == str_lt(a, b));
    }
}

pub proof fn lemma_parts_irreflexive(a: Seq<Seq<char>>)
    ensures
        !parts_lt(a, a),
{
    lemma_lex_irreflexive(a, str_order());
}

pub proof fn lemma_parts_transitive(a: Seq<Seq<char>>, b: Seq<Seq<char>>, c: Seq<Seq<char>>)
    requires
        parts_lt(a, b),
        parts_lt(b, c),
    ensures
        parts_lt(a, c),
{
    lemma_str_order_strict_total();
    lemma_lex_transitive(a, b, c, str_order());
}

pub proof fn lemma_parts_total(a: Seq<Seq<char>>, b: Seq<Seq<char>>)
    requires
        a != b,
    ensures
        parts_lt(a, b) || parts_lt(b, a),
{
    lemma_str_order_strict_total();
    lemma_lex_total(a, b, str_order());
}

/// The key of an entry.
pub open spec fn entry_key<K: MapKey, V>(e: (K, V)) -> Seq<Seq<char>> {
    e.0.key_parts()
}

/// Keys strictly increase along the entries.
pub open spec fn sorted_entries<K: MapKey, V>(s: Seq<(K, V)>) -> bool {
    forall|i: int, j: int|
        0 <= i < j < s.len() ==> parts_lt(#[trigger] entry_key(s[i]), #[trigger] entry_key(s[j]))
}

/// Some entry has key `k`.
pub open spec fn has_key<K: MapKey, V>(s: Seq<(K, V)>, k: Seq<Seq<char>>) -> bool {
    exists|i: int| 0 <= i < s.len() && #[trigger] entry_key(s[i]) == k
}

/// The value stored under key `k`, if any.
pub open spec fn lookup<K: MapKey, V>(s: Seq<(K, V)>, k: Seq<Seq<char>>) -> Option<V> {
    if has_key(s, k) {
        Some(s[choose|i: int| 0 <= i < s.len() && #[trigger] entry_key(s[i]) == k].1)
    } else {
        None
    }
}

/// The number of entries whose key comes before `k`: where `k` stands or
/// would stand in a sorted list.
pub open spec fn slot<K: MapKey, V>(s: Seq<(K, V)>, k: Seq<Seq<char>>) -> nat
    decreases s.len(),
{
    if s.len() == 0 {
        0
    } else {
        slot(s.drop_last(), k) + if parts_lt(entry_key(s.last()), k) {
            1nat
        } else {
            0nat
        }
    }
}

/// The entries after storing `value` under `key`: the entry of the same key
/// is replaced, or a new entry goes where the order puts it.
pub open spec fn entries_insert<K: MapKey, V>(s: Seq<(K, V)>, key: K, value: V) -> Seq<(K, V)> {
    let k = key.key_parts();
    if has_key(s, k) {
        s.update(slot(s, k) as int, (key, value))
    } else {
        s.insert(slot(s, k) as int, (key, value))
    }
}

/// The entries after removing key `k`, if present.
pub open spec fn entries_remove<K: MapKey, V>(s: Seq<(K, V)>, k: Seq<Seq<char>>) -> Seq<(K, V)> {
    if has_key(s, k) {
        s.remove(slot(s, k) as int)
    } else {
        s
    }
}

/// When the entries before `i` come before `k` and none after, the slot of
/// `k` in any prefix is the part of `i` that the prefix holds.
proof fn lemma_slot_is_split<K: MapKey, V>(s: Seq<(K, V)>, k: Seq<Seq<char>>, i: int, j: int)
    requires
        0 <= i <= s.len(),
        0 <= j <= s.len(),
        forall|m: int| 0 <= m < i ==> parts_lt(#[trigger] entry_key(s[m]), k),
        forall|m: int| i <= m < s.len() ==> !parts_lt(#[trigger] entry_key(s[m]), k),
    ensures
        slot(s.subrange(0, j), k) == if j <= i {
            j
        } else {
            i
        },
    decreases j,
{
    if j > 0 {
        lemma_slot_is_split(s, k, i, j - 1);
        assert(s.subrange(0, j).drop_last() =~= s.subrange(0, j - 1));
        assert(s.subrange(0, j).last() == s[j - 1]);
    }
}

/// In a sorted list, two entries with the same key are the same entry.
pub proof fn lemma_sorted_unique_keys<K: MapKey, V>(s: Seq<(K, V)>, i: int, j: int)
    requires
        sorted_entries(s),
        0 <= i < s.len(),
        0 <= j < s.len(),
        entry_key(s[i]) == entry_key(s[j]),
    ensures
        i == j,
{
    if i < j {
        lemma_parts_irreflexive(entry_key(s[i]));
    } else if j < i {
        lemma_parts_irreflexive(entry_key(s[i]));
    }
}

/// In a sorted list, the value under a present key is the one at its index.
pub proof fn lemma_lookup_at<K: MapKey, V>(s: Seq<(K, V)>, i: int)
    requires
        sorted_entries(s),
        0 <= i < s.len(),
    ensures
        lookup(s, entry_key(s[i])) == Some(s[i].1),
{
    let k = entry_key(s[i]);
    assert(has_key(s, k));
    let c = choose|m: int| 0 <= m < s.len() && #[trigger] entry_key(s[m]) == k;
    lemma_sorted_unique_keys(s, c, i);
}

/// In a sorted list, the slot of `k` splits the entries into those before
/// `k` and those not before it.
pub proof fn lemma_slot_partition<K: MapKey, V>(s: Seq<(K, V)>, k: Seq<Seq<char>>)
    requires
        sorted_entries(s),
    ensures
        slot(s, k) <= s.len(),
        forall|m: int| 0 <= m < slot(s, k) ==> parts_lt(#[trigger] entry_key(s[m]), k),
        forall|m: int| slot(s, k) <= m < s.len() ==> !parts_lt(#[trigger] entry_key(s[m]), k),
    decreases s.len(),
{
    if s.len() > 0 {
        let p = s.drop_last();
        assert(sorted_entries(p)) by {
            assert forall|a: int, b: int| 0 <= a < b < p.len() implies parts_lt(
                #[trigger] entry_key(p[a]),
                #[trigger] entry_key(p[b]),
            ) by {
                assert(p[a] == s[a] && p[b] == s[b]);
            }
        }
        lemma_slot_partition(p, k);
        let last = s.len() - 1;
        if parts_lt(entry_key(s[last]), k) {
            assert forall|m: int| 0 <= m < last implies parts_lt(#[trigger] entry_key(s[m]), k) by {
                assert(parts_lt(entry_key(s[m]), entry_key(s[last])));
                lemma_parts_transitive(entry_key(s[m]), entry_key(s[last]), k);
            }
            if slot(p, k) < p.len() {
                let m = slot(p, k) as int;
                assert(p[m] == s[m]);
                assert(parts_lt(entry_key(s[m]), k));
            }
        }
        assert forall|m: int| 0 <= m < slot(s, k) implies parts_lt(#[trigger] entry_key(s[m]), k) by {
            if m < last {
                assert(p[m] == s[m]);
            }
        }
        assert forall|m: int| slot(s, k) <= m < s.len() implies !parts_lt(#[trigger] entry_key(s[m]), k) by {
            if m < last {
                assert(p[m] == s[m]);
            }
        }
    }
}

/// In a sorted list, key `k` is present exactly when it stands at its slot;
/// when absent, the entry at its slot comes after it.
pub proof fn lemma_key_at_slot<K: MapKey, V>(s: Seq<(K, V)>, k: Seq<Seq<char>>)
    requires
        sorted_entries(s),
    ensures
        has_key(s, k) <==> (slot(s, k) < s.len() && entry_key(s[slot(s, k) as int]) == k),
        !has_key(s, k) && slot(s, k) < s.len() ==> parts_lt(k, entry_key(s[slot(s, k) as int])),
        !has_key(s, k) ==> forall|m: int|
            slot(s, k) <= m < s.len() ==> parts_lt(k, #[trigger] entry_key(s[m])),
{
    lemma_slot_partition(s, k);
    let i = slot(s, k) as int;
    if has_key(s, k) {
        let c = choose|m: int| 0 <= m < s.len() && #[trigger] entry_key(s[m]) == k;
        if c < i {
            lemma_parts_irreflexive(k);
        } else if c > i {
            assert(parts_lt(entry_key(s[i]), entry_key(s[c])));
            if entry_key(s[i]) != k {
                lemma_parts_total(entry_key(s[i]), k);
            }
        }
    } else {
        assert forall|m: int| i <= m < s.len() implies parts_lt(k, #[trigger] entry_key(s[m])) by {
            assert(entry_key(s[m]) != k);
            lemma_parts_total(entry_key(s[m]), k);
        }
    }
}

/// Storing a key keeps the entries sorted.
pub proof fn lemma_insert_sorted<K: MapKey, V>(s: Seq<(K, V)>, key: K, value: V)
    requires
        sorted_entries(s),
    ensures
        sorted_entries(entries_insert(s, key, value)),
{
    let k = key.key_parts();
    lemma_key_at_slot(s, k);
    lemma_slot_partition(s, k);
    let i = slot(s, k) as int;
    let t = entries_insert(s, key, value);
    if has_key(s, k) {
        assert forall|a: int, b: int| 0 <= a < b < t.len() implies parts_lt(
            #[trigger] entry_key(t[a]),
            #[trigger] entry_key(t[b]),
        ) by {
            assert(entry_key(t[a]) == entry_key(s[a]));
            assert(entry_key(t[b]) == entry_key(s[b]));
        }
    } else {
        assert forall|a: int, b: int| 0 <= a < b < t.len() implies parts_lt(
            #[trigger] entry_key(t[a]),
            #[trigger] entry_key(t[b]),
        ) by {
            if b < i {
                assert(t[a] == s[a] && t[b] == s[b]);
            } else if b == i {
                assert(t[a] == s[a]);
            } else if a == i {
                assert(t[b] == s[b - 1]);
            } else if a < i {
                assert(t[a] == s[a] && t[b] == s[b - 1]);
            } else {
                assert(t[a] == s[a - 1] && t[b] == s[b - 1]);
            }
        }
    }
}

/// Removing a key keeps the entries sorted.
pub proof fn lemma_remove_sorted<K: MapKey, V>(s: Seq<(K, V)>, k: Seq<Seq<char>>)
    requires
        sorted_entries(s),
    ensures
        sorted_entries(entries_remove(s, k)),
{
    lemma_key_at_slot(s, k);
    let i = slot(s, k) as int;
    let t = entries_remove(s, k);
    if has_key(s, k) {
        assert forall|a: int, b: int| 0 <= a < b < t.len() implies parts_lt(
            #[trigger] entry_key(t[a]),
            #[trigger] entry_key(t[b]),
        ) by {
            if b < i {
                assert(t[a] == s[a] && t[b] == s[b]);
            } else if a < i {
                assert(t[a] == s[a] && t[b] == s[b + 1]);
            } else {
                assert(t[a] == s[a + 1] && t[b] == s[b + 1]);
            }
        }
    }
}

/// A read after storing a key gives back the stored value; every other key
/// reads as before.
pub proof fn lemma_lookup_after_insert<K: MapKey, V>(
    s: Seq<(K, V)>,
    key: K,
    value: V,
    other: Seq<Seq<char>>,
)
    requires
        sorted_entries(s),
    ensures
        lookup(entries_insert(s, key, value), key.key_parts()) == Some(value),
        other != key.key_parts() ==> lookup(entries_insert(s, key, value), other) == lookup(s, other),
{
    let k = key.key_parts();
    lemma_key_at_slot(s, k);
    lemma_slot_partition(s, k);
    lemma_insert_sorted(s, key, value);
    let i = slot(s, k) as int;
    let t = entries_insert(s, key, value);
    assert(t[i] == (key, value));
    lemma_lookup_at(t, i);
    if other != k {
        let n = s.len() as int;
        // entry positions of `s` in `t`, all but the slot of `k`
        if has_key(s, other) {
            let c = choose|m: int| 0 <= m < s.len() && #[trigger] entry_key(s[m]) == other;
            lemma_lookup_at(s, c);
            let d = if has_key(s, k) || c < i {
                c
            } else {
                c + 1
            };
            assert(t[d] == s[c]);
            lemma_lookup_at(t, d);
        } else {
            assert forall|m: int| 0 <= m < t.len() implies #[trigger] entry_key(t[m]) != other by {
                if m != i {
                    if has_key(s, k) || m < i {
                        assert(t[m] == s[m]);
                    } else {
                        assert(t[m] == s[m - 1]);
                    }
                }
            }
        }
    }
}

/// After removing a key it reads as absent; every other key reads as before.
pub proof fn lemma_lookup_after_remove<K: MapKey, V>(
    s: Seq<(K, V)>,
    k: Seq<Seq<char>>,
    other: Seq<Seq<char>>,
)
    requires
        sorted_entries(s),
    ensures
        lookup(entries_remove(s, k), k) is None,
        other != k ==> lookup(entries_remove(s, k), other) == lookup(s, other),
{
    lemma_key_at_slot(s, k);
    lemma_remove_sorted(s, k);
    let i = slot(s, k) as int;
    let t = entries_remove(s, k);
    if has_key(s, k) {
        assert forall|m: int| 0 <= m < t.len() implies #[trigger] entry_key(t[m]) != k by {
            if m < i {
                assert(t[m] == s[m]);
                if entry_key(t[m]) == k {
                    lemma_sorted_unique_keys(s, m, i);
                }
            } else {
                assert(t[m] == s[m + 1]);
                if entry_key(t[m]) == k {
                    lemma_sorted_unique_keys(s, m + 1, i);
                }
            }
        }
        if other != k {
            if has_key(s, other) {
                let c = choose|m: int| 0 <= m < s.len() && #[trigger] entry_key(s[m]) == other;
                lemma_lookup_at(s, c);
                let d = if c < i {
                    c
                } else {
                    c - 1
                };
                assert(t[d] == s[c]);
                lemma_lookup_at(t, d);
            } else {
                assert forall|m: int| 0 <= m < t.len() implies #[trigger] entry_key(t[m]) != other by {
                    if m < i {
                        assert(t[m] == s[m]);
                    } else {
                        assert(t[m] == s[m + 1]);
                    }
                }
            }
        }
    }
}

/// After storing a key, the keys present are the old ones and the new one.
pub proof fn lemma_keys_after_insert<K: MapKey, V>(
    s: Seq<(K, V)>,
    key: K,
    value: V,
    other: Seq<Seq<char>>,
)
    requires
        sorted_entries(s),
    ensures
        has_key(entries_insert(s, key, value), other) <==> (other == key.key_parts() || has_key(
            s,
            other,
        )),
{
    lemma_lookup_after_insert(s, key, value, other);
}

/// Every entry after storing a key is the stored one or an old one.
pub proof fn lemma_insert_entries<K: MapKey, V>(s: Seq<(K, V)>, key: K, value: V, i: int)
    requires
        sorted_entries(s),
        0 <= i < entries_insert(s, key, value).len(),
    ensures
        entries_insert(s, key, value)[i] == (key, value) || s.contains(
            entries_insert(s, key, value)[i],
        ),
{
    let k = key.key_parts();
    lemma_key_at_slot(s, k);
    lemma_slot_partition(s, k);
    let m = slot(s, k) as int;
    let t = entries_insert(s, key, value);
    if i != m {
        if has_key(s, k) || i < m {
            assert(t[i] == s[i]);
        } else {
            assert(t[i] == s[i - 1]);
        }
    }
}

/// Every entry after removing a key is an old one.
pub proof fn lemma_remove_entries<K: MapKey, V>(s: Seq<(K, V)>, k: Seq<Seq<char>>, i: int)
    requires
        sorted_entries(s),
        0 <= i < entries_remove(s, k).len(),
    ensures
        s.contains(entries_remove(s, k)[i]),
{
    lemma_key_at_slot(s, k);
    lemma_slot_partition(s, k);
    let m = slot(s, k) as int;
    let t = entries_remove(s, k);
    if has_key(s, k) && i >= m {
        assert(t[i] == s[i + 1]);
    } else {
        assert(t[i] == s[i]);
    }
}

/// Where `key` stands, or would stand, among the sorted entries; and whether
/// it is present there.
pub fn find_slot<K: MapKey, V>(entries: &Vec<(K, V)>, key: &K) -> (r: (usize, bool))
    requires
        sorted_entries(entries@),
    ensures
        r.0 == slot(entries@, key.key_parts()),
        r.0 <= entries@.len(),
        r.1 == has_key(entries@, key.key_parts()),
        r.1 ==> r.0 < entries@.len() && entry_key(entries@[r.0 as int]) == key.key_parts(),
        forall|m: int| 0 <= m < r.0 ==> parts_lt(#[trigger] entry_key(entries@[m]), key.key_parts()),
        forall|m: int|
            r.0 <= m < entries@.len() ==> !parts_lt(#[trigger] entry_key(entries@[m]), key.key_parts()),
{
    let ghost k = key.key_parts();
    let n = entries.len();
    let mut i: usize = 0;
    while i < n
        invariant
            n == entries@.len(),
            k == key.key_parts(),
            i <= n,
            forall|m: int| 0 <= m < i ==> parts_lt(#[trigger] entry_key(entries@[m]), k),
        ensures
            i <= n,
            forall|m: int| 0 <= m < i ==> parts_lt(#[trigger] entry_key(entries@[m]), k),
            i < n ==> !parts_lt(entry_key(entries@[i as int]), k),
        decreases n - i,
    {
        if !entries[i].0.key_before(key) {
            break;
        }
        i = i + 1;
    }
    let found = i < n && entries[i].0.key_same(key);
    proof {
        let s = entries@;
        if i < n {
            assert forall|m: int| i <= m < s.len() implies !parts_lt(#[trigger] entry_key(s[m]), k) by {
                if m > i && parts_lt(entry_key(s[m]), k) {
                    assert(parts_lt(entry_key(s[i as int]), entry_key(s[m])));
                    lemma_parts_transitive(entry_key(s[i as int]), entry_key(s[m]), k);
                }
            }
        }
        lemma_slot_is_split(s, k, i as int, n as int);
        assert(s.subrange(0, n as int) =~= s);
        if !found {
            assert forall|m: int| 0 <= m < s.len() implies #[trigger] entry_key(s[m]) != k by {
                if entry_key(s[m]) == k {
                    if m < i {
                        lemma_parts_irreflexive(k);
                    } else if m > i {
                        assert(parts_lt(entry_key(s[i as int]), entry_key(s[m])));
                        assert(entry_key(s[i as int]) != k);
                        lemma_parts_total(entry_key(s[i as int]), k);
                    }
                }
            }
        }
    }
    (i, found)
}

/// Stores `value` under `key`, replacing the entry of the same key if there
/// is one (std `BTreeMap::insert`).
pub fn insert_entry<K: MapKey, V>(entries: &mut Vec<(K, V)>, key: K, value: V)
    requires
        sorted_entries(old(entries)@),
    ensures
        final(entries)@ == entries_insert(old(entries)@, key, value),
        sorted_entries(final(entries)@),
{
    let ghost s = entries@;
    let (i, found) = find_slot(entries, &key);
    proof {
        lemma_insert_sorted(s, key, value);
    }
    if found {
        entries.set(i, (key, value));
    } else {
        entries.insert(i, (key, value));
    }
}

/// Removes the entry of key `key`, if there is one (std `BTreeMap::remove`).
pub fn remove_entry<K: MapKey, V>(entries: &mut Vec<(K, V)>, key: &K)
    requires
        sorted_entries(old(entries)@),
    ensures
        final(entries)@ == entries_remove(old(entries)@, key.key_parts()),
        sorted_entries(final(entries)@),
{
    let ghost s = entries@;
    let (i, found) = find_slot(entries, key);
    proof {
        lemma_remove_sorted(s, key.key_parts());
    }
    if found {
        entries.remove(i);
    }
}

/// The value stored under `key` (std `BTreeMap::get`).
pub fn get_entry<'a, K: MapKey, V>(entries: &'a Vec<(K, V)>, key: &K) -> (r: Option<&'a V>)
    requires
        sorted_entries(entries@),
    ensures
        match r {
            Some(v) => lookup(entries@, key.key_parts()) == Some(*v),
            None => lookup(entries@, key.key_parts()) is None,
        },
{
    let (i, found) = find_slot(entries, key);
    if found {
        proof {
            lemma_lookup_at(entries@, i as int);
        }
        Some(&entries[i].1)
    } else {
        None
    }
}

// ── Maps from strings to strings, as texts ───────────────────────────

/// The texts of a list of string pairs.
pub open spec fn pair_texts(s: Seq<(String, String)>) -> Seq<(Seq<char>, Seq<char>)> {
    s.map_values(|e: (String, String)| (e.0@, e.1@))
}

/// Some pair has key `k`.
pub open spec fn has_text_key(s: Seq<(Seq<char>, Seq<char>)>, k: Seq<char>) -> bool {
    exists|i: int| 0 <= i < s.len() && #[trigger] s[i].0 == k
}

/// The number of pairs whose key comes before `k`.
pub open spec fn text_slot(s: Seq<(Seq<char>, Seq<char>)>, k: Seq<char>) -> nat
    decreases s.len(),
{
    if s.len() == 0 {
        0
    } else {
        text_slot(s.drop_last(), k) + if str_lt(s.last().0, k) {
            1nat
        } else {
            0nat
        }
    }
}

/// The pairs after storing `v` under `k`, as `entries_insert` does.
pub open spec fn text_pairs_insert(
    s: Seq<(Seq<char>, Seq<char>)>,
    k: Seq<char>,
    v: Seq<char>,
) -> Seq<(Seq<char>, Seq<char>)> {
    if has_text_key(s, k) {
        s.update(text_slot(s, k) as int, (k, v))
    } else {
        s.insert(text_slot(s, k) as int, (k, v))
    }
}

/// The sorted map a list of pairs collects into, a later pair replacing an
/// earlier one of the same key (std `collect` into a `BTreeMap`).
pub open spec fn collect_pairs(list: Seq<(Seq<char>, Seq<char>)>) -> Seq<(Seq<char>, Seq<char>)>
    decreases list.len(),
{
    if list.len() == 0 {
        Seq::empty()
    } else {
        text_pairs_insert(collect_pairs(list.drop_last()), list.last().0, list.last().1)
    }
}

proof fn lemma_pair_texts_slot(s: Seq<(String, String)>, k: Seq<char>)
    ensures
        text_slot(pair_texts(s), k) == slot(s, seq![k]),
    decreases s.len(),
{
    if s.len() > 0 {
        lemma_pair_texts_slot(s.drop_last(), k);
        assert(pair_texts(s).drop_last() =~= pair_texts(s.drop_last()));
        lemma_single_part_order(s.last().0@, k);
    }
}

/// Storing a pair and then taking texts is taking texts and then storing.
pub proof fn lemma_pair_texts_insert(s: Seq<(String, String)>, key: String, value: String)
    requires
        sorted_entries(s),
    ensures
        pair_texts(entries_insert(s, key, value)) == text_pairs_insert(
            pair_texts(s),
            key@,
            value@,
        ),
{
    let t = pair_texts(s);
    lemma_pair_texts_slot(s, key@);
    assert(has_key(s, key.key_parts()) == has_text_key(t, key@)) by {
        if has_key(s, key.key_parts()) {
            let i = choose|i: int| 0 <= i < s.len() && #[trigger] entry_key(s[i]) == key.key_parts();
            assert(entry_key(s[i])[0] == key@);
            assert(t[i].0 == key@);
        }
        if has_text_key(t, key@) {
            let i = choose|i: int| 0 <= i < t.len() && #[trigger] t[i].0 == key@;
            assert(entry_key(s[i]) =~= key.key_parts());
        }
    }
    lemma_key_at_slot(s, key.key_parts());
    lemma_slot_partition(s, key.key_parts());
    let i = slot(s, key.key_parts()) as int;
    if has_key(s, key.key_parts()) {
        assert(pair_texts(s.update(i, (key, value))) =~= t.update(i, (key@, value@)));
    } else {
        assert(pair_texts(s.insert(i, (key, value))) =~= t.insert(i, (key@, value@)));
    }
}

} // verus!

//! The diagnostic parameters of an ECU: a map from parameter id to the JSON
//! text of its value, kept in the order the entries were first inserted.

use vstd::prelude::*;
use crate::text::opt_text;

verus! {

/// One diagnostic parameter and its value, rendered as JSON text.
pub struct DiagnosticEntry {
    pub key: String,
    pub json: String,
}

/// The (key, JSON text) pairs of a list of entries.
pub open spec fn entries_view(d: Seq<DiagnosticEntry>) -> Seq<(Seq<char>, Seq<char>)> {
    d.map_values(|e: DiagnosticEntry| (e.key@, e.json@))
}

/// No two entries share a key.
pub open spec fn distinct_keys(d: Seq<(Seq<char>, Seq<char>)>) -> bool {
    forall|i: int, j: int| 0 <= i < d.len() && 0 <= j < d.len() && i != j ==> d[i].0 != d[j].0
}

/// The first index at which `d` holds `key`.
pub open spec fn first_match(d: Seq<(Seq<char>, Seq<char>)>, key: Seq<char>, i: int) -> bool {
    &&& 0 <= i < d.len()
    &&& d[i].0 == key
    &&& forall|k: int| 0 <= k < i ==> d[k].0 != key
}

/// The value that `d` holds for `key` (at its first occurrence).
pub open spec fn lookup_text(d: Seq<(Seq<char>, Seq<char>)>, key: Seq<char>) -> Option<Seq<char>> {
    if exists|i: int| first_match(d, key, i) {
        Some(d[choose|i: int| first_match(d, key, i)].1)
    } else {
        None
    }
}

/// `d` with `key` set to `json`: replaced in place when `d` holds the key,
/// appended otherwise.
pub open spec fn with_entry(d: Seq<(Seq<char>, Seq<char>)>, key: Seq<char>, json: Seq<char>) -> Seq<(Seq<char>, Seq<char>)> {
    if exists|i: int| first_match(d, key, i) {
        d.update(choose|i: int| first_match(d, key, i), (key, json))
    } else {
        d.push((key, json))
    }
}

/// In a list with distinct keys, the value held at index `i` is the one
/// looked up for its key.
pub proof fn lemma_lookup_own_key(d: Seq<(Seq<char>, Seq<char>)>, i: int)
    requires
        distinct_keys(d),
        0 <= i < d.len(),
    ensures
        lookup_text(d, d[i].0) == Some(d[i].1),
{
    assert(first_match(d, d[i].0, i));
    let j = choose|j: int| first_match(d, d[i].0, j);
    assert(j == i);
}

/// Setting a key makes it read back the value set, leaves every other key
/// reading what it read, and keeps keys distinct.
pub proof fn lemma_set_then_lookup(d: Seq<(Seq<char>, Seq<char>)>, key: Seq<char>, json: Seq<char>, other: Seq<char>)
    requires
        distinct_keys(d),
    ensures
        lookup_text(with_entry(d, key, json), key) == Some(json),
        other != key ==> lookup_text(with_entry(d, key, json), other) == lookup_text(d, other),
        distinct_keys(with_entry(d, key, json)),
        with_entry(d, key, json).len() == (if lookup_text(d, key) is Some { d.len() } else { d.len() + 1 }),
{
    let n = with_entry(d, key, json);
    if exists|i: int| first_match(d, key, i) {
        let p = choose|i: int| first_match(d, key, i);
        assert(n == d.update(p, (key, json)));
        assert(distinct_keys(n)) by {
            assert forall|a: int, b: int| 0 <= a < n.len() && 0 <= b < n.len() && a != b implies n[a].0 != n[b].0 by {
                if a != p && b != p {
                } else if a == p {
                    assert(d[b].0 != d[p].0);
                } else {
                    assert(d[a].0 != d[p].0);
                }
            }
        }
        lemma_lookup_own_key(n, p);
        if other != key {
            if exists|i: int| first_match(d, other, i) {
                let q = choose|i: int| first_match(d, other, i);
                assert(q != p);
                lemma_lookup_own_key(d, q);
                lemma_lookup_own_key(n, q);
            } else {
                if exists|i: int| first_match(n, other, i) {
                    let q = choose|i: int| first_match(n, other, i);
                    assert(q != p);
                    assert(first_match(d, other, q));
                }
            }
        }
    } else {
        assert(n == d.push((key, json)));
        assert forall|i: int| 0 <= i < d.len() implies d[i].0 != key by {
            if d[i].0 == key {
                lemma_first_exists(d, key, i);
            }
        }
        assert(distinct_keys(n)) by {
            assert forall|a: int, b: int| 0 <= a < n.len() && 0 <= b < n.len() && a != b implies n[a].0 != n[b].0 by {
                if a < d.len() && b < d.len() {
                    assert(n[a] == d[a] && n[b] == d[b]);
                } else if a < d.len() {
                    assert(n[a] == d[a]);
                } else {
                    assert(n[b] == d[b]);
                }
            }
        }
        lemma_lookup_own_key(n, d.len() as int);
        if other != key {
            if exists|i: int| first_match(d, other, i) {
                let q = choose|i: int| first_match(d, other, i);
                assert(n[q] == d[q]);
                lemma_lookup_own_key(d, q);
                lemma_lookup_own_key(n, q);
            } else {
                if exists|i: int| first_match(n, other, i) {
                    let q = choose|i: int| first_match(n, other, i);
                    assert(q < d.len());
                    assert(first_match(d, other, q));
                }
            }
        }
    }
}

/// If `d` holds `key` somewhere, it holds it at a first place.
proof fn lemma_first_exists(d: Seq<(Seq<char>, Seq<char>)>, key: Seq<char>, i: int)
    requires
        0 <= i < d.len(),
        d[i].0 == key,
    ensures
        exists|j: int| first_match(d, key, j),
    decreases i,
{
    if forall|k: int| 0 <= k < i ==> d[k].0 != key {
        assert(first_match(d, key, i));
    } else {
        let k = choose|k: int| 0 <= k < i && d[k].0 == key;
        lemma_first_exists(d, key, k);
    }
}

/// The diagnostic parameters of an ECU: each key at most once.
pub struct Diagnostics {
    entries: Vec<DiagnosticEntry>,
}

impl View for Diagnostics {
    type V = Seq<(Seq<char>, Seq<char>)>;

    closed spec fn view(&self) -> Seq<(Seq<char>, Seq<char>)> {
        entries_view(self.entries@)
    }
}

impl Diagnostics {
    /// No key occurs twice.
    #[verifier::type_invariant]
    pub open spec fn keys_distinct(&self) -> bool {
        distinct_keys(self@)
    }

    /// No parameters.
    pub fn new() -> (r: Diagnostics)
        ensures
            r@ == Seq::<(Seq<char>, Seq<char>)>::empty(),
    {
        let r = Diagnostics { entries: Vec::new() };
        assert(r@ =~= Seq::<(Seq<char>, Seq<char>)>::empty());
        r
    }

    /// The number of parameters.
    pub fn len(&self) -> (n: usize)
        ensures
            n == self@.len(),
    {
        self.entries.len()
    }

    /// The `i`-th parameter.
    pub fn entry(&self, i: usize) -> (e: &DiagnosticEntry)
        requires
            i < self@.len(),
        ensures
            (e.key@, e.json@) == self@[i as int],
    {
        &self.entries[i]
    }

    fn position(&self, key: &String) -> (r: Option<usize>)
        ensures
            r matches Some(i) ==> first_match(self@, key@, i as int),
            r is None ==> forall|i: int| 0 <= i < self@.len() ==> self@[i].0 != key@,
    {
        let mut i: usize = 0;
        while i < self.entries.len()
            invariant
                i <= self.entries@.len(),
                forall|k: int| 0 <= k < i ==> self@[k].0 != key@,
            decreases self.entries.len() - i,
        {
            assert(self@[i as int] == (self.entries@[i as int].key@, self.entries@[i as int].json@));
            if self.entries[i].key == *key {
                return Some(i);
            }
            i = i + 1;
        }
        None
    }

    /// The JSON text held for `key`.
    pub fn lookup(&self, key: &String) -> (r: Option<String>)
        ensures
            opt_text(r) == lookup_text(self@, key@),
    {
        match self.position(key) {
            Some(i) => {
                proof {
                    let j = choose|j: int| first_match(self@, key@, j);
                    if j < i {
                        assert(self@[j].0 != key@);
                    } else if j > i {
                        assert(self@[i as int].0 == key@);
                    }
                }
                assert(self@[i as int] == (self.entries@[i as int].key@, self.entries@[i as int].json@));
                Some(self.entries[i].json.clone())
            },
            None => {
                proof {
                    if exists|j: int| first_match(self@, key@, j) {
                        let j = choose|j: int| first_match(self@, key@, j);
                        assert(self@[j].0 != key@);
                    }
                }
                None
            },
        }
    }

    /// Sets `key` to `json`: in place when the key is held, appended otherwise.
    pub fn insert(&mut self, key: String, json: String)
        ensures
            final(self)@ == with_entry(old(self)@, key@, json@),
    {
        proof { use_type_invariant(&*self); }
        let ghost old_view = self@;
        let ghost kv = (key@, json@);
        match self.position(&key) {
            Some(j) => {
                proof {
                    let c = choose|c: int| first_match(old_view, key@, c);
                    if c < j {
                        assert(old_view[c].0 != key@);
                    } else if c > j {
                        assert(old_view[j as int].0 == key@);
                    }
                }
                let mut entries = Vec::new();
                std::mem::swap(&mut entries, &mut self.entries);
                entries.set(j, DiagnosticEntry { key, json });
                assert(entries_view(entries@) =~= old_view.update(j as int, kv));
                *self = Diagnostics { entries };
            },
            None => {
                let mut entries = Vec::new();
                std::mem::swap(&mut entries, &mut self.entries);
                entries.push(DiagnosticEntry { key, json });
                assert(entries_view(entries@) =~= old_view.push(kv));
                *self = Diagnostics { entries };
            },
        }
    }

    /// A copy.
    pub fn copy(&self) -> (r: Diagnostics)
        ensures
            r@ == self@,
    {
        proof { use_type_invariant(self); }
        let mut r: Vec<DiagnosticEntry> = Vec::new();
        let mut i: usize = 0;
        while i < self.entries.len()
            invariant
                i <= self.entries@.len(),
                entries_view(r@) == entries_view(self.entries@.take(i as int)),
            decreases self.entries.len() - i,
        {
            let ghost before = r@;
            let e = &self.entries[i];
            r.push(DiagnosticEntry { key: e.key.clone(), json: e.json.clone() });
            assert(self.entries@.take(i as int + 1) =~= self.entries@.take(i as int).push(self.entries@[i as int]));
            assert(entries_view(r@) =~= entries_view(before).push((e.key@, e.json@)));
            assert(entries_view(self.entries@.take(i as int + 1))
                =~= entries_view(self.entries@.take(i as int)).push((e.key@, e.json@)));
            i = i + 1;
        }
        assert(self.entries@.take(i as int) =~= self.entries@);
        Diagnostics { entries: r }
    }
}

} // verus!

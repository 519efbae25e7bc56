//! Maps from strings to strings, as Kubernetes uses them for labels,
//! annotations and pod selectors. The entries are kept in ascending order of
//! their keys, and no key occurs twice.

use crate::text::{join, joined, place, text_less, text_less_is_a_strict_order, Place};
use vstd::prelude::*;

verus! {

/// Whether the keys of `entries` are strictly ascending.
pub open spec fn ascending(entries: Seq<(Seq<char>, Seq<char>)>) -> bool {
    forall|i: int, j: int|
        0 <= i < j < entries.len() ==> text_less((#[trigger] entries[i]).0, (#[trigger] entries[j]).0)
}

/// The map that `entries` list; of two entries with one key the later counts.
pub open spec fn listed(entries: Seq<(Seq<char>, Seq<char>)>) -> Map<Seq<char>, Seq<char>>
    decreases entries.len(),
{
    if entries.len() == 0 {
        Map::empty()
    } else {
        listed(entries.drop_last()).insert(entries.last().0, entries.last().1)
    }
}

/// The entries of `map` in ascending order of their keys.
pub open spec fn in_order(map: Map<Seq<char>, Seq<char>>) -> Seq<(Seq<char>, Seq<char>)> {
    choose|entries: Seq<(Seq<char>, Seq<char>)>| ascending(entries) && #[trigger] listed(entries) == map
}

/// The label selector that asks for every entry of `map`: `key=value` for each
/// entry, in ascending order of the keys, separated by commas.
pub open spec fn label_selector_text(map: Map<Seq<char>, Seq<char>>) -> Seq<char> {
    joined(in_order(map).map_values(|e: (Seq<char>, Seq<char>)| e.0 + "="@ + e.1), ","@)
}

/// A map from strings to strings.
#[derive(Debug)]
pub struct StringMap {
    entries: Vec<(String, String)>,
}

impl DeepView for StringMap {
    type V = Map<Seq<char>, Seq<char>>;

    open spec fn deep_view(&self) -> Map<Seq<char>, Seq<char>> {
        listed(self.entries())
    }
}

/// What listing ascending entries gives: each entry is found under its key,
/// and there are no other keys.
pub proof fn lemma_listed(entries: Seq<(Seq<char>, Seq<char>)>)
    requires
        ascending(entries),
    ensures
        forall|i: int|
            0 <= i < entries.len() ==> listed(entries).contains_pair(
                (#[trigger] entries[i]).0,
                entries[i].1,
            ),
        forall|k: Seq<char>| #[trigger]
            listed(entries).contains_key(k) ==> exists|i: int|
                0 <= i < entries.len() && (#[trigger] entries[i]).0 == k,
    decreases entries.len(),
{
    if entries.len() > 0 {
        let front = entries.drop_last();
        let last = entries.last();
        lemma_listed(front);
        assert forall|i: int| 0 <= i < entries.len() implies listed(entries).contains_pair(
            (#[trigger] entries[i]).0,
            entries[i].1,
        ) by {
            if i < front.len() {
                assert(front[i] == entries[i]);
                assert(text_less(entries[i].0, entries[entries.len() - 1].0));
                text_less_is_a_strict_order(entries[i].0, last.0, last.0);
            }
        }
        assert forall|k: Seq<char>| #[trigger] listed(entries).contains_key(k) implies exists|i: int|
            0 <= i < entries.len() && (#[trigger] entries[i]).0 == k by {
            if k == last.0 {
                assert(entries[entries.len() - 1].0 == k);
            } else {
                assert(listed(front).contains_key(k));
                let i = choose|i: int| 0 <= i < front.len() && (#[trigger] front[i]).0 == k;
                assert(entries[i].0 == k);
            }
        }
    }
}

/// A map has one listing in ascending order: two ascending listings of the same
/// map are equal.
pub proof fn ascending_listing_is_unique(
    a: Seq<(Seq<char>, Seq<char>)>,
    b: Seq<(Seq<char>, Seq<char>)>,
)
    requires
        ascending(a),
        ascending(b),
        listed(a) == listed(b),
    ensures
        a == b,
    decreases a.len(),
{
    lemma_listed(a);
    lemma_listed(b);
    if a.len() > 0 {
        assert(listed(a).contains_key(a[a.len() - 1].0));
    }
    if b.len() > 0 {
        assert(listed(b).contains_key(b[b.len() - 1].0));
    }
    if a.len() > 0 {
        let (x, y) = (a.last(), b.last());
        let i = choose|i: int| 0 <= i < b.len() && (#[trigger] b[i]).0 == x.0;
        let j = choose|j: int| 0 <= j < a.len() && (#[trigger] a[j]).0 == y.0;
        assert(x.0 == y.0) by {
            if x.0 != y.0 {
                assert(text_less(b[i].0, b[b.len() - 1].0));
                assert(text_less(a[j].0, a[a.len() - 1].0));
                text_less_is_a_strict_order(x.0, y.0, x.0);
            }
        }
        assert(x.1 == y.1) by {
            assert(listed(a).contains_pair(a[a.len() - 1].0, a[a.len() - 1].1));
            assert(listed(b).contains_pair(b[b.len() - 1].0, b[b.len() - 1].1));
        }
        lemma_listed_without_last(a);
        lemma_listed_without_last(b);
        ascending_listing_is_unique(a.drop_last(), b.drop_last());
        assert(a == a.drop_last().push(x));
        assert(b == b.drop_last().push(y));
    }
}

proof fn lemma_listed_without_last(entries: Seq<(Seq<char>, Seq<char>)>)
    requires
        ascending(entries),
        entries.len() > 0,
    ensures
        listed(entries.drop_last()) == listed(entries).remove(entries.last().0),
        ascending(entries.drop_last()),
{
    let front = entries.drop_last();
    let key = entries.last().0;
    lemma_listed(front);
    assert(!listed(front).contains_key(key)) by {
        if listed(front).contains_key(key) {
            let i = choose|i: int| 0 <= i < front.len() && (#[trigger] front[i]).0 == key;
            assert(text_less(entries[i].0, entries[entries.len() - 1].0));
            text_less_is_a_strict_order(key, key, key);
        }
    }
    assert(listed(front) =~= listed(entries).remove(key));
}

/// The ascending listing of the map that ascending entries list is those entries.
pub proof fn lemma_in_order(entries: Seq<(Seq<char>, Seq<char>)>)
    requires
        ascending(entries),
    ensures
        in_order(listed(entries)) == entries,
{
    let map = listed(entries);
    let other = choose|e: Seq<(Seq<char>, Seq<char>)>| ascending(e) && #[trigger] listed(e) == map;
    ascending_listing_is_unique(other, entries);
}

proof fn lemma_listed_insert(
    before: Seq<(Seq<char>, Seq<char>)>,
    after: Seq<(Seq<char>, Seq<char>)>,
    at: int,
    key: Seq<char>,
    value: Seq<char>,
)
    requires
        ascending(before),
        ascending(after),
        0 <= at < after.len(),
        after[at] == (key, value),
        forall|i: int|
            0 <= i < before.len() && (#[trigger] before[i]).0 != key ==> after.contains(before[i]),
        forall|i: int| 0 <= i < after.len() && i != at ==> before.contains(#[trigger] after[i]),
    ensures
        listed(after) == listed(before).insert(key, value),
{
    lemma_listed(before);
    lemma_listed(after);
    let want = listed(before).insert(key, value);
    assert forall|k: Seq<char>| #[trigger] listed(after).contains_key(k) implies want.contains_key(k)
        && want[k] == listed(after)[k] by {
        let i = choose|i: int| 0 <= i < after.len() && (#[trigger] after[i]).0 == k;
        if i != at {
            assert(before.contains(after[i]));
            let j = choose|j: int| 0 <= j < before.len() && before[j] == after[i];
            assert(listed(before).contains_pair(before[j].0, before[j].1));
            if i < at {
                assert(text_less(after[i].0, after[at].0));
            } else {
                assert(text_less(after[at].0, after[i].0));
            }
            text_less_is_a_strict_order(k, key, key);
        }
    }
    assert forall|k: Seq<char>| #[trigger] want.contains_key(k) implies listed(after).contains_key(
        k,
    ) by {
        if k != key {
            let j = choose|j: int| 0 <= j < before.len() && (#[trigger] before[j]).0 == k;
            let i = choose|i: int| 0 <= i < after.len() && after[i] == before[j];
            assert(listed(after).contains_pair(after[i].0, after[i].1));
        } else {
            assert(listed(after).contains_pair(after[at].0, after[at].1));
        }
    }
    assert(listed(after) =~= want);
}

impl StringMap {
    /// The entries in ascending order of their keys.
    pub closed spec fn entries(&self) -> Seq<(Seq<char>, Seq<char>)> {
        self.entries.deep_view()
    }

    #[verifier::type_invariant]
    spec fn well_formed(self) -> bool {
        ascending(self.entries.deep_view())
    }

    /// The empty map.
    pub fn new() -> (r: StringMap)
        ensures
            r.deep_view() == Map::<Seq<char>, Seq<char>>::empty(),
    {
        let r = StringMap { entries: Vec::new() };
        assert(r.entries() =~= Seq::empty());
        r
    }

    /// The position of `key` among the entries: `Ok` with the index of its
    /// entry, or `Err` with the index at which its entry would have to stand.
    fn position(&self, key: &str) -> (r: Result<usize, usize>)
        ensures
            match r {
                Ok(i) => i < self.entries().len() && self.entries()[i as int].0 == key@,
                Err(i) => i <= self.entries().len() && (forall|j: int|
                    0 <= j < i ==> text_less((#[trigger] self.entries()[j]).0, key@)) && (forall|
                    j: int,
                |
                    i <= j < self.entries().len() ==> text_less(
                        key@,
                        (#[trigger] self.entries()[j]).0,
                    )),
            },
    {
        proof {
            use_type_invariant(self);
        }
        let mut i: usize = 0;
        while i < self.entries.len()
            invariant
                i <= self.entries@.len(),
                ascending(self.entries()),
                forall|j: int| 0 <= j < i ==> text_less((#[trigger] self.entries()[j]).0, key@),
            decreases self.entries@.len() - i,
        {
            assert(self.entries()[i as int].0 == self.entries@[i as int].0@);
            match place(self.entries[i].0.as_str(), key) {
                Place::Before => {
                    i = i + 1;
                },
                Place::Same => {
                    return Ok(i);
                },
                Place::After => {
                    proof {
                        assert forall|j: int| i <= j < self.entries().len() implies text_less(
                            key@,
                            (#[trigger] self.entries()[j]).0,
                        ) by {
                            if i < j {
                                assert(text_less(
                                    self.entries()[i as int].0,
                                    self.entries()[j].0,
                                ));
                                text_less_is_a_strict_order(
                                    key@,
                                    self.entries()[i as int].0,
                                    self.entries()[j].0,
                                );
                            }
                        }
                    }
                    return Err(i);
                },
            }
        }
        Err(i)
    }

    /// Whether the map has an entry for `key`.
    pub fn contains_key(&self, key: &str) -> (r: bool)
        ensures
            r == self.deep_view().contains_key(key@),
    {
        match self.get(key) {
            Some(_) => true,
            None => false,
        }
    }

    /// The value under `key`.
    pub fn get(&self, key: &str) -> (r: Option<&String>)
        ensures
            match r {
                Some(v) => self.deep_view().contains_pair(key@, v@),
                None => !self.deep_view().contains_key(key@),
            },
    {
        proof {
            use_type_invariant(self);
            lemma_listed(self.entries());
        }
        match self.position(key) {
            Ok(i) => {
                assert(self.entries()[i as int].1 == self.entries@[i as int].1@);
                Some(&self.entries[i].1)
            },
            Err(_i) => {
                proof {
                    text_less_is_a_strict_order(key@, key@, key@);
                }
                None
            },
        }
    }

    /// Whether the map has no entry.
    pub fn is_empty(&self) -> (r: bool)
        ensures
            r == (self.deep_view() == Map::<Seq<char>, Seq<char>>::empty()),
    {
        proof {
            use_type_invariant(self);
            lemma_listed(self.entries());
            if self.entries().len() > 0 {
                assert(self.deep_view().contains_key(self.entries()[0].0));
            }
        }
        self.entries.len() == 0
    }

    /// The label selector that asks for every entry of the map.
    pub fn label_selector(&self) -> (r: String)
        ensures
            r@ == label_selector_text(self.deep_view()),
    {
        let ghost text = |e: (Seq<char>, Seq<char>)| e.0 + "="@ + e.1;
        let mut requirements: Vec<String> = Vec::new();
        let mut i: usize = 0;
        while i < self.entries.len()
            invariant
                i <= self.entries@.len(),
                text == (|e: (Seq<char>, Seq<char>)| e.0 + "="@ + e.1),
                requirements.deep_view() == self.entries().take(i as int).map_values(text),
            decreases self.entries@.len() - i,
        {
            let requirement = self.entries[i].0.clone().concat("=").concat(
                self.entries[i].1.as_str(),
            );
            let ghost before = requirements.deep_view();
            requirements.push(requirement);
            proof {
                assert(self.entries()[i as int] == self.entries@[i as int].deep_view());
                assert(requirements.deep_view() =~= before.push(text(self.entries()[i as int])));
                assert(self.entries().take(i + 1) =~= self.entries().take(i as int).push(
                    self.entries()[i as int],
                ));
            }
            i = i + 1;
        }
        proof {
            use_type_invariant(self);
            lemma_in_order(self.entries());
            assert(self.entries().take(i as int) =~= self.entries());
        }
        join(&requirements, ",")
    }

    /// Put `value` under `key`, in place of a value that stood there before.
    pub fn insert(&mut self, key: String, value: String)
        ensures
            final(self).deep_view() == old(self).deep_view().insert(key@, value@),
    {
        let found = self.position(key.as_str());
        proof {
            use_type_invariant(&*self);
        }
        let ghost before = self.entries();
        let ghost (k, v) = (key@, value@);
        let mut entries: Vec<(String, String)> = Vec::new();
        std::mem::swap(&mut entries, &mut self.entries);
        match found {
            Ok(i) => {
                entries.set(i, (key, value));
                proof {
                    let after = entries.deep_view();
                    assert(after =~= before.update(i as int, (k, v)));
                    assert forall|j: int|
                        0 <= j < before.len() && (#[trigger] before[j]).0 != k implies after.contains(
                        before[j],
                    ) by {
                        assert(after[j] == before[j]);
                    }
                    assert forall|j: int| 0 <= j < after.len() && j != i implies before.contains(
                        #[trigger] after[j],
                    ) by {
                        assert(after[j] == before[j]);
                    }
                    assert forall|p: int, q: int| 0 <= p < q < after.len() implies text_less(
                        (#[trigger] after[p]).0,
                        (#[trigger] after[q]).0,
                    ) by {
                        assert(text_less(before[p].0, before[q].0));
                    }
                    lemma_listed_insert(before, after, i as int, k, v);
                }
            },
            Err(i) => {
                entries.insert(i, (key, value));
                proof {
                    let after = entries.deep_view();
                    assert(after =~= before.insert(i as int, (k, v)));
                    assert forall|j: int|
                        0 <= j < before.len() && (#[trigger] before[j]).0 != k implies after.contains(
                        before[j],
                    ) by {
                        if j < i {
                            assert(after[j] == before[j]);
                        } else {
                            assert(after[j + 1] == before[j]);
                        }
                    }
                    assert forall|j: int| 0 <= j < after.len() && j != i implies before.contains(
                        #[trigger] after[j],
                    ) by {
                        if j < i {
                            assert(after[j] == before[j]);
                        } else {
                            assert(after[j] == before[j - 1]);
                        }
                    }
                    assert forall|p: int, q: int| 0 <= p < q < after.len() implies text_less(
                        (#[trigger] after[p]).0,
                        (#[trigger] after[q]).0,
                    ) by {
                        let a = if p < i { before[p] } else { before[p - 1] };
                        let b = if q < i { before[q] } else { before[q - 1] };
                        if p != i && q != i {
                            assert(text_less(a.0, b.0));
                        }
                    }
                    lemma_listed_insert(before, after, i as int, k, v);
                }
            },
        }
        self.entries = entries;
    }
}

impl Default for StringMap {
    fn default() -> (r: StringMap)
        ensures
            r.deep_view() == Map::<Seq<char>, Seq<char>>::empty(),
    {
        StringMap::new()
    }
}

} // verus!

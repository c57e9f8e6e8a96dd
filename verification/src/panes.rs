//! What is known per pane: a map whose keys are pane ids.
use vstd::prelude::*;

use crate::text::same_text;

verus! {

/// No two entries of the list have the same key.
pub open spec fn distinct_keys<T>(order: Seq<(Seq<char>, T)>) -> bool {
    forall|i: int, j: int|
        0 <= i < j < order.len() ==> (#[trigger] order[i]).0 != (#[trigger] order[j]).0
}

/// Whether an entry of the list has this key.
pub open spec fn has_key<T>(order: Seq<(Seq<char>, T)>, key: Seq<char>) -> bool {
    exists|i: int| 0 <= i < order.len() && (#[trigger] order[i]).0 == key
}

/// The list names every entry of the map once, and nothing else.
pub open spec fn lists<T>(order: Seq<(Seq<char>, T)>, map: Map<Seq<char>, T>) -> bool {
    &&& distinct_keys(order)
    &&& forall|i: int|
        0 <= i < order.len() ==> map.contains_key((#[trigger] order[i]).0) && map[order[i].0]
            == order[i].1
    &&& forall|key: Seq<char>| #[trigger] map.contains_key(key) ==> has_key(order, key)
}

/// The map with the entries of the list.
pub open spec fn map_of<T>(order: Seq<(Seq<char>, T)>) -> Map<Seq<char>, T> {
    Map::new(
        |key: Seq<char>| has_key(order, key),
        |key: Seq<char>|
            order[choose|i: int| 0 <= i < order.len() && (#[trigger] order[i]).0 == key].1,
    )
}

/// The keys of the list, in its order.
pub open spec fn keys_of<T>(order: Seq<(Seq<char>, T)>) -> Seq<Seq<char>> {
    order.map_values(|entry: (Seq<char>, T)| entry.0)
}

/// A list without repeated keys lists its own map.
pub proof fn lemma_map_of<T>(order: Seq<(Seq<char>, T)>)
    requires
        distinct_keys(order),
    ensures
        lists(order, map_of(order)),
{
    assert forall|i: int| 0 <= i < order.len() implies map_of(order).contains_key(
        (#[trigger] order[i]).0,
    ) && map_of(order)[order[i].0] == order[i].1 by {
        let key = order[i].0;
        assert(has_key(order, key));
        let j = choose|j: int| 0 <= j < order.len() && (#[trigger] order[j]).0 == key;
        assert(i == j) by {
            if i < j {
                assert(order[i].0 != order[j].0);
            } else if j < i {
                assert(order[j].0 != order[i].0);
            }
        }
    }
}

/// A list lists one map only.
pub proof fn lemma_lists_one<T>(
    order: Seq<(Seq<char>, T)>,
    a: Map<Seq<char>, T>,
    b: Map<Seq<char>, T>,
)
    requires
        lists(order, a),
        lists(order, b),
    ensures
        a == b,
{
    assert forall|key: Seq<char>| a.contains_key(key) == b.contains_key(key) && (a.contains_key(key)
        ==> a[key] == b[key]) by {
        if a.contains_key(key) {
            let i = choose|i: int| 0 <= i < order.len() && (#[trigger] order[i]).0 == key;
            assert(b.contains_key(order[i].0));
        }
        if b.contains_key(key) {
            let i = choose|i: int| 0 <= i < order.len() && (#[trigger] order[i]).0 == key;
            assert(a.contains_key(order[i].0));
        }
    }
    assert(a =~= b);
}

/// A listed map is finite and has as many entries as the list.
pub proof fn lemma_lists_len<T>(order: Seq<(Seq<char>, T)>, map: Map<Seq<char>, T>)
    requires
        lists(order, map),
    ensures
        map.dom().finite(),
        map.dom().len() == order.len(),
        keys_of(order).to_set() == map.dom(),
        keys_of(order).no_duplicates(),
{
    let keys = keys_of(order);
    assert forall|i: int, j: int| 0 <= i < keys.len() && 0 <= j < keys.len() && i != j implies keys[i]
        != keys[j] by {
        if i < j {
            assert(order[i].0 != order[j].0);
        } else {
            assert(order[j].0 != order[i].0);
        }
    }
    assert forall|key: Seq<char>| keys.to_set().contains(key) == map.dom().contains(key) by {
        if keys.contains(key) {
            let i = choose|i: int| 0 <= i < keys.len() && keys[i] == key;
            assert(map.contains_key(order[i].0));
        }
        if map.contains_key(key) {
            let i = choose|i: int| 0 <= i < order.len() && (#[trigger] order[i]).0 == key;
            assert(keys[i] == key);
        }
    }
    assert(keys.to_set() =~= map.dom());
    keys.unique_seq_to_set();
    vstd::seq_lib::seq_to_set_is_finite(keys);
}

/// A map from pane ids. Each id occurs once.
pub struct PaneMap<V: View> {
    entries: Vec<(String, V)>,
}

impl<V: View> PaneMap<V> {
    /// The entries, in the order in which they are kept.
    pub closed spec fn order(self) -> Seq<(Seq<char>, V::V)> {
        self.entries@.map_values(|entry: (String, V)| (entry.0@, entry.1@))
    }

    #[verifier::type_invariant]
    spec fn inv(self) -> bool {
        distinct_keys(self.order())
    }
}

impl<V: View> View for PaneMap<V> {
    type V = Map<Seq<char>, V::V>;

    closed spec fn view(&self) -> Map<Seq<char>, V::V> {
        map_of(self.order())
    }
}

impl<V: View> PaneMap<V> {
    /// A map without entries.
    pub fn new() -> (map: Self)
        ensures
            map@ == Map::<Seq<char>, V::V>::empty(),
    {
        let map = PaneMap { entries: Vec::new() };
        assert(map@ =~= Map::<Seq<char>, V::V>::empty());
        map
    }

    /// The number of entries.
    pub fn len(&self) -> (n: usize)
        ensures
            n == self.order().len(),
            lists(self.order(), self@),
            self@.dom().finite(),
            n == self@.dom().len(),
    {
        proof {
            use_type_invariant(self);
            lemma_map_of(self.order());
            lemma_lists_len(self.order(), self@);
        }
        self.entries.len()
    }

    /// The key at a position of the order.
    pub fn key(&self, i: usize) -> (key: &str)
        requires
            i < self.order().len(),
        ensures
            key@ == self.order()[i as int].0,
    {
        self.entries[i].0.as_str()
    }

    /// The value at a position of the order.
    pub fn value(&self, i: usize) -> (value: &V)
        requires
            i < self.order().len(),
        ensures
            value@ == self.order()[i as int].1,
    {
        &self.entries[i].1
    }

    fn position(&self, key: &str) -> (found: Option<usize>)
        ensures
            match found {
                Some(i) => i < self.order().len() && self.order()[i as int].0 == key@,
                None => !has_key(self.order(), key@),
            },
    {
        let mut i: usize = 0;
        while i < self.entries.len()
            invariant
                i <= self.entries@.len(),
                forall|j: int| 0 <= j < i ==> (#[trigger] self.order()[j]).0 != key@,
            decreases self.entries@.len() - i,
        {
            if same_text(self.entries[i].0.as_str(), key) {
                return Some(i);
            }
            i += 1;
        }
        None
    }

    /// The value of a pane.
    pub fn get(&self, key: &str) -> (value: Option<&V>)
        ensures
            match value {
                Some(value) => self@.contains_key(key@) && self@[key@] == value@,
                None => !self@.contains_key(key@),
            },
    {
        proof {
            use_type_invariant(self);
            lemma_map_of(self.order());
        }
        match self.position(key) {
            Some(i) => Some(&self.entries[i].1),
            None => None,
        }
    }

    /// Sets the value of a pane.
    pub fn insert(&mut self, key: String, value: V)
        ensures
            final(self)@ == old(self)@.insert(key@, value@),
    {
        let found = self.position(key.as_str());
        let ghost order = self.order();
        let ghost before = self@;
        proof {
            use_type_invariant(&*self);
            lemma_map_of(order);
        }
        let mut entries: Vec<(String, V)> = Vec::new();
        std::mem::swap(&mut self.entries, &mut entries);
        let ghost added = (key@, value@);
        match found {
            Some(i) => {
                entries.set(i, (key, value));
                proof {
                    let after = (PaneMap { entries }).order();
                    assert(after =~= order.update(i as int, added));
                    lemma_listed_update(order, before, i as int, added.1);
                }
            },
            None => {
                entries.push((key, value));
                proof {
                    let after = (PaneMap { entries }).order();
                    assert(after =~= order.push(added));
                    lemma_listed_push(order, before, added.0, added.1);
                }
            },
        }
        let ghost after = (PaneMap { entries }).order();
        self.entries = entries;
        proof {
            lemma_map_of(after);
            lemma_lists_one(after, self@, before.insert(added.0, added.1));
        }
    }

    /// Forgets a pane.
    pub fn remove(&mut self, key: &str)
        ensures
            final(self)@ == old(self)@.remove(key@),
    {
        let found = self.position(key);
        let ghost order = self.order();
        let ghost before = self@;
        proof {
            use_type_invariant(&*self);
            lemma_map_of(order);
        }
        match found {
            Some(i) => {
                let mut entries: Vec<(String, V)> = Vec::new();
                std::mem::swap(&mut self.entries, &mut entries);
                entries.remove(i);
                let ghost after = (PaneMap { entries }).order();
                proof {
                    assert(after =~= order.remove(i as int));
                    lemma_listed_remove(order, before, i as int);
                }
                self.entries = entries;
                proof {
                    lemma_map_of(after);
                    lemma_lists_one(after, self@, before.remove(key@));
                }
            },
            None => {
                assert(before.remove(key@) =~= before);
            },
        }
    }

    /// Takes the entries out of the map.
    pub fn into_entries(self) -> (entries: Vec<(String, V)>)
        ensures
            lists(entries@.map_values(|entry: (String, V)| (entry.0@, entry.1@)), self@),
    {
        proof {
            use_type_invariant(&self);
            lemma_map_of(self.order());
        }
        self.entries
    }

    /// The keys.
    pub fn keys(&self) -> (keys: Vec<String>)
        ensures
            keys@.map_values(|key: String| key@) == keys_of(self.order()),
            lists(self.order(), self@),
    {
        proof {
            use_type_invariant(self);
            lemma_map_of(self.order());
        }
        let mut keys: Vec<String> = Vec::new();
        let mut i: usize = 0;
        while i < self.entries.len()
            invariant
                i <= self.entries@.len(),
                keys@.len() == i,
                forall|j: int| 0 <= j < i ==> (#[trigger] keys@[j])@ == self.order()[j].0,
            decreases self.entries@.len() - i,
        {
            keys.push(self.entries[i].0.clone());
            i += 1;
        }
        assert(keys@.map_values(|key: String| key@) =~= keys_of(self.order()));
        keys
    }
}

/// A set of panes.
pub type PaneSet = PaneMap<()>;

/// The set of these panes.
pub fn pane_set(panes: &Vec<String>) -> (set: PaneSet)
    ensures
        set@.dom() == panes@.map_values(|pane: String| pane@).to_set(),
{
    let mut set: PaneSet = PaneMap::new();
    let ghost ids = panes@.map_values(|pane: String| pane@);
    assert(ids.take(0).to_set() =~= Set::empty());
    assert(set@.dom() =~= Set::empty());
    let mut i: usize = 0;
    while i < panes.len()
        invariant
            i <= panes@.len(),
            ids == panes@.map_values(|pane: String| pane@),
            set@.dom() == ids.take(i as int).to_set(),
        decreases panes@.len() - i,
    {
        let ghost before = set@.dom();
        set.insert(panes[i].clone(), ());
        proof {
            let longer = ids.take(i + 1);
            let shorter = ids.take(i as int);
            assert forall|id: Seq<char>| longer.to_set().contains(id) <==> before.insert(
                ids[i as int],
            ).contains(id) by {
                if longer.contains(id) {
                    let j = choose|j: int| 0 <= j < longer.len() && longer[j] == id;
                    if j < i {
                        assert(shorter[j] == id);
                    }
                }
                if shorter.contains(id) {
                    let j = choose|j: int| 0 <= j < shorter.len() && shorter[j] == id;
                    assert(longer[j] == id);
                }
                assert(longer[i as int] == ids[i as int]);
            }
            assert(set@.dom() =~= longer.to_set());
        }
        i += 1;
    }
    assert(ids.take(panes@.len() as int) =~= ids);
    set
}

/// A pane that is in the first set and not in the second.
pub fn one_missing(live: &PaneSet, watched: &PaneSet) -> (missing: Option<String>)
    ensures
        match missing {
            Some(pane) => live@.contains_key(pane@) && !watched@.contains_key(pane@),
            None => live@.dom().subset_of(watched@.dom()),
        },
{
    let n: usize = live.len();
    let mut i: usize = 0;
    while i < n
        invariant
            i <= n,
            n == live.order().len(),
            lists(live.order(), live@),
            forall|j: int|
                0 <= j < i ==> watched@.contains_key((#[trigger] live.order()[j]).0),
        decreases n - i,
    {
        let pane = live.key(i);
        assert(live@.contains_key(live.order()[i as int].0));
        if watched.get(pane).is_none() {
            return Some(pane.to_string());
        }
        i += 1;
    }
    assert forall|pane: Seq<char>| live@.dom().contains(pane) implies watched@.dom().contains(
        pane,
    ) by {
        assert(has_key(live.order(), pane));
        let j = choose|j: int|
            0 <= j < live.order().len() && (#[trigger] live.order()[j]).0 == pane;
        assert(watched@.contains_key(live.order()[j].0));
    }
    None
}

proof fn lemma_listed_push<T>(
    order: Seq<(Seq<char>, T)>,
    map: Map<Seq<char>, T>,
    key: Seq<char>,
    value: T,
)
    requires
        lists(order, map),
        !has_key(order, key),
    ensures
        lists(order.push((key, value)), map.insert(key, value)),
{
    let after = order.push((key, value));
    let inserted = map.insert(key, value);
    assert forall|k: Seq<char>| #[trigger] inserted.contains_key(k) implies has_key(after, k) by {
        if k == key {
            assert(after[order.len() as int].0 == k);
        } else {
            assert(map.contains_key(k));
            let i = choose|i: int| 0 <= i < order.len() && (#[trigger] order[i]).0 == k;
            assert(after[i].0 == k);
        }
    }
    assert forall|i: int| 0 <= i < after.len() implies inserted.contains_key(
        (#[trigger] after[i]).0,
    ) && inserted[after[i].0] == after[i].1 by {
        if i < order.len() {
            assert(after[i] == order[i]);
        }
    }
    assert forall|i: int, j: int| 0 <= i < j < after.len() implies (#[trigger] after[i]).0 != (
    #[trigger] after[j]).0 by {
        assert(after[i] == order[i]);
        if j < order.len() {
            assert(after[j] == order[j]);
        }
    }
}

proof fn lemma_listed_update<T>(
    order: Seq<(Seq<char>, T)>,
    map: Map<Seq<char>, T>,
    at: int,
    value: T,
)
    requires
        lists(order, map),
        0 <= at < order.len(),
    ensures
        lists(order.update(at, (order[at].0, value)), map.insert(order[at].0, value)),
{
    let key = order[at].0;
    let after = order.update(at, (key, value));
    let inserted = map.insert(key, value);
    assert forall|i: int| 0 <= i < after.len() implies (#[trigger] after[i]).0 == order[i].0 by {}
    assert forall|k: Seq<char>| #[trigger] inserted.contains_key(k) implies has_key(after, k) by {
        if k == key {
            assert(after[at].0 == k);
        } else {
            assert(map.contains_key(k));
            let i = choose|i: int| 0 <= i < order.len() && (#[trigger] order[i]).0 == k;
            assert(after[i].0 == k);
        }
    }
    assert forall|i: int| 0 <= i < after.len() implies inserted.contains_key(
        (#[trigger] after[i]).0,
    ) && inserted[after[i].0] == after[i].1 by {
        if i != at {
            assert(after[i] == order[i]);
            assert(order[i].0 != key) by {
                if i < at {
                    assert(order[i].0 != order[at].0);
                } else {
                    assert(order[at].0 != order[i].0);
                }
            }
        }
    }
}

proof fn lemma_listed_remove<T>(order: Seq<(Seq<char>, T)>, map: Map<Seq<char>, T>, at: int)
    requires
        lists(order, map),
        0 <= at < order.len(),
    ensures
        lists(order.remove(at), map.remove(order[at].0)),
{
    let key = order[at].0;
    let after = order.remove(at);
    let left = map.remove(key);
    assert forall|i: int| 0 <= i < after.len() implies (#[trigger] after[i]) == order[if i < at {
        i
    } else {
        i + 1
    }] by {}
    assert forall|k: Seq<char>| #[trigger] left.contains_key(k) implies has_key(after, k) by {
        assert(map.contains_key(k));
        let i = choose|i: int| 0 <= i < order.len() && (#[trigger] order[i]).0 == k;
        assert(i != at);
        assert(after[if i < at {
            i
        } else {
            i - 1
        }].0 == k);
    }
    assert forall|i: int| 0 <= i < after.len() implies left.contains_key((#[trigger] after[i]).0)
        && left[after[i].0] == after[i].1 by {
        if i < at {
            assert(order[i].0 != order[at].0);
        } else {
            assert(order[at].0 != order[i + 1].0);
        }
    }
}

} // verus!

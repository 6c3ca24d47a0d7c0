//! The canvas snapshot that the frontend hands over to be kept: one opaque
//! text, or a map from the number of a stroke to its text.

use crate::text::{first_where, lemma_first_where, lemma_first_where_is};
use vstd::prelude::*;

verus! {

/// The entries of a stroke map as a mathematical value: keys with their
/// texts, in the order in which they are kept.
pub type Strokes = Seq<(int, Seq<char>)>;

/// Whether no key occurs twice in `es`.
pub open spec fn distinct_keys(es: Strokes) -> bool {
    forall|i: int, j: int| 0 <= i < j < es.len() ==> (#[trigger] es[i]).0 != (#[trigger] es[j]).0
}

/// The test for an entry with the key `key`, as a predicate.
pub open spec fn has_key(key: int) -> spec_fn((int, Seq<char>)) -> bool {
    |e: (int, Seq<char>)| e.0 == key
}

/// The index of the first entry of `es` with the key `key`, or the length of
/// `es` where there is none.
pub open spec fn position(es: Strokes, key: int) -> int {
    first_where(es, has_key(key))
}

/// The text that `es` holds for `key`.
pub open spec fn value_of(es: Strokes, key: int) -> Option<Seq<char>> {
    if position(es, key) < es.len() {
        Some(es[position(es, key)].1)
    } else {
        None
    }
}

/// The entries as a map from keys to texts.
pub open spec fn as_map(es: Strokes) -> Map<int, Seq<char>> {
    Map::new(|key: int| value_of(es, key) is Some, |key: int| value_of(es, key)->0)
}

/// The entries after `value` was put under `key`: the entry with that key
/// gets the new text where it stands, and a new key goes to the end.
pub open spec fn inserted(es: Strokes, key: int, value: Seq<char>) -> Strokes {
    if position(es, key) < es.len() {
        es.update(position(es, key), (key, value))
    } else {
        es.push((key, value))
    }
}

/// To put a text under a key keeps the keys distinct.
pub proof fn lemma_inserted_distinct(es: Strokes, key: int, value: Seq<char>)
    requires
        distinct_keys(es),
    ensures
        distinct_keys(inserted(es, key, value)),
{
    lemma_first_where(es, has_key(key));
}

/// After a text was put under a key, the entries hold that text for the key
/// and what they held before for every other key.
pub proof fn lemma_inserted_value(es: Strokes, key: int, value: Seq<char>, other: int)
    ensures
        value_of(inserted(es, key, value), other) == if other == key {
            Some(value)
        } else {
            value_of(es, other)
        },
{
    let after = inserted(es, key, value);
    lemma_first_where(es, has_key(key));
    lemma_first_where(es, has_key(other));
    if other == key {
        lemma_first_where_is(after, has_key(key), position(es, key));
    } else if position(es, other) < es.len() {
        lemma_first_where_is(after, has_key(other), position(es, other));
    } else {
        lemma_first_where_is(after, has_key(other), after.len() as int);
    }
}

/// To put a text under a key is to insert it into the map from keys to texts.
pub proof fn lemma_inserted_map(es: Strokes, key: int, value: Seq<char>)
    ensures
        as_map(inserted(es, key, value)) == as_map(es).insert(key, value),
{
    assert forall|other: int|
        #[trigger] value_of(inserted(es, key, value), other) == if other == key {
            Some(value)
        } else {
            value_of(es, other)
        } by {
        lemma_inserted_value(es, key, value, other);
    }
    assert(as_map(inserted(es, key, value)) =~= as_map(es).insert(key, value));
}

/// One stroke: its number and its text.
#[derive(Debug, PartialEq, Eq)]
pub struct Entry {
    pub key: i32,
    pub value: String,
}

impl View for Entry {
    type V = (int, Seq<char>);

    open spec fn view(&self) -> (int, Seq<char>) {
        (self.key as int, self.value@)
    }
}

impl Clone for Entry {
    fn clone(&self) -> (copy: Entry)
        ensures
            copy@ == self@,
    {
        Entry { key: self.key, value: self.value.clone() }
    }
}

/// A map from the number of a stroke to its text. The strokes are kept in the
/// order in which their keys first came.
#[derive(Debug, PartialEq, Eq)]
pub struct StrokeMap {
    pub entries: Vec<Entry>,
}

impl View for StrokeMap {
    type V = Strokes;

    open spec fn view(&self) -> Strokes {
        self.entries@.map_values(|e: Entry| e@)
    }
}

impl Clone for StrokeMap {
    fn clone(&self) -> (copy: StrokeMap)
        ensures
            copy@ == self@,
    {
        let mut entries: Vec<Entry> = Vec::new();
        let mut i: usize = 0;
        while i < self.entries.len()
            invariant
                i <= self.entries.len(),
                entries@.len() == i,
                forall|k: int| 0 <= k < i ==> (#[trigger] entries@[k])@ == self@[k],
            decreases self.entries.len() - i,
        {
            entries.push(self.entries[i].clone());
            i += 1;
        }
        StrokeMap { entries }
    }
}

impl StrokeMap {
    /// No key occurs twice.
    pub open spec fn wf(&self) -> bool {
        distinct_keys(self@)
    }

    /// The strokes as a map from keys to texts.
    pub open spec fn map(&self) -> Map<int, Seq<char>> {
        as_map(self@)
    }

    /// The map without strokes.
    pub fn new() -> (map: StrokeMap)
        ensures
            map@ == Seq::<(int, Seq<char>)>::empty(),
            map.map() == Map::<int, Seq<char>>::empty(),
            map.wf(),
    {
        let map = StrokeMap { entries: Vec::new() };
        assert(map.map() =~= Map::<int, Seq<char>>::empty());
        map
    }

    /// The number of strokes.
    pub fn len(&self) -> (n: usize)
        ensures
            n == self@.len(),
    {
        self.entries.len()
    }

    /// Whether no key occurs twice.
    pub fn has_distinct_keys(&self) -> (distinct: bool)
        ensures
            distinct == self.wf(),
    {
        let n = self.entries.len();
        let mut j: usize = 0;
        while j < n
            invariant
                j <= n == self.entries.len(),
                forall|a: int, b: int|
                    0 <= a < b < j ==> (#[trigger] self@[a]).0 != (#[trigger] self@[b]).0,
            decreases n - j,
        {
            let mut i: usize = 0;
            while i < j
                invariant
                    i <= j < n == self.entries.len(),
                    forall|a: int| 0 <= a < i ==> (#[trigger] self@[a]).0 != self@[j as int].0,
                decreases j - i,
            {
                if self.entries[i].key == self.entries[j].key {
                    assert(self@[i as int].0 == self@[j as int].0);
                    return false;
                }
                i += 1;
            }
            j += 1;
        }
        true
    }

    /// The index of the first entry with the key `key`, or the number of
    /// entries where there is none.
    fn find(&self, key: i32) -> (at: usize)
        ensures
            at == position(self@, key as int),
            at <= self@.len(),
    {
        let mut i: usize = 0;
        while i < self.entries.len()
            invariant
                i <= self.entries.len(),
                forall|j: int| 0 <= j < i ==> !has_key(key as int)(#[trigger] self@[j]),
            decreases self.entries.len() - i,
        {
            if self.entries[i].key == key {
                proof {
                    lemma_first_where_is(self@, has_key(key as int), i as int);
                }
                return i;
            }
            i += 1;
        }
        proof {
            lemma_first_where_is(self@, has_key(key as int), i as int);
        }
        i
    }

    /// The text kept under `key`.
    pub fn get(&self, key: i32) -> (value: Option<&String>)
        ensures
            value_of(self@, key as int) == match value {
                Some(text) => Some(text@),
                None => None,
            },
            match value {
                Some(text) => self.map().contains_key(key as int) && self.map()[key as int]
                    == text@,
                None => !self.map().contains_key(key as int),
            },
    {
        let at = self.find(key);
        if at < self.entries.len() {
            Some(&self.entries[at].value)
        } else {
            None
        }
    }

    /// Puts `value` under `key`, in place of what was kept under it.
    pub fn insert(&mut self, key: i32, value: String)
        ensures
            final(self)@ == inserted(old(self)@, key as int, value@),
            final(self).map() == old(self).map().insert(key as int, value@),
            old(self).wf() ==> final(self).wf(),
    {
        let at = self.find(key);
        let entry = Entry { key, value };
        if at < self.entries.len() {
            self.entries.set(at, entry);
        } else {
            self.entries.push(entry);
        }
        proof {
            assert(self@ =~= inserted(old(self)@, key as int, value@));
            lemma_inserted_map(old(self)@, key as int, value@);
            if old(self).wf() {
                lemma_inserted_distinct(old(self)@, key as int, value@);
            }
        }
    }
}

/// What the frontend hands over to be kept.
#[derive(Debug, PartialEq, Eq)]
pub enum Snapshot {
    /// One text, kept as it is.
    Text(String),
    /// The strokes by their numbers.
    Strokes(StrokeMap),
}

impl Clone for Snapshot {
    fn clone(&self) -> (copy: Snapshot)
        ensures
            copy@ == self@,
    {
        match self {
            Snapshot::Text(text) => Snapshot::Text(text.clone()),
            Snapshot::Strokes(map) => Snapshot::Strokes(map.clone()),
        }
    }
}

/// A [`Snapshot`] as a mathematical value.
pub ghost enum SnapshotView {
    Text(Seq<char>),
    Strokes(Strokes),
}

impl View for Snapshot {
    type V = SnapshotView;

    open spec fn view(&self) -> SnapshotView {
        match self {
            Snapshot::Text(text) => SnapshotView::Text(text@),
            Snapshot::Strokes(map) => SnapshotView::Strokes(map@),
        }
    }
}

} // verus!

//! A map from text to text that keeps its entries in the order of their first insertion.
use crate::text::same;
use vstd::prelude::*;

verus! {

/// The entries of a [`TextMap`]: keys with their values, in order.
pub type Entries = Seq<(Seq<char>, Seq<char>)>;

/// A map from text to text. No key occurs twice in it.
#[derive(Debug)]
pub struct TextMap {
    entries: Vec<(String, String)>,
}

/// What some pairs stand for.
pub open spec fn pair_views(entries: Seq<(String, String)>) -> Entries {
    entries.map_values(|e: (String, String)| (e.0@, e.1@))
}

impl View for TextMap {
    type V = Entries;

    closed spec fn view(&self) -> Entries {
        pair_views(self.entries@)
    }
}

/// Where `key` first stands among the keys of `m` from `i` on; the length of `m` where it does not.
pub open spec fn key_index(m: Entries, key: Seq<char>, i: int) -> int
    decreases m.len() - i,
{
    if i >= m.len() {
        m.len() as int
    } else if m[i].0 == key {
        i
    } else {
        key_index(m, key, i + 1)
    }
}

/// The value that `m` has for `key`.
pub open spec fn lookup(m: Entries, key: Seq<char>) -> Option<Seq<char>> {
    let i = key_index(m, key, 0);
    if i < m.len() {
        Some(m[i].1)
    } else {
        None
    }
}

/// `m` with `value` for `key`: in the place of the old value, or behind everything else.
pub open spec fn assign(m: Entries, key: Seq<char>, value: Seq<char>) -> Entries {
    let i = key_index(m, key, 0);
    if i < m.len() {
        m.update(i, (key, value))
    } else {
        m.push((key, value))
    }
}

/// Whether no key occurs twice.
pub open spec fn distinct_keys(m: Entries) -> bool {
    forall|i: int, j: int| 0 <= i < j < m.len() ==> (#[trigger] m[i]).0 != (#[trigger] m[j]).0
}

/// What `key_index` gives: the least position from `i` on with that key, or the length.
pub proof fn lemma_key_index(m: Entries, key: Seq<char>, i: int)
    requires
        0 <= i <= m.len(),
    ensures
        i <= key_index(m, key, i) <= m.len(),
        key_index(m, key, i) < m.len() ==> m[key_index(m, key, i)].0 == key,
        forall|j: int| i <= j < key_index(m, key, i) ==> (#[trigger] m[j]).0 != key,
    decreases m.len() - i,
{
    if i < m.len() && m[i].0 != key {
        lemma_key_index(m, key, i + 1);
    }
}

/// After an assignment the map has the new value for that key and the old ones for all others,
/// and still no key twice.
pub proof fn law_assign_then_lookup(
    m: Entries,
    key: Seq<char>,
    value: Seq<char>,
    other: Seq<char>,
)
    ensures
        lookup(assign(m, key, value), key) == Some(value),
        other != key ==> lookup(assign(m, key, value), other) == lookup(m, other),
        distinct_keys(m) ==> distinct_keys(assign(m, key, value)),
{
    let n = assign(m, key, value);
    lemma_key_index(m, key, 0);
    lemma_key_index(n, key, 0);
    lemma_key_index(m, other, 0);
    lemma_key_index(n, other, 0);
    let a = key_index(m, key, 0);
    let b = key_index(n, key, 0);
    assert(n[a].0 == key);
    assert(b <= a) by {
        if b > a {
            assert(n[a].0 != key);
        }
    }
    assert(b == a) by {
        if b < a {
            assert(n[b] == m[b]);
        }
    }
    if other != key {
        let c = key_index(m, other, 0);
        let d = key_index(n, other, 0);
        if c < m.len() {
            assert(n[c] == m[c]);
            if d < c {
                assert(n[d].0 == other);
                assert(m[d].0 != other);
            }
        } else if d < n.len() {
            assert(n[d].0 == other);
            assert(d < m.len());
            assert(m[d].0 != other);
        }
    }
}

impl TextMap {
    #[verifier::type_invariant]
    spec fn in_order(self) -> bool {
        distinct_keys(pair_views(self.entries@))
    }

    /// An empty map.
    pub fn new() -> (r: TextMap)
        ensures
            r@ == Entries::empty(),
    {
        let entries: Vec<(String, String)> = Vec::new();
        assert(pair_views(entries@) =~= Entries::empty());
        TextMap { entries }
    }

    /// How many keys there are; no key is there twice.
    pub fn len(&self) -> (r: usize)
        ensures
            r == self@.len(),
            distinct_keys(self@),
    {
        proof {
            use_type_invariant(self);
        }
        self.entries.len()
    }

    /// The key and the value at `i`.
    pub fn entry(&self, i: usize) -> (r: (&String, &String))
        requires
            i < self@.len(),
        ensures
            (r.0@, r.1@) == self@[i as int],
    {
        (&self.entries[i].0, &self.entries[i].1)
    }

    /// The value for `key`.
    pub fn get(&self, key: &str) -> (r: Option<&String>)
        ensures
            match r {
                Some(v) => lookup(self@, key@) == Some(v@),
                None => lookup(self@, key@) is None,
            },
    {
        let i: usize = index_in(&self.entries, key);
        if i < self.entries.len() {
            Some(&self.entries[i].1)
        } else {
            None
        }
    }

    /// Gives `key` the value `value`.
    pub fn insert(&mut self, key: String, value: String)
        ensures
            final(self)@ == assign(old(self)@, key@, value@),
            distinct_keys(final(self)@),
    {
        proof {
            use_type_invariant(&*self);
            law_assign_then_lookup(old(self)@, key@, value@, key@);
        }
        let mut entries: Vec<(String, String)> = Vec::new();
        assert(pair_views(entries@) =~= Entries::empty());
        std::mem::swap(&mut entries, &mut self.entries);
        let i: usize = index_in(&entries, key.as_str());
        if i < entries.len() {
            entries.set(i, (key, value));
        } else {
            entries.push((key, value));
        }
        assert(pair_views(entries@) =~= assign(old(self)@, key@, value@));
        self.entries = entries;
    }
}

/// Where `key` stands among the keys of some pairs, or their number where it does not.
fn index_in(entries: &Vec<(String, String)>, key: &str) -> (r: usize)
    ensures
        r == key_index(pair_views(entries@), key@, 0),
        r <= entries@.len(),
{
    let ghost all = pair_views(entries@);
    let mut i: usize = 0;
    while i < entries.len()
        invariant
            i <= entries@.len(),
            all == pair_views(entries@),
            key_index(all, key@, i as int) == key_index(all, key@, 0),
        decreases entries@.len() - i,
    {
        assert(all[i as int].0 == entries@[i as int].0@);
        if same(entries[i].0.as_str(), key) {
            return i;
        }
        i += 1;
    }
    i
}

impl Clone for TextMap {
    fn clone(&self) -> (r: TextMap)
        ensures
            r@ == self@,
    {
        proof {
            use_type_invariant(self);
        }
        let mut entries: Vec<(String, String)> = Vec::new();
        let mut i: usize = 0;
        assert(pair_views(entries@) =~= self@.take(0));
        while i < self.entries.len()
            invariant
                i <= self.entries@.len(),
                pair_views(entries@) == self@.take(i as int),
            decreases self.entries@.len() - i,
        {
            let e = &self.entries[i];
            let ghost before = pair_views(entries@);
            entries.push((e.0.clone(), e.1.clone()));
            assert(pair_views(entries@) =~= before.push(self@[i as int]));
            assert(self@.take(i + 1) =~= self@.take(i as int).push(self@[i as int]));
            i += 1;
        }
        assert(self@.take(i as int) =~= self@);
        TextMap { entries }
    }
}

} // verus!

//! Long-term memory: keys with values, a bounded number of them. What was not used for the longest
//! time goes first.
use crate::sorting::{law_sorting_orders, lemma_insert_at, sorted_by};
use crate::text::{contains, contains_text, lower_text, lowercase, same};
use crate::types::clone_opt;
use crate::views::{opt_str, opt_view, views};
use vstd::prelude::*;

verus! {

/// One thing that is remembered.
#[derive(Debug)]
pub struct MemoryEntry {
    pub key: String,
    pub value: String,
    /// When it was last used, in milliseconds.
    pub last_access: u64,
    pub category: Option<String>,
}

/// What a [`MemoryEntry`] stands for.
pub struct MemoryEntryV {
    pub key: Seq<char>,
    pub value: Seq<char>,
    pub last_access: u64,
    pub category: Option<Seq<char>>,
}

impl View for MemoryEntry {
    type V = MemoryEntryV;

    open spec fn view(&self) -> MemoryEntryV {
        MemoryEntryV {
            key: self.key@,
            value: self.value@,
            last_access: self.last_access,
            category: opt_view(self.category),
        }
    }
}

impl Clone for MemoryEntry {
    fn clone(&self) -> (r: MemoryEntry)
        ensures
            r@ == self@,
    {
        MemoryEntry {
            key: self.key.clone(),
            value: self.value.clone(),
            last_access: self.last_access,
            category: clone_opt(&self.category),
        }
    }
}

/// Where the entry for `key` stands, from `i` on; the number of entries where there is none.
pub open spec fn entry_index(s: Seq<MemoryEntryV>, key: Seq<char>, i: int) -> int
    decreases s.len() - i,
{
    if i < 0 || i >= s.len() {
        s.len() as int
    } else if s[i].key == key {
        i
    } else {
        entry_index(s, key, i + 1)
    }
}

/// The entry for `key`.
pub open spec fn entry_for(s: Seq<MemoryEntryV>, key: Seq<char>) -> Option<MemoryEntryV> {
    let i = entry_index(s, key, 0);
    if i < s.len() {
        Some(s[i])
    } else {
        None
    }
}

/// The entries with one more, in the place of another for its key.
pub open spec fn stored(s: Seq<MemoryEntryV>, e: MemoryEntryV) -> Seq<MemoryEntryV> {
    let i = entry_index(s, e.key, 0);
    if i < s.len() {
        s.update(i, e)
    } else {
        s.push(e)
    }
}

/// The entry that was not used for the longest time; the first of them where there are several.
pub open spec fn oldest(s: Seq<MemoryEntryV>) -> int
    decreases s.len(),
{
    if s.len() <= 1 {
        0
    } else {
        let k = oldest(s.drop_last());
        if s.last().last_access < s[k].last_access {
            s.len() - 1
        } else {
            k
        }
    }
}

/// The entries that stay when there may be `max`: the oldest go, one by one.
pub open spec fn bounded(s: Seq<MemoryEntryV>, max: nat) -> Seq<MemoryEntryV>
    decreases s.len(),
{
    if s.len() <= max {
        s
    } else {
        proof {
            lemma_oldest(s);
        }
        bounded(s.remove(oldest(s)), max)
    }
}

/// The entries after a write. A key that is known keeps its place. Where there is no room for a new
/// one, the entry that was not used for the longest time goes first.
pub open spec fn written(s: Seq<MemoryEntryV>, e: MemoryEntryV, max: nat) -> Seq<MemoryEntryV> {
    if entry_index(s, e.key, 0) < s.len() || s.len() < max {
        stored(s, e)
    } else if s.len() == 0 {
        s
    } else {
        s.remove(oldest(s)).push(e)
    }
}

/// The entries of a list, the later in the place of an earlier for the same key.
pub open spec fn gathered(s: Seq<MemoryEntryV>) -> Seq<MemoryEntryV>
    decreases s.len(),
{
    if s.len() == 0 {
        Seq::empty()
    } else {
        stored(gathered(s.drop_last()), s.last())
    }
}

/// Whether entries may be what a memory with room for `max` holds: there are no more, and no key is
/// there twice.
pub open spec fn in_bounds(s: Seq<MemoryEntryV>, max: nat) -> bool {
    s.len() <= max && distinct(s)
}

/// Whether no key occurs twice.
pub open spec fn distinct(s: Seq<MemoryEntryV>) -> bool {
    forall|i: int, j: int| 0 <= i < j < s.len() ==> (#[trigger] s[i]).key != (#[trigger] s[j]).key
}

/// Whether an entry is found by a query: the query stands in its key or in its value, large and
/// small letters being the same.
pub open spec fn found_by(e: MemoryEntryV, query: Seq<char>) -> bool {
    contains(lowercase(e.key), lowercase(query)) || contains(lowercase(e.value), lowercase(query))
}

/// The entries that are found by a query.
pub open spec fn found(s: Seq<MemoryEntryV>, query: Seq<char>) -> Seq<MemoryEntryV>
    decreases s.len(),
{
    if s.len() == 0 {
        Seq::empty()
    } else if found_by(s.last(), query) {
        found(s.drop_last(), query).push(s.last())
    } else {
        found(s.drop_last(), query)
    }
}

/// The order in which entries are recalled: what was used last comes first.
pub open spec fn newer_first() -> spec_fn(MemoryEntryV, MemoryEntryV) -> bool {
    |a: MemoryEntryV, b: MemoryEntryV| a.last_access >= b.last_access
}

/// What `entry_index` gives: the least position from `i` on with that key, or the length.
pub proof fn lemma_entry_index(s: Seq<MemoryEntryV>, key: Seq<char>, i: int)
    requires
        0 <= i <= s.len(),
    ensures
        i <= entry_index(s, key, i) <= s.len(),
        entry_index(s, key, i) < s.len() ==> s[entry_index(s, key, i)].key == key,
        forall|j: int| i <= j < entry_index(s, key, i) ==> (#[trigger] s[j]).key != key,
    decreases s.len() - i,
{
    if i < s.len() && s[i].key != key {
        lemma_entry_index(s, key, i + 1);
    }
}

/// The oldest entry is one of the entries, and none was used before it.
pub proof fn lemma_oldest(s: Seq<MemoryEntryV>)
    requires
        s.len() > 0,
    ensures
        0 <= oldest(s) < s.len(),
        forall|i: int| 0 <= i < s.len() ==> s[oldest(s)].last_access <= (#[trigger] s[i]).last_access,
    decreases s.len(),
{
    if s.len() > 1 {
        let front = s.drop_last();
        lemma_oldest(front);
        assert forall|i: int| 0 <= i < s.len() implies s[oldest(s)].last_access <= (
        #[trigger] s[i]).last_access by {
            if i < front.len() {
                assert(front[i] == s[i]);
                assert(front[oldest(front)].last_access <= front[i].last_access);
            }
        }
    }
}

/// The long-term memory. It never holds more entries than it may, and none twice for a key.
pub struct MemoryStore {
    entries: Vec<MemoryEntry>,
    max_entries: usize,
}

/// Where the entry for `key` stands.
fn index_of(entries: &Vec<MemoryEntry>, key: &str) -> (r: usize)
    ensures
        r == entry_index(views(entries@), key@, 0),
        r <= entries@.len(),
{
    let ghost all = views(entries@);
    let mut i: usize = 0;
    while i < entries.len()
        invariant
            i <= entries@.len(),
            all == views(entries@),
            entry_index(all, key@, i as int) == entry_index(all, key@, 0),
        decreases entries@.len() - i,
    {
        assert(all[i as int].key == entries@[i as int].key@);
        if same(entries[i].key.as_str(), key) {
            return i;
        }
        i += 1;
    }
    i
}

/// The entry that was not used for the longest time.
fn oldest_index(entries: &Vec<MemoryEntry>) -> (r: usize)
    requires
        entries@.len() > 0,
    ensures
        r == oldest(views(entries@)),
        r < entries@.len(),
{
    let ghost all = views(entries@);
    let mut best: usize = 0;
    let mut i: usize = 1;
    while i < entries.len()
        invariant
            1 <= i <= entries@.len(),
            best < i,
            all == views(entries@),
            best == oldest(all.take(i as int)),
        decreases entries@.len() - i,
    {
        assert(all.take(i + 1).drop_last() =~= all.take(i as int));
        assert(all.take(i + 1).last() == entries@[i as int]@);
        assert(all.take(i + 1)[best as int] == entries@[best as int]@);
        if entries[i].last_access < entries[best].last_access {
            best = i;
        }
        i += 1;
    }
    assert(all.take(i as int) =~= all);
    best
}

/// Puts an entry in the place of another for its key, or behind everything else.
fn put(entries: Vec<MemoryEntry>, entry: MemoryEntry) -> (r: Vec<MemoryEntry>)
    ensures
        views(r@) == stored(views(entries@), entry@),
{
    let ghost e = entry@;
    let ghost all = views(entries@);
    let mut r = entries;
    let i: usize = index_of(&r, entry.key.as_str());
    if i < r.len() {
        r.set(i, entry);
    } else {
        r.push(entry);
    }
    assert(views(r@) =~= stored(all, e));
    r
}

impl MemoryStore {
    /// What is remembered, in the order in which it was first written.
    pub closed spec fn entries(self) -> Seq<MemoryEntryV> {
        views(self.entries@)
    }

    /// How many entries there may be.
    pub closed spec fn max_entries(self) -> usize {
        self.max_entries
    }

    #[verifier::type_invariant]
    spec fn sound(self) -> bool {
        in_bounds(views(self.entries@), self.max_entries as nat)
    }

    /// A memory of what was read from where it is kept; empty where nothing could be read. Of two
    /// entries for a key the later counts, and where there are too many, the oldest go.
    pub fn open(kept: Option<Vec<MemoryEntry>>, max_entries: usize) -> (r: MemoryStore)
        ensures
            r.entries() == bounded(
                match kept {
                    Some(v) => gathered(views(v@)),
                    None => Seq::empty(),
                },
                max_entries as nat,
            ),
            r.max_entries() == max_entries,
            in_bounds(r.entries(), max_entries as nat),
            match kept {
                Some(v) => distinct(views(v@)) ==> r.entries() == bounded(
                    views(v@),
                    max_entries as nat,
                ),
                None => r.entries().len() == 0,
            },
    {
        let mut entries: Vec<MemoryEntry> = Vec::new();
        assert(views(entries@) =~= Seq::empty());
        match &kept {
            Some(v) => {
                let ghost all = views(v@);
                let mut i: usize = 0;
                assert(all.take(0) =~= Seq::empty());
                while i < v.len()
                    invariant
                        i <= v@.len(),
                        all == views(v@),
                        views(entries@) == gathered(all.take(i as int)),
                    decreases v@.len() - i,
                {
                    assert(all.take(i + 1).drop_last() =~= all.take(i as int));
                    assert(all.take(i + 1).last() == v@[i as int]@);
                    entries = put(entries, v[i].clone());
                    i += 1;
                }
                assert(all.take(i as int) =~= all);
                proof {
                    lemma_gathered(all);
                    if distinct(all) {
                        lemma_gathered_all(all);
                    }
                }
            },
            None => {},
        }
        let ghost all = views(entries@);
        while entries.len() > max_entries
            invariant
                bounded(views(entries@), max_entries as nat) == bounded(all, max_entries as nat),
            decreases entries@.len(),
        {
            let k: usize = oldest_index(&entries);
            let ghost before = views(entries@);
            let _ = entries.remove(k);
            assert(views(entries@) =~= before.remove(k as int));
        }
        proof {
            law_memory_is_bounded(all, max_entries as nat);
            lemma_bounded_distinct(all, max_entries as nat);
        }
        MemoryStore { entries, max_entries }
    }

    /// Takes the entries out.
    fn take(&mut self) -> (r: Vec<MemoryEntry>)
        ensures
            views(r@) == old(self).entries(),
            in_bounds(views(r@), old(self).max_entries() as nat),
            final(self).max_entries == old(self).max_entries,
    {
        proof {
            use_type_invariant(&*self);
        }
        let mut entries: Vec<MemoryEntry> = Vec::new();
        assert(views(entries@) =~= Seq::empty());
        std::mem::swap(&mut entries, &mut self.entries);
        entries
    }

    /// Remembers `value` for `key`, at the time `now`. Where there is no room for a new key, the
    /// entry that was not used for the longest time goes.
    pub fn write(&mut self, key: &str, value: &str, category: Option<&str>, now: u64)
        ensures
            final(self).entries() == written(
                old(self).entries(),
                MemoryEntryV { key: key@, value: value@, last_access: now, category: opt_str(category) },
                old(self).max_entries() as nat,
            ),
            final(self).max_entries() == old(self).max_entries(),
            in_bounds(final(self).entries(), final(self).max_entries() as nat),
    {
        let entry = MemoryEntry {
            key: key.to_owned(),
            value: value.to_owned(),
            last_access: now,
            category: match category {
                Some(c) => Some(c.to_owned()),
                None => None,
            },
        };
        let ghost e = entry@;
        let max: usize = self.max_entries;
        let mut entries = self.take();
        let ghost all = views(entries@);
        proof {
            law_writing_stays_in_bounds(all, e, max as nat);
            lemma_entry_index(all, key@, 0);
        }
        if index_of(&entries, key) == entries.len() && entries.len() >= max {
            if entries.len() > 0 {
                let k: usize = oldest_index(&entries);
                let _ = entries.remove(k);
                entries.push(entry);
                assert(views(entries@) =~= all.remove(k as int).push(e));
            }
        } else {
            entries = put(entries, entry);
        }
        self.entries = entries;
    }

    /// The value for `key`, which counts as used at the time `now`.
    pub fn read(&mut self, key: &str, now: u64) -> (r: Option<String>)
        ensures
            match entry_for(old(self).entries(), key@) {
                Some(e) => {
                    &&& opt_view(r) == Some(e.value)
                    &&& final(self).entries() == stored(
                        old(self).entries(),
                        MemoryEntryV { last_access: now, ..e },
                    )
                },
                None => r is None && final(self).entries() == old(self).entries(),
            },
            final(self).max_entries() == old(self).max_entries(),
            in_bounds(final(self).entries(), final(self).max_entries() as nat),
    {
        let mut entries = self.take();
        let ghost all = views(entries@);
        let i: usize = index_of(&entries, key);
        proof {
            lemma_entry_index(all, key@, 0);
        }
        if i < entries.len() {
            let e = &entries[i];
            let entry = MemoryEntry {
                key: e.key.clone(),
                value: e.value.clone(),
                last_access: now,
                category: clone_opt(&e.category),
            };
            let value = e.value.clone();
            let ghost touched = entry@;
            entries.set(i, entry);
            assert(views(entries@) =~= stored(all, touched));
            proof {
                lemma_stored_distinct(all, touched);
            }
            self.entries = entries;
            Some(value)
        } else {
            self.entries = entries;
            None
        }
    }

    /// All entries that a query finds, what was used last first. That does not count as a use.
    pub fn recall(&self, query: &str) -> (r: Vec<MemoryEntry>)
        ensures
            views(r@) == sorted_by(found(self.entries(), query@), newer_first()),
    {
        let query_lower = lower_text(query);
        let ghost all = self.entries();
        let mut matches: Vec<MemoryEntry> = Vec::new();
        let mut i: usize = 0;
        assert(all.take(0) =~= Seq::empty());
        assert(views(matches@) =~= Seq::empty());
        while i < self.entries.len()
            invariant
                i <= self.entries@.len(),
                all == views(self.entries@),
                query_lower@ == lowercase(query@),
                views(matches@) == found(all.take(i as int), query@),
            decreases self.entries@.len() - i,
        {
            let e = &self.entries[i];
            let ghost before = views(matches@);
            assert(all.take(i + 1).drop_last() =~= all.take(i as int));
            assert(all.take(i + 1).last() == e@);
            let key_lower = lower_text(e.key.as_str());
            let value_lower = lower_text(e.value.as_str());
            if matches_lowered(
                key_lower.as_str(),
                value_lower.as_str(),
                query_lower.as_str(),
            ) {
                matches.push(e.clone());
                assert(views(matches@) =~= before.push(e@));
            }
            i += 1;
        }
        assert(all.take(i as int) =~= all);
        sort_by_recency(matches)
    }

    /// Forgets `key` and says whether it was there.
    pub fn delete(&mut self, key: &str) -> (removed: bool)
        ensures
            removed == (entry_for(old(self).entries(), key@) is Some),
            final(self).entries() == if removed {
                old(self).entries().remove(entry_index(old(self).entries(), key@, 0))
            } else {
                old(self).entries()
            },
            final(self).max_entries() == old(self).max_entries(),
            in_bounds(final(self).entries(), final(self).max_entries() as nat),
    {
        let mut entries = self.take();
        let ghost all = views(entries@);
        let i: usize = index_of(&entries, key);
        proof {
            lemma_entry_index(all, key@, 0);
        }
        if i < entries.len() {
            let _ = entries.remove(i);
            assert(views(entries@) =~= all.remove(i as int));
            proof {
                lemma_remove_distinct(all, i as int);
            }
            self.entries = entries;
            true
        } else {
            self.entries = entries;
            false
        }
    }

    /// How many entries there are, which is the number of keys and no more than there may be.
    pub fn len(&self) -> (r: usize)
        ensures
            r == self.entries().len(),
            in_bounds(self.entries(), self.max_entries() as nat),
    {
        proof {
            use_type_invariant(self);
        }
        self.entries.len()
    }

    /// Whether there is no entry.
    pub fn is_empty(&self) -> (r: bool)
        ensures
            r == (self.entries().len() == 0),
    {
        self.entries.len() == 0
    }

    /// All entries, in the order in which they were first written.
    pub fn all(&self) -> (r: &Vec<MemoryEntry>)
        ensures
            views(r@) == self.entries(),
    {
        &self.entries
    }
}

/// Whether a query stands in a key or in a value, all of them in small letters.
pub fn matches_lowered(key_lower: &str, value_lower: &str, query_lower: &str) -> (r: bool)
    ensures
        r == (contains(key_lower@, query_lower@) || contains(value_lower@, query_lower@)),
{
    contains_text(key_lower, query_lower) || contains_text(value_lower, query_lower)
}

/// Entries in the order in which they are recalled.
pub fn sort_by_recency(v: Vec<MemoryEntry>) -> (r: Vec<MemoryEntry>)
    ensures
        views(r@) == sorted_by(views(v@), newer_first()),
{
    let ghost le = newer_first();
    let ghost all = views(v@);
    let mut r: Vec<MemoryEntry> = Vec::new();
    let mut i: usize = 0;
    assert(all.take(0) =~= Seq::empty());
    assert(views(r@) =~= Seq::empty());
    while i < v.len()
        invariant
            i <= v@.len(),
            all == views(v@),
            le == newer_first(),
            views(r@) == sorted_by(all.take(i as int), le),
        decreases v@.len() - i,
    {
        let ghost s = views(r@);
        let mut k: usize = r.len();
        while k > 0 && r[k - 1].last_access < v[i].last_access
            invariant
                i < v@.len(),
                k <= r@.len(),
                s == views(r@),
                le == newer_first(),
                forall|j: int| k <= j < s.len() ==> !le(#[trigger] s[j], v@[i as int]@),
            decreases k,
        {
            k -= 1;
            assert(s[k as int] == r@[k as int]@);
        }
        proof {
            assert(all.take(i + 1).drop_last() =~= all.take(i as int));
            if k > 0 {
                assert(s[k - 1] == r@[k - 1]@);
            }
            lemma_insert_at(s, v@[i as int]@, le, k as int);
        }
        r.insert(k, v[i].clone());
        assert(views(r@) =~= s.insert(k as int, v@[i as int]@));
        i += 1;
    }
    assert(all.take(i as int) =~= all);
    r
}

/// A list of entries is cut to what there may be, and left as it is where there are no more.
pub proof fn law_memory_is_bounded(s: Seq<MemoryEntryV>, max: nat)
    ensures
        bounded(s, max).len() <= max,
        s.len() <= max ==> bounded(s, max) == s,
    decreases s.len(),
{
    if s.len() > max {
        lemma_oldest(s);
        law_memory_is_bounded(s.remove(oldest(s)), max);
    }
}

/// Whatever is written, the memory never holds more than it may, and no key twice. It holds nothing
/// but what it held and what was written, and as much of that as it may.
pub proof fn law_writing_stays_in_bounds(s: Seq<MemoryEntryV>, e: MemoryEntryV, max: nat)
    requires
        in_bounds(s, max),
    ensures
        in_bounds(written(s, e, max), max),
        written(s, e, max).len() == if stored(s, e).len() <= max {
            stored(s, e).len()
        } else {
            max
        },
        forall|x: MemoryEntryV|
            #[trigger] written(s, e, max).contains(x) ==> stored(s, e).contains(x),
{
    lemma_entry_index(s, e.key, 0);
    lemma_stored_distinct(s, e);
    if entry_index(s, e.key, 0) == s.len() && s.len() == max && s.len() > 0 {
        lemma_oldest(s);
        let k = oldest(s);
        lemma_remove_distinct(s, k);
        let t = s.remove(k);
        assert(entry_index(t, e.key, 0) == t.len()) by {
            lemma_entry_index(t, e.key, 0);
            let i = entry_index(t, e.key, 0);
            if i < t.len() {
                assert(t[i] == s[if i < k {
                    i
                } else {
                    i + 1
                }]);
            }
        }
        lemma_stored_distinct(t, e);
        let all = stored(s, e);
        assert forall|x: MemoryEntryV| #[trigger] t.push(e).contains(x) implies all.contains(
            x,
        ) by {
            let i = choose|i: int| 0 <= i < t.push(e).len() && t.push(e)[i] == x;
            assert(all[if i < k {
                i
            } else {
                i + 1
            }] == x);
        }
    }
}

proof fn lemma_stored_distinct(s: Seq<MemoryEntryV>, e: MemoryEntryV)
    requires
        distinct(s),
    ensures
        distinct(stored(s, e)),
{
    lemma_entry_index(s, e.key, 0);
    let t = stored(s, e);
    assert forall|i: int, j: int| 0 <= i < j < t.len() implies (#[trigger] t[i]).key != (
    #[trigger] t[j]).key by {
        let k = entry_index(s, e.key, 0);
        if k < s.len() {
            assert(t[i].key == s[i].key);
            assert(t[j].key == s[j].key);
        } else if j < s.len() {
            assert(t[i] == s[i] && t[j] == s[j]);
        } else {
            assert(t[i] == s[i]);
        }
    }
}

proof fn lemma_remove_distinct(s: Seq<MemoryEntryV>, k: int)
    requires
        distinct(s),
        0 <= k < s.len(),
    ensures
        distinct(s.remove(k)),
{
    let t = s.remove(k);
    assert forall|i: int, j: int| 0 <= i < j < t.len() implies (#[trigger] t[i]).key != (
    #[trigger] t[j]).key by {
        let a = if i < k {
            i
        } else {
            i + 1
        };
        let b = if j < k {
            j
        } else {
            j + 1
        };
        assert(t[i] == s[a]);
        assert(t[j] == s[b]);
    }
}

proof fn lemma_bounded_distinct(s: Seq<MemoryEntryV>, max: nat)
    requires
        distinct(s),
    ensures
        distinct(bounded(s, max)),
    decreases s.len(),
{
    if s.len() > max {
        lemma_oldest(s);
        lemma_remove_distinct(s, oldest(s));
        lemma_bounded_distinct(s.remove(oldest(s)), max);
    }
}

/// No key is there twice among gathered entries.
proof fn lemma_gathered(s: Seq<MemoryEntryV>)
    ensures
        distinct(gathered(s)),
    decreases s.len(),
{
    if s.len() > 0 {
        lemma_gathered(s.drop_last());
        lemma_stored_distinct(gathered(s.drop_last()), s.last());
    }
}

proof fn lemma_gathered_all(s: Seq<MemoryEntryV>)
    requires
        distinct(s),
    ensures
        gathered(s) == s,
    decreases s.len(),
{
    if s.len() > 0 {
        let front = s.drop_last();
        assert(distinct(front)) by {
            assert forall|i: int, j: int| 0 <= i < j < front.len() implies (
            #[trigger] front[i]).key != (#[trigger] front[j]).key by {
                assert(front[i] == s[i] && front[j] == s[j]);
            }
        }
        lemma_gathered_all(front);
        lemma_entry_index(front, s.last().key, 0);
        let k = entry_index(front, s.last().key, 0);
        if k < front.len() {
            assert(front[k] == s[k]);
            assert(s[s.len() - 1] == s.last());
        }
        assert(front.push(s.last()) =~= s);
    } else {
        assert(gathered(s) =~= s);
    }
}

/// A memory that was written down is opened again as it was.
pub proof fn law_reopening_keeps_all(s: Seq<MemoryEntryV>, max: nat)
    requires
        in_bounds(s, max),
    ensures
        bounded(gathered(s), max) == s,
{
    lemma_gathered_all(s);
}

/// What is written can be read: after a write the memory has that value for the key, as long as it
/// may hold something at all.
pub proof fn law_written_can_be_read(s: Seq<MemoryEntryV>, e: MemoryEntryV, max: nat)
    requires
        max > 0,
        in_bounds(s, max),
    ensures
        entry_for(written(s, e, max), e.key) == Some(e),
{
    law_writing_stays_in_bounds(s, e, max);
    let t = written(s, e, max);
    lemma_entry_index(s, e.key, 0);
    lemma_entry_index(t, e.key, 0);
    let i = entry_index(t, e.key, 0);
    let k = if entry_index(s, e.key, 0) < s.len() {
        entry_index(s, e.key, 0)
    } else {
        t.len() - 1
    };
    if s.len() > 0 {
        lemma_oldest(s);
    }
    assert(t[k] == e);
    assert(i <= k);
    if i < k {
        assert(t[i].key != t[k].key);
    }
}

/// A write changes nothing of other keys, except that where there is no room one of them goes: one
/// that was not used later than any other.
pub proof fn law_oldest_goes_first(
    s: Seq<MemoryEntryV>,
    e: MemoryEntryV,
    max: nat,
    i: int,
    j: int,
)
    requires
        in_bounds(s, max),
        0 <= i < s.len(),
        0 <= j < s.len(),
        s[i].key != e.key,
        !written(s, e, max).contains(s[i]),
    ensures
        s.len() == max,
        entry_for(s, e.key) is None,
        i == oldest(s),
        s[i].last_access <= s[j].last_access,
        j != i ==> written(s, e, max).contains(s[j]),
{
    lemma_entry_index(s, e.key, 0);
    lemma_oldest(s);
    let t = written(s, e, max);
    let k = entry_index(s, e.key, 0);
    if k < s.len() || s.len() < max {
        assert(t[i] == s[i]);
    } else {
        let o = oldest(s);
        if i < o {
            assert(t[i] == s[i]);
        } else if i > o {
            assert(t[i - 1] == s[i]);
        }
        if j < o {
            assert(t[j] == s[j]);
        } else if j > o {
            assert(t[j - 1] == s[j]);
        }
    }
}

/// Writing or reading an entry changes no other: the entry of every other key stays, as long as
/// there is room.
pub proof fn law_other_entries_stay(s: Seq<MemoryEntryV>, e: MemoryEntryV, other: Seq<char>)
    requires
        other != e.key,
    ensures
        entry_for(stored(s, e), other) == entry_for(s, other),
        entry_for(stored(s, e), e.key) == Some(e),
        entry_for(Seq::empty(), other) is None,
{
    let t = stored(s, e);
    lemma_entry_place(s, e.key, 0);
    lemma_entry_place(t, e.key, 0);
    lemma_entry_place(s, other, 0);
    lemma_entry_place(t, other, 0);
    let i = entry_index(s, e.key, 0);
    let j = entry_index(t, e.key, 0);
    assert(t[i] == e);
    if j < i {
        assert(t[j] == s[j]);
    }
    let a = entry_index(s, other, 0);
    let b = entry_index(t, other, 0);
    if a < s.len() {
        assert(t[a] == s[a]);
    }
    if b < t.len() {
        assert(b < s.len());
        assert(t[b] == s[b]);
    }
}

proof fn lemma_entry_place(s: Seq<MemoryEntryV>, key: Seq<char>, i: int)
    requires
        0 <= i <= s.len(),
    ensures
        i <= entry_index(s, key, i) <= s.len(),
        entry_index(s, key, i) < s.len() ==> s[entry_index(s, key, i)].key == key,
        forall|j: int| i <= j < entry_index(s, key, i) ==> (#[trigger] s[j]).key != key,
    decreases s.len() - i,
{
    if i < s.len() && s[i].key != key {
        lemma_entry_place(s, key, i + 1);
    }
}

/// An entry is found by any text that stands in its key or in its value, in capitals or not, and by
/// no other; what is found keeps its order, and nothing else is found.
pub proof fn law_entries_are_found_by_their_texts(
    a: Seq<MemoryEntryV>,
    b: Seq<MemoryEntryV>,
    e: MemoryEntryV,
    query: Seq<char>,
)
    ensures
        found(a + b, query) == found(a, query) + found(b, query),
        contains(lowercase(e.key), lowercase(query)) || contains(
            lowercase(e.value),
            lowercase(query),
        ) ==> found(seq![e], query) == seq![e],
        !contains(lowercase(e.key), lowercase(query)) && !contains(
            lowercase(e.value),
            lowercase(query),
        ) ==> found(seq![e], query).len() == 0,
    decreases b.len(),
{
    assert(seq![e].drop_last() =~= Seq::empty());
    assert(found(Seq::<MemoryEntryV>::empty(), query) =~= Seq::empty());
    if found_by(e, query) {
        assert(found(seq![e], query) =~= seq![e]);
    }
    if b.len() == 0 {
        assert(a + b =~= a);
        assert(found(a, query) + found(b, query) =~= found(a, query));
    } else {
        assert((a + b).drop_last() =~= a + b.drop_last());
        law_entries_are_found_by_their_texts(a, b.drop_last(), e, query);
        assert(found(a + b, query) =~= found(a, query) + found(b, query));
    }
}

/// What was used last comes first, and nothing of what was found is lost.
pub proof fn law_the_newest_come_first(s: Seq<MemoryEntryV>, i: int, j: int)
    requires
        0 <= i < j < s.len(),
    ensures
        sorted_by(s, newer_first())[i].last_access >= sorted_by(s, newer_first())[j].last_access,
        sorted_by(s, newer_first()).to_multiset() == s.to_multiset(),
{
    law_sorting_orders(s, newer_first());
    let r = sorted_by(s, newer_first());
    assert(newer_first()(r[i], r[j]));
}

/// When entries have to go, those that were used least recently go: none that stays was used before
/// one that goes, and what stays keeps its order.
pub proof fn law_the_most_recent_entries_stay(
    s: Seq<MemoryEntryV>,
    max: nat,
    kept: MemoryEntryV,
    gone: MemoryEntryV,
)
    requires
        s.no_duplicates(),
        bounded(s, max).contains(kept),
        s.contains(gone),
        !bounded(s, max).contains(gone),
    ensures
        gone.last_access <= kept.last_access,
    decreases s.len(),
{
    if s.len() > max {
        lemma_oldest(s);
        let k = oldest(s);
        let r = s.remove(k);
        assert(r.no_duplicates()) by {
            assert forall|i: int, j: int| 0 <= i < r.len() && 0 <= j < r.len() && i != j implies r[i]
                != r[j] by {
                let a = if i < k {
                    i
                } else {
                    i + 1
                };
                let b = if j < k {
                    j
                } else {
                    j + 1
                };
                assert(r[i] == s[a] && r[j] == s[b]);
            }
        }
        lemma_bounded_within(r, max, kept);
        let i = choose|i: int| 0 <= i < r.len() && r[i] == kept;
        let a = if i < k {
            i
        } else {
            i + 1
        };
        assert(s[a] == kept);
        if gone != s[k] {
            let j = choose|j: int| 0 <= j < s.len() && s[j] == gone;
            let b = if j < k {
                j
            } else {
                j - 1
            };
            assert(r[b] == gone);
            law_the_most_recent_entries_stay(r, max, kept, gone);
        }
    }
}

proof fn lemma_bounded_within(s: Seq<MemoryEntryV>, max: nat, e: MemoryEntryV)
    ensures
        bounded(s, max).contains(e) ==> s.contains(e),
    decreases s.len(),
{
    if s.len() > max {
        lemma_oldest(s);
        let k = oldest(s);
        let r = s.remove(k);
        lemma_bounded_within(r, max, e);
        if bounded(s, max).contains(e) {
            let i = choose|i: int| 0 <= i < r.len() && r[i] == e;
            assert(s[if i < k {
                i
            } else {
                i + 1
            }] == e);
        }
    }
}

} // verus!

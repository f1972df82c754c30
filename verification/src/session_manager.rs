//! Several sessions: an index of all of them, and the logs of the few that are in memory.
//!
//! What is to be written or removed elsewhere is handed back as actions, in the order in which they
//! are to be done.
use crate::session::{
    derived, restored, snapshot_of, SessionLog, SessionLogV, SessionSnapshot, SnapshotV,
};
use crate::sorting::{in_order, insert_by, is_order, law_sorting_orders, lemma_insert_at, sorted_by};
use crate::text::{hex, hex4_text, hex_text, same, zero_padded};
use crate::types::Message;
use crate::views::{opt_view, views};
use vstd::prelude::*;

verus! {

/// What is known of a session without its log.
#[derive(Debug)]
pub struct SessionMeta {
    pub id: String,
    pub title: String,
    /// How many events its log has.
    pub event_count: usize,
    /// When it was made, in milliseconds.
    pub created_at: u64,
    /// When something last happened in it, in milliseconds.
    pub updated_at: u64,
    /// Whether its log is in memory.
    pub in_memory: bool,
    /// Whether it is the one in use.
    pub is_active: bool,
}

/// What a [`SessionMeta`] stands for.
pub struct SessionMetaV {
    pub id: Seq<char>,
    pub title: Seq<char>,
    pub event_count: usize,
    pub created_at: u64,
    pub updated_at: u64,
    pub in_memory: bool,
    pub is_active: bool,
}

impl View for SessionMeta {
    type V = SessionMetaV;

    open spec fn view(&self) -> SessionMetaV {
        SessionMetaV {
            id: self.id@,
            title: self.title@,
            event_count: self.event_count,
            created_at: self.created_at,
            updated_at: self.updated_at,
            in_memory: self.in_memory,
            is_active: self.is_active,
        }
    }
}

impl Clone for SessionMeta {
    fn clone(&self) -> (r: SessionMeta)
        ensures
            r@ == self@,
    {
        SessionMeta {
            id: self.id.clone(),
            title: self.title.clone(),
            event_count: self.event_count,
            created_at: self.created_at,
            updated_at: self.updated_at,
            in_memory: self.in_memory,
            is_active: self.is_active,
        }
    }
}

/// What is to be done where sessions are kept.
pub enum StoreAction {
    /// Write down a log.
    Checkpoint { id: String, snapshot: SessionSnapshot },
    /// Remove what was written down of a session.
    Remove { id: String },
    /// Write down the index.
    SaveIndex,
}

/// What a [`StoreAction`] stands for.
pub enum StoreActionV {
    Checkpoint { id: Seq<char>, snapshot: SnapshotV },
    Remove { id: Seq<char> },
    SaveIndex,
}

impl View for StoreAction {
    type V = StoreActionV;

    open spec fn view(&self) -> StoreActionV {
        match *self {
            StoreAction::Checkpoint { id, snapshot } => StoreActionV::Checkpoint {
                id: id@,
                snapshot: snapshot@,
            },
            StoreAction::Remove { id } => StoreActionV::Remove { id: id@ },
            StoreAction::SaveIndex => StoreActionV::SaveIndex,
        }
    }
}

/// A log in memory, with the session that it is of.
pub struct CachedLog {
    pub id: String,
    pub log: SessionLog,
}

/// What a [`CachedLog`] stands for.
pub struct CachedLogV {
    pub id: Seq<char>,
    pub log: SessionLogV,
}

impl View for CachedLog {
    type V = CachedLogV;

    open spec fn view(&self) -> CachedLogV {
        CachedLogV { id: self.id@, log: self.log@ }
    }
}

/// How many logs are kept in memory.
pub const CACHE_CAPACITY: usize = 2;

/// Whether no session is in an index twice.
pub open spec fn index_distinct(s: Seq<SessionMetaV>) -> bool {
    forall|i: int, j: int| 0 <= i < j < s.len() ==> (#[trigger] s[i]).id != (#[trigger] s[j]).id
}

/// The index: what is known of each session. No session is in it twice.
struct SessionIndex {
    entries: Vec<SessionMeta>,
}

impl View for SessionIndex {
    type V = Seq<SessionMetaV>;

    closed spec fn view(&self) -> Seq<SessionMetaV> {
        views(self.entries@)
    }
}

impl SessionIndex {
    #[verifier::type_invariant]
    spec fn in_order(self) -> bool {
        index_distinct(views(self.entries@))
    }

    fn new() -> (r: SessionIndex)
        ensures
            r@ == Seq::<SessionMetaV>::empty(),
    {
        let entries: Vec<SessionMeta> = Vec::new();
        assert(views(entries@) =~= Seq::empty());
        SessionIndex { entries }
    }

    fn len(&self) -> (r: usize)
        ensures
            r == self@.len(),
            index_distinct(self@),
    {
        proof {
            use_type_invariant(self);
        }
        self.entries.len()
    }

    fn get(&self, i: usize) -> (r: &SessionMeta)
        requires
            i < self@.len(),
        ensures
            r@ == self@[i as int],
    {
        &self.entries[i]
    }

    /// Where a session stands.
    fn position(&self, id: &str) -> (r: usize)
        ensures
            r == meta_index(self@, id@, 0),
            r <= self@.len(),
    {
        let mut i: usize = 0;
        while i < self.entries.len()
            invariant
                i <= self.entries@.len(),
                meta_index(self@, id@, i as int) == meta_index(self@, id@, 0),
            decreases self.entries@.len() - i,
        {
            assert(self@[i as int].id == self.entries@[i as int].id@);
            if same(self.entries[i].id.as_str(), id) {
                return i;
            }
            i += 1;
        }
        i
    }

    /// Adds a session, in the place of another of its name.
    fn put(&mut self, m: SessionMeta)
        ensures
            final(self)@ == indexed_with(old(self)@, m@),
            index_distinct(final(self)@),
    {
        let i: usize = self.position(m.id.as_str());
        let ghost all = self@;
        let ghost mv = m@;
        proof {
            use_type_invariant(&*self);
            lemma_indexed_distinct(all, mv);
        }
        let mut entries: Vec<SessionMeta> = Vec::new();
        assert(views(entries@) =~= Seq::empty());
        std::mem::swap(&mut entries, &mut self.entries);
        if i < entries.len() {
            entries.set(i, m);
        } else {
            entries.push(m);
        }
        assert(views(entries@) =~= indexed_with(all, mv));
        self.entries = entries;
    }

    /// Forgets the session at `i`.
    fn remove(&mut self, i: usize)
        requires
            i < old(self)@.len(),
        ensures
            final(self)@ == old(self)@.remove(i as int),
            index_distinct(final(self)@),
    {
        let ghost all = self@;
        proof {
            use_type_invariant(&*self);
            lemma_index_removed(all, i as int);
        }
        let mut entries: Vec<SessionMeta> = Vec::new();
        assert(views(entries@) =~= Seq::empty());
        std::mem::swap(&mut entries, &mut self.entries);
        let _ = entries.remove(i);
        assert(views(entries@) =~= all.remove(i as int));
        self.entries = entries;
    }
}

/// All sessions.
pub struct SessionManager {
    sessions: SessionIndex,
    cache: Vec<CachedLog>,
    active_id: Option<String>,
    max_events: usize,
}

/// What a [`SessionManager`] stands for.
pub struct ManagerV {
    pub sessions: Seq<SessionMetaV>,
    pub cache: Seq<CachedLogV>,
    pub active_id: Option<Seq<char>>,
    pub max_events: usize,
}

impl View for SessionManager {
    type V = ManagerV;

    closed spec fn view(&self) -> ManagerV {
        ManagerV {
            sessions: self.sessions@,
            cache: views(self.cache@),
            active_id: opt_view(self.active_id),
            max_events: self.max_events,
        }
    }
}

/// Where a session stands in the index, from `i` on; the number of sessions where it does not.
pub open spec fn meta_index(s: Seq<SessionMetaV>, id: Seq<char>, i: int) -> int
    decreases s.len() - i,
{
    if i < 0 || i >= s.len() {
        s.len() as int
    } else if s[i].id == id {
        i
    } else {
        meta_index(s, id, i + 1)
    }
}

/// Where the log of a session stands in memory, from `i` on; the number of logs where it does not.
pub open spec fn cache_index(s: Seq<CachedLogV>, id: Seq<char>, i: int) -> int
    decreases s.len() - i,
{
    if i < 0 || i >= s.len() {
        s.len() as int
    } else if s[i].id == id {
        i
    } else {
        cache_index(s, id, i + 1)
    }
}

/// The logs with one more, in the place of another of its session.
pub open spec fn cached_with(s: Seq<CachedLogV>, c: CachedLogV) -> Seq<CachedLogV> {
    let i = cache_index(s, c.id, 0);
    if i < s.len() {
        s.update(i, c)
    } else {
        s.push(c)
    }
}

/// The index with one more session, in the place of another of its name.
pub open spec fn indexed_with(s: Seq<SessionMetaV>, m: SessionMetaV) -> Seq<SessionMetaV> {
    let i = meta_index(s, m.id, 0);
    if i < s.len() {
        s.update(i, m)
    } else {
        s.push(m)
    }
}

impl ManagerV {
    /// Whether a session is in the index.
    pub open spec fn knows(self, id: Seq<char>) -> bool {
        meta_index(self.sessions, id, 0) < self.sessions.len()
    }

    /// Whether the log of a session is in memory.
    pub open spec fn holds(self, id: Seq<char>) -> bool {
        cache_index(self.cache, id, 0) < self.cache.len()
    }

    /// When something last happened in a session; 0 for one that is not in the index.
    pub open spec fn stamp(self, id: Seq<char>) -> u64 {
        if self.knows(id) {
            self.sessions[meta_index(self.sessions, id, 0)].updated_at
        } else {
            0
        }
    }

    /// The manager with the index entry of a session changed to `m`.
    pub open spec fn with_meta(self, id: Seq<char>, m: SessionMetaV) -> ManagerV {
        if self.knows(id) {
            ManagerV {
                sessions: self.sessions.update(meta_index(self.sessions, id, 0), m),
                ..self
            }
        } else {
            self
        }
    }

    /// The index entry of a session.
    pub open spec fn meta(self, id: Seq<char>) -> SessionMetaV {
        self.sessions[meta_index(self.sessions, id, 0)]
    }

    /// The manager after a session is marked as in memory or not.
    pub open spec fn marked(self, id: Seq<char>, in_memory: bool) -> ManagerV {
        self.with_meta(id, SessionMetaV { in_memory, ..self.meta(id) })
    }

    /// Among the first `n` logs, the one in whose session nothing happened for the longest time;
    /// that of the session in use is never it.
    pub open spec fn victim(self, n: nat) -> Option<int>
        decreases n,
    {
        if n == 0 {
            None
        } else {
            let before = self.victim((n - 1) as nat);
            let id = self.cache[n - 1].id;
            if self.active_id == Some(id) {
                before
            } else {
                match before {
                    None => Some(n - 1),
                    Some(k) => if self.stamp(id) < self.stamp(self.cache[k].id) {
                        Some(n - 1)
                    } else {
                        before
                    },
                }
            }
        }
    }

    /// The manager after logs have gone until there are few enough, and what is to be written down
    /// of them.
    pub open spec fn evicted(self) -> (ManagerV, Seq<StoreActionV>)
        decreases self.cache.len(),
    {
        if self.cache.len() <= CACHE_CAPACITY {
            (self, Seq::empty())
        } else {
            proof {
                lemma_victim(self, self.cache.len());
            }
            match self.victim(self.cache.len()) {
                None => (self, Seq::empty()),
                Some(k) => {
                    let gone = self.cache[k];
                    let rest = ManagerV { cache: self.cache.remove(k), ..self }.marked(
                        gone.id,
                        false,
                    );
                    (
                        rest.evicted().0,
                        seq![
                            StoreActionV::Checkpoint {
                                id: gone.id,
                                snapshot: snapshot_of(gone.log),
                            },
                        ] + rest.evicted().1,
                    )
                },
            }
        }
    }

    /// What is to be written down of a session whose log is in memory.
    pub open spec fn checkpoint_of(self, id: Seq<char>) -> Seq<StoreActionV> {
        if self.holds(id) {
            seq![
                StoreActionV::Checkpoint {
                    id,
                    snapshot: snapshot_of(self.cache[cache_index(self.cache, id, 0)].log),
                },
            ]
        } else {
            Seq::empty()
        }
    }

    /// The manager and what is to be done after a session has been made. It is in use from the
    /// start, so that its own log is never one of those that go.
    pub open spec fn created(self, id: Seq<char>, title: Seq<char>, now: u64) -> (
        ManagerV,
        Seq<StoreActionV>,
    ) {
        let meta = SessionMetaV {
            id,
            title,
            event_count: 0,
            created_at: now,
            updated_at: now,
            in_memory: true,
            is_active: true,
        };
        let with = ManagerV {
            sessions: indexed_with(self.sessions, meta),
            cache: cached_with(self.cache, CachedLogV { id, log: new_log(self.max_events) }),
            active_id: Some(id),
            ..self
        };
        let (after, actions) = with.evicted();
        (after, actions.push(StoreActionV::SaveIndex))
    }

    /// The manager and what is to be done after another session is in use. Its log is `loaded`, or
    /// a new one where nothing could be loaded, unless it is in memory already.
    pub open spec fn switched(
        self,
        id: Seq<char>,
        loaded: Option<SessionLogV>,
        now: u64,
    ) -> (ManagerV, Seq<StoreActionV>) {
        let saved = match self.active_id {
            Some(old_id) => if old_id != id {
                self.checkpoint_of(old_id)
            } else {
                Seq::empty()
            },
            None => Seq::empty(),
        };
        let with = ManagerV {
            cache: if self.holds(id) {
                self.cache
            } else {
                self.cache.push(
                    CachedLogV {
                        id,
                        log: match loaded {
                            Some(log) => log,
                            None => new_log(self.max_events),
                        },
                    },
                )
            },
            active_id: Some(id),
            ..self
        };
        let (after, actions) = with.evicted();
        (
            after.with_meta(
                id,
                SessionMetaV { in_memory: true, updated_at: now, ..after.meta(id) },
            ),
            saved + actions,
        )
    }

    /// The manager after the session in use, if it is `id`, is in use no more.
    pub open spec fn released(self, id: Seq<char>) -> ManagerV {
        if self.active_id == Some(id) {
            ManagerV { active_id: None, ..self }
        } else {
            self
        }
    }

    /// The manager without the log of a session.
    pub open spec fn dropped(self, id: Seq<char>) -> ManagerV {
        if self.holds(id) {
            ManagerV { cache: self.cache.remove(cache_index(self.cache, id, 0)), ..self }
        } else {
            self
        }
    }

    /// The manager without a session in its index.
    pub open spec fn forgotten(self, id: Seq<char>) -> ManagerV {
        if self.knows(id) {
            ManagerV { sessions: self.sessions.remove(meta_index(self.sessions, id, 0)), ..self }
        } else {
            self
        }
    }

    /// The manager after something happened in the session in use.
    pub open spec fn touched(self, now: u64) -> ManagerV {
        match self.active_id {
            Some(id) => if self.holds(id) {
                self.with_meta(
                    id,
                    SessionMetaV {
                        event_count: self.cache[cache_index(
                            self.cache,
                            id,
                            0,
                        )].log.events.len() as usize,
                        updated_at: now,
                        in_memory: true,
                        ..self.meta(id)
                    },
                )
            } else {
                self
            },
            None => self,
        }
    }

    /// The manager with another log of the session in use, where that is in memory.
    pub open spec fn with_active_log(self, log: SessionLogV) -> ManagerV {
        match self.active_id {
            Some(id) => {
                let k = cache_index(self.cache, id, 0);
                if k < self.cache.len() {
                    ManagerV {
                        cache: self.cache.update(k, CachedLogV { id: self.cache[k].id, log }),
                        ..self
                    }
                } else {
                    self
                }
            },
            None => self,
        }
    }

    /// The manager after the log of the session in use is taken out.
    pub open spec fn taken(self) -> ManagerV {
        match self.active_id {
            Some(id) => self.dropped(id),
            None => self,
        }
    }

    /// The manager after a log of the session in use is taken back.
    pub open spec fn given_back(self, log: SessionLogV, now: u64) -> ManagerV {
        match self.active_id {
            Some(id) => ManagerV {
                cache: cached_with(self.cache, CachedLogV { id, log }),
                ..self
            }.touched(now),
            None => self,
        }
    }

    /// Whether everything is in order: no session is in the index twice, and the one in use is in
    /// it; no session has two logs in memory, there are no more than may be, and there is room for
    /// that of the session in use where it is taken out.
    pub open spec fn wf(self) -> bool {
        &&& index_distinct(self.sessions)
        &&& self.active_id is Some ==> self.knows(self.active_id->0)
        &&& cache_distinct(self.cache)
        &&& self.cache.len() <= CACHE_CAPACITY
        &&& self.active_id is Some && !self.holds(self.active_id->0) ==> self.cache.len()
            < CACHE_CAPACITY
    }

    /// The log of the session in use.
    pub open spec fn active_log(self) -> Option<SessionLogV> {
        match self.active_id {
            Some(id) => if self.holds(id) {
                Some(self.cache[cache_index(self.cache, id, 0)].log)
            } else {
                None
            },
            None => None,
        }
    }
}

/// A log without events.
pub open spec fn new_log(max_events: usize) -> SessionLogV {
    SessionLogV {
        next_seq: 0,
        events: Seq::empty(),
        max_in_memory: max_events,
        current_turn: 0,
        current_step: 0,
    }
}

/// The victim is one of the logs, not that of the session in use, and no other such log is of a
/// session in which nothing happened for longer.
pub proof fn lemma_victim(m: ManagerV, n: nat)
    requires
        n <= m.cache.len(),
    ensures
        match m.victim(n) {
            Some(k) => {
                &&& 0 <= k < n
                &&& m.active_id != Some(m.cache[k].id)
                &&& forall|i: int|
                    0 <= i < n && m.active_id != Some((#[trigger] m.cache[i]).id) ==> m.stamp(
                        m.cache[k].id,
                    ) <= m.stamp(m.cache[i].id)
            },
            None => forall|i: int| 0 <= i < n ==> m.active_id == Some((#[trigger] m.cache[i]).id),
        },
    decreases n,
{
    if n > 0 {
        lemma_victim(m, (n - 1) as nat);
    }
}

/// The order in which sessions are listed: what was last in use comes first.
pub open spec fn later_first() -> spec_fn(SessionMetaV, SessionMetaV) -> bool {
    |a: SessionMetaV, b: SessionMetaV| a.updated_at >= b.updated_at
}

/// The index entries, with the session in use marked.
pub open spec fn with_active(s: Seq<SessionMetaV>, active: Option<Seq<char>>) -> Seq<
    SessionMetaV,
> {
    s.map_values(
        |m: SessionMetaV| SessionMetaV { is_active: active == Some(m.id), ..m },
    )
}

/// The index entries as they are when nothing is in memory yet.
pub open spec fn unloaded(s: Seq<SessionMetaV>) -> Seq<SessionMetaV> {
    s.map_values(|m: SessionMetaV| SessionMetaV { in_memory: false, is_active: false, ..m })
}

/// The entries of a list, the later in the place of an earlier for the same session.
pub open spec fn indexed(s: Seq<SessionMetaV>) -> Seq<SessionMetaV>
    decreases s.len(),
{
    if s.len() == 0 {
        Seq::empty()
    } else {
        indexed_with(indexed(s.drop_last()), s.last())
    }
}

/// Whether two strings that may not be there are the same.
fn is_id(a: &Option<String>, b: &str) -> (r: bool)
    ensures
        r == (opt_view(*a) == Some(b@)),
{
    match a {
        Some(s) => same(s.as_str(), b),
        None => false,
    }
}

/// One of the logs, to be changed.
fn log_at(cache: &mut Vec<CachedLog>, k: usize) -> (log: &mut SessionLog)
    requires
        k < old(cache)@.len(),
    ensures
        log@ == old(cache)@[k as int].log@,
        views(final(cache)@) == views(old(cache)@).update(
            k as int,
            (CachedLogV { id: old(cache)@[k as int].id@, log: final(log)@ }),
        ),
{
    &mut cache[k].log
}

impl SessionManager {
    /// A manager of the sessions in an index that was written down; of none where there is none. Of
    /// two entries for a session the later counts.
    pub fn new(index: Option<Vec<SessionMeta>>, max_events: usize) -> (r: SessionManager)
        ensures
            r@ == (ManagerV {
                sessions: match index {
                    Some(v) => indexed(unloaded(views(v@))),
                    None => Seq::empty(),
                },
                cache: Seq::empty(),
                active_id: None,
                max_events,
            }),
            r@.wf(),
    {
        let mut sessions = SessionIndex::new();
        match index {
            Some(v) => {
                let ghost all = unloaded(views(v@));
                let mut i: usize = 0;
                assert(all.take(0) =~= Seq::empty());
                while i < v.len()
                    invariant
                        i <= v@.len(),
                        all == unloaded(views(v@)),
                        sessions@ == indexed(all.take(i as int)),
                        index_distinct(sessions@),
                    decreases v@.len() - i,
                {
                    let mut m = v[i].clone();
                    m.in_memory = false;
                    m.is_active = false;
                    assert(m@ == all[i as int]);
                    assert(all.take(i + 1).drop_last() =~= all.take(i as int));
                    sessions.put(m);
                    i += 1;
                }
                assert(all.take(i as int) =~= all);
            },
            None => {},
        }
        let r = SessionManager { sessions, cache: Vec::new(), active_id: None, max_events };
        assert(views(r.cache@) =~= Seq::empty());
        r
    }

    fn meta_at(&self, id: &str) -> (r: usize)
        ensures
            r == meta_index(self@.sessions, id@, 0),
            r <= self@.sessions.len(),
    {
        self.sessions.position(id)
    }

    fn cached_at(&self, id: &str) -> (r: usize)
        ensures
            r == cache_index(self@.cache, id@, 0),
            r <= self.cache@.len(),
    {
        let mut i: usize = 0;
        while i < self.cache.len()
            invariant
                i <= self.cache@.len(),
                cache_index(self@.cache, id@, i as int) == cache_index(self@.cache, id@, 0),
            decreases self.cache@.len() - i,
        {
            assert(self@.cache[i as int].id == self.cache@[i as int].id@);
            if same(self.cache[i].id.as_str(), id) {
                return i;
            }
            i += 1;
        }
        i
    }

    fn stamp_of(&self, id: &str) -> (r: u64)
        ensures
            r == self@.stamp(id@),
    {
        let i: usize = self.meta_at(id);
        if i < self.sessions.len() {
            self.sessions.get(i).updated_at
        } else {
            0
        }
    }

    /// Marks a session as in memory or not.
    fn mark(&mut self, id: &str, in_memory: bool)
        ensures
            final(self)@ == old(self)@.marked(id@, in_memory),
    {
        let i: usize = self.meta_at(id);
        if i < self.sessions.len() {
            let mut m = self.sessions.get(i).clone();
            m.in_memory = in_memory;
            proof {
                lemma_meta_index(self@.sessions, id@, 0);
            }
            self.sessions.put(m);
        }
    }

    /// The log that goes next.
    fn find_victim(&self) -> (r: Option<usize>)
        ensures
            match r {
                Some(k) => self@.victim(self@.cache.len()) == Some(k as int) && k
                    < self.cache@.len(),
                None => self@.victim(self@.cache.len()) is None,
            },
    {
        let mut best: Option<usize> = None;
        let mut i: usize = 0;
        while i < self.cache.len()
            invariant
                i <= self.cache@.len(),
                match best {
                    Some(k) => self@.victim(i as nat) == Some(k as int) && k < i,
                    None => self@.victim(i as nat) is None,
                },
            decreases self.cache@.len() - i,
        {
            assert(self@.cache[i as int].id == self.cache@[i as int].id@);
            if !is_id(&self.active_id, self.cache[i].id.as_str()) {
                best = match best {
                    None => Some(i),
                    Some(k) => {
                        assert(self@.cache[k as int].id == self.cache@[k as int].id@);
                        if self.stamp_of(self.cache[i].id.as_str()) < self.stamp_of(
                            self.cache[k].id.as_str(),
                        ) {
                            Some(i)
                        } else {
                            Some(k)
                        }
                    },
                };
            }
            i += 1;
        }
        best
    }

    /// Lets logs go until there are few enough, and adds to `actions` what is to be written down of
    /// them.
    fn evict_cache(&mut self, actions: &mut Vec<StoreAction>)
        ensures
            final(self)@ == old(self)@.evicted().0,
            views(final(actions)@) == views(old(actions)@) + old(self)@.evicted().1,
    {
        let ghost start = self@.evicted();
        let ghost first = views(actions@);
        assert(first + self@.evicted().1 =~= first + start.1);
        while self.cache.len() > CACHE_CAPACITY
            invariant
                self@.evicted().0 == start.0,
                views(actions@) + self@.evicted().1 == first + start.1,
            ensures
                self@ == start.0,
                views(actions@) == first + start.1,
            decreases self.cache@.len(),
        {
            let ghost before = self@;
            match self.find_victim() {
                None => {
                    assert(views(actions@) + Seq::<StoreActionV>::empty() =~= views(actions@));
                    break;
                },
                Some(k) => {
                    let gone = self.cache.remove(k);
                    assert(views(self.cache@) =~= before.cache.remove(k as int));
                    assert(before.cache[k as int] == gone@);
                    let ghost acts = views(actions@);
                    let snapshot = gone.log.serialize();
                    self.mark(gone.id.as_str(), false);
                    let ghost head = StoreActionV::Checkpoint {
                        id: gone@.id,
                        snapshot: snapshot_of(gone@.log),
                    };
                    actions.push(StoreAction::Checkpoint { id: gone.id, snapshot });
                    assert(views(actions@) =~= acts.push(head));
                    assert(acts + (seq![head] + self@.evicted().1) =~= views(actions@)
                        + self@.evicted().1);
                },
            }
        }
        assert(views(actions@) + Seq::<StoreActionV>::empty() =~= views(actions@));
    }

    /// Makes a session, which is then the one in use.
    pub fn create(&mut self, title: &str, id: &str, now: u64) -> (actions: Vec<StoreAction>)
        ensures
            final(self)@ == old(self)@.created(id@, title@, now).0,
            views(actions@) == old(self)@.created(id@, title@, now).1,
            old(self)@.wf() ==> final(self)@.wf(),
    {
        proof {
            if self@.wf() {
                law_creating_keeps_order(self@, id@, title@, now);
            }
        }
        let meta = SessionMeta {
            id: id.to_owned(),
            title: title.to_owned(),
            event_count: 0,
            created_at: now,
            updated_at: now,
            in_memory: true,
            is_active: true,
        };
        self.sessions.put(meta);
        let log = CachedLog { id: id.to_owned(), log: SessionLog::new(self.max_events) };
        let ghost cv = log@;
        let k: usize = self.cached_at(id);
        if k < self.cache.len() {
            self.cache.set(k, log);
        } else {
            self.cache.push(log);
        }
        assert(views(self.cache@) =~= cached_with(old(self)@.cache, cv));
        self.active_id = Some(id.to_owned());
        let mut actions: Vec<StoreAction> = Vec::new();
        assert(views(actions@) =~= Seq::empty());
        let ghost with = self@;
        self.evict_cache(&mut actions);
        assert(views(actions@) =~= with.evicted().1);
        actions.push(StoreAction::SaveIndex);
        assert(views(actions@) =~= with.evicted().1.push(StoreActionV::SaveIndex));
        actions
    }

    /// Whether a session is to be loaded before it can be switched to.
    pub fn needs_load(&self, id: &str) -> (r: bool)
        ensures
            r == (self@.knows(id@) && !self@.holds(id@)),
    {
        self.meta_at(id) < self.sessions.len() && !(self.cached_at(id) < self.cache.len())
    }

    /// Uses another session. `loaded` is its log, where that could be loaded. Nothing happens where
    /// there is no such session.
    pub fn switch(&mut self, id: &str, loaded: Option<SessionLog>, now: u64) -> (r: Option<
        Vec<StoreAction>,
    >)
        ensures
            match r {
                Some(actions) => {
                    &&& old(self)@.knows(id@)
                    &&& final(self)@ == old(self)@.switched(id@, opt_view(loaded), now).0
                    &&& views(actions@) == old(self)@.switched(id@, opt_view(loaded), now).1
                },
                None => !old(self)@.knows(id@) && final(self)@ == old(self)@,
            },
            old(self)@.wf() ==> final(self)@.wf(),
    {
        proof {
            if self@.wf() {
                if self@.knows(id@) {
                    lemma_switched(self@, id@, opt_view(loaded), now);
                }
            }
        }
        if !(self.meta_at(id) < self.sessions.len()) {
            return None;
        }
        let mut actions: Vec<StoreAction> = Vec::new();
        assert(views(actions@) =~= Seq::empty());
        match &self.active_id {
            Some(old_id) => {
                if !same(old_id.as_str(), id) {
                    let k: usize = self.cached_at(old_id.as_str());
                    if k < self.cache.len() {
                        assert(self@.cache[k as int] == self.cache@[k as int]@);
                        let snapshot = self.cache[k].log.serialize();
                        actions.push(StoreAction::Checkpoint { id: old_id.clone(), snapshot });
                    }
                }
            },
            None => {},
        }
        let ghost saved = views(actions@);
        assert(saved =~= match old(self)@.active_id {
            Some(old_id) => if old_id != id@ {
                old(self)@.checkpoint_of(old_id)
            } else {
                Seq::empty()
            },
            None => Seq::empty(),
        });
        if !(self.cached_at(id) < self.cache.len()) {
            let log = match loaded {
                Some(log) => log,
                None => SessionLog::new(self.max_events),
            };
            let entry = CachedLog { id: id.to_owned(), log };
            let ghost ev = entry@;
            self.cache.push(entry);
            assert(views(self.cache@) =~= old(self)@.cache.push(ev));
        }
        self.active_id = Some(id.to_owned());
        self.evict_cache(&mut actions);
        let ghost after = self@;
        let i: usize = self.meta_at(id);
        if i < self.sessions.len() {
            let mut m = self.sessions.get(i).clone();
            m.in_memory = true;
            m.updated_at = now;
            proof {
                lemma_meta_index(self@.sessions, id@, 0);
            }
            self.sessions.put(m);
        }
        Some(actions)
    }

    /// Gives a session another title; nothing happens where there is no such session.
    pub fn rename(&mut self, id: &str, title: &str, now: u64) -> (actions: Vec<StoreAction>)
        ensures
            final(self)@ == old(self)@.with_meta(
                id@,
                SessionMetaV { title: title@, updated_at: now, ..old(self)@.meta(id@) },
            ),
            views(actions@) == if old(self)@.knows(id@) {
                seq![StoreActionV::SaveIndex]
            } else {
                Seq::empty()
            },
            old(self)@.wf() ==> final(self)@.wf(),
    {
        proof {
            if self@.wf() {
                law_renaming_keeps_order(self@, id@, title@, now);
            }
        }
        let mut actions: Vec<StoreAction> = Vec::new();
        let i: usize = self.meta_at(id);
        if i < self.sessions.len() {
            let mut m = self.sessions.get(i).clone();
            m.title = title.to_owned();
            m.updated_at = now;
            proof {
                lemma_meta_index(self@.sessions, id@, 0);
            }
            self.sessions.put(m);
            actions.push(StoreAction::SaveIndex);
            assert(views(actions@) =~= seq![StoreActionV::SaveIndex]);
        } else {
            assert(views(actions@) =~= Seq::empty());
        }
        actions
    }

    /// The log of the session in use, to be changed.
    pub fn active_mut(&mut self) -> (r: Option<&mut SessionLog>)
        ensures
            match r {
                Some(log) => {
                    &&& old(self)@.active_log() == Some(log@)
                    &&& final(self)@ == old(self)@.with_active_log(final(log)@)
                },
                None => old(self)@.active_log() is None && final(self)@ == old(self)@,
            },
            old(self)@.wf() ==> final(self)@.wf(),
    {
        proof {
            if self@.wf() {
                assert forall|log: SessionLogV| #[trigger] self@.with_active_log(log).wf() by {
                    law_noting_keeps_order(self@, log, 0);
                }
            }
        }
        let k: usize = match &self.active_id {
            Some(id) => self.cached_at(id.as_str()),
            None => {
                return None;
            },
        };
        if k < self.cache.len() {
            assert(self@.cache[k as int] == self.cache@[k as int]@);
            Some(log_at(&mut self.cache, k))
        } else {
            None
        }
    }

    /// Whether the log of a session is in memory.
    pub fn is_cached(&self, id: &str) -> (r: bool)
        ensures
            r == self@.holds(id@),
    {
        self.cached_at(id) < self.cache.len()
    }

    /// The messages of the session in use.
    pub fn active_messages(&self) -> (r: Option<Vec<Message>>)
        ensures
            match r {
                Some(v) => self@.active_log() is Some && views(v@) == derived(
                    self@.active_log()->0.events,
                ),
                None => self@.active_log() is None,
            },
    {
        match self.active() {
            Some(log) => Some(log.derive_messages()),
            None => None,
        }
    }

    /// The log of the session in use.
    pub fn active(&self) -> (r: Option<&SessionLog>)
        ensures
            match r {
                Some(log) => self@.active_log() == Some(log@),
                None => self@.active_log() is None,
            },
    {
        match &self.active_id {
            Some(id) => {
                let k: usize = self.cached_at(id.as_str());
                if k < self.cache.len() {
                    assert(self@.cache[k as int] == self.cache@[k as int]@);
                    Some(&self.cache[k].log)
                } else {
                    None
                }
            },
            None => None,
        }
    }

    /// The name of the session in use.
    pub fn active_id(&self) -> (r: Option<&str>)
        ensures
            match r {
                Some(id) => self@.active_id == Some(id@),
                None => self@.active_id is None,
            },
    {
        match &self.active_id {
            Some(id) => Some(id.as_str()),
            None => None,
        }
    }

    /// The name of the session in use.
    pub fn active_session_id(&self) -> (r: Option<&str>)
        ensures
            match r {
                Some(id) => self@.active_id == Some(id@),
                None => self@.active_id is None,
            },
    {
        self.active_id()
    }

    /// All sessions, what was last in use first.
    pub fn list(&self) -> (r: Vec<SessionMeta>)
        ensures
            views(r@) == sorted_by(
                with_active(self@.sessions, self@.active_id),
                later_first(),
            ),
            r@.len() == self@.sessions.len(),
            index_distinct(views(r@)),
            in_order(views(r@), later_first()),
            forall|i: int|
                0 <= i < r@.len() ==> (#[trigger] r@[i]).is_active == (self@.active_id == Some(
                    r@[i].id@,
                )),
    {
        let ghost all = with_active(self@.sessions, self@.active_id);
        let ghost le = later_first();
        let mut r: Vec<SessionMeta> = Vec::new();
        let mut i: usize = 0;
        assert(all.take(0) =~= Seq::empty());
        assert(views(r@) =~= Seq::empty());
        while i < self.sessions.len()
            invariant
                i <= self.sessions@.len(),
                all == with_active(self.sessions@, opt_view(self.active_id)),
                le == later_first(),
                views(r@) == sorted_by(all.take(i as int), le),
            decreases self.sessions@.len() - i,
        {
            let mut m = self.sessions.get(i).clone();
            m.is_active = is_id(&self.active_id, m.id.as_str());
            assert(m@ == all[i as int]);
            let ghost s = views(r@);
            let mut k: usize = r.len();
            while k > 0 && r[k - 1].updated_at < m.updated_at
                invariant
                    k <= r@.len(),
                    s == views(r@),
                    le == later_first(),
                    forall|j: int| k <= j < s.len() ==> !le(#[trigger] s[j], m@),
                decreases k,
            {
                k -= 1;
                assert(s[k as int] == r@[k as int]@);
            }
            proof {
                assert(all.take(i + 1).drop_last() =~= all.take(i as int));
                if k > 0 {
                    assert(s[k - 1] == r@[k - 1]@);
                }
                lemma_insert_at(s, m@, le, k as int);
            }
            let ghost mv = m@;
            r.insert(k, m);
            assert(views(r@) =~= s.insert(k as int, mv));
            i += 1;
        }
        assert(all.take(i as int) =~= all);
        proof {
            use_type_invariant(&self.sessions);
            law_sessions_listed_by_recency(self@.sessions, self@.active_id);
            assert forall|j: int| 0 <= j < r@.len() implies (#[trigger] r@[j]).is_active == (
            self@.active_id == Some(r@[j].id@)) by {
                assert(views(r@)[j] == r@[j]@);
            }
        }
        r
    }

    /// Takes the log of a session out of memory.
    fn drop_log(&mut self, id: &str) -> (r: Option<CachedLog>)
        ensures
            final(self)@ == old(self)@.dropped(id@),
            match r {
                Some(c) => old(self)@.holds(id@) && c@ == old(self)@.cache[cache_index(
                    old(self)@.cache,
                    id@,
                    0,
                )],
                None => !old(self)@.holds(id@),
            },
    {
        let k: usize = self.cached_at(id);
        if k < self.cache.len() {
            let c = self.cache.remove(k);
            assert(old(self)@.cache[k as int] == c@);
            assert(views(self.cache@) =~= old(self)@.cache.remove(k as int));
            Some(c)
        } else {
            None
        }
    }

    /// Takes a session out of use where it is the one in use.
    fn release(&mut self, id: &str)
        ensures
            final(self)@ == old(self)@.released(id@),
    {
        if is_id(&self.active_id, id) {
            self.active_id = None;
        }
    }

    /// Puts a session away: its log is written down and leaves memory.
    pub fn close(&mut self, id: &str) -> (actions: Vec<StoreAction>)
        ensures
            final(self)@ == old(self)@.dropped(id@).marked(id@, false).released(id@),
            views(actions@) == old(self)@.checkpoint_of(id@).push(StoreActionV::SaveIndex),
            old(self)@.wf() ==> final(self)@.wf(),
    {
        proof {
            if self@.wf() {
                law_leaving_keeps_order(self@, id@);
            }
        }
        let mut actions: Vec<StoreAction> = Vec::new();
        match self.drop_log(id) {
            Some(c) => {
                let snapshot = c.log.serialize();
                actions.push(StoreAction::Checkpoint { id: id.to_owned(), snapshot });
            },
            None => {},
        }
        assert(views(actions@) =~= old(self)@.checkpoint_of(id@));
        let ghost before = views(actions@);
        self.mark(id, false);
        self.release(id);
        actions.push(StoreAction::SaveIndex);
        assert(views(actions@) =~= before.push(StoreActionV::SaveIndex));
        actions
    }

    /// Forgets a session for good.
    pub fn delete(&mut self, id: &str) -> (actions: Vec<StoreAction>)
        ensures
            final(self)@ == old(self)@.dropped(id@).forgotten(id@).released(id@),
            views(actions@) == seq![StoreActionV::Remove { id: id@ }, StoreActionV::SaveIndex],
            old(self)@.wf() ==> final(self)@.wf(),
    {
        proof {
            if self@.wf() {
                law_leaving_keeps_order(self@, id@);
            }
        }
        let _ = self.drop_log(id);
        let i: usize = self.meta_at(id);
        if i < self.sessions.len() {
            self.sessions.remove(i);
        }
        self.release(id);
        let mut actions: Vec<StoreAction> = Vec::new();
        actions.push(StoreAction::Remove { id: id.to_owned() });
        actions.push(StoreAction::SaveIndex);
        assert(views(actions@) =~= seq![
            StoreActionV::Remove { id: id@ },
            StoreActionV::SaveIndex,
        ]);
        actions
    }

    /// What is to be written down of the session in use.
    pub fn checkpoint_active(&self) -> (actions: Vec<StoreAction>)
        ensures
            views(actions@) == match self@.active_id {
                Some(id) => self@.checkpoint_of(id),
                None => Seq::empty(),
            },
    {
        let mut actions: Vec<StoreAction> = Vec::new();
        match &self.active_id {
            Some(id) => {
                let k: usize = self.cached_at(id.as_str());
                if k < self.cache.len() {
                    assert(self@.cache[k as int] == self.cache@[k as int]@);
                    let snapshot = self.cache[k].log.serialize();
                    actions.push(StoreAction::Checkpoint { id: id.clone(), snapshot });
                }
                assert(views(actions@) =~= self@.checkpoint_of(id@));
            },
            None => {
                assert(views(actions@) =~= Seq::empty());
            },
        }
        actions
    }

    /// Notes that something happened in the session in use.
    pub fn touch_active(&mut self, now: u64)
        ensures
            final(self)@ == old(self)@.touched(now),
            old(self)@.wf() ==> final(self)@.wf(),
    {
        proof {
            if self@.wf() {
                law_noting_keeps_order(self@, new_log(self.max_events), now);
            }
        }
        match &self.active_id {
            Some(active) => {
                let id = active.clone();
                let k: usize = self.cached_at(id.as_str());
                if k < self.cache.len() {
                    assert(self@.cache[k as int] == self.cache@[k as int]@);
                    let count: usize = self.cache[k].log.len();
                    let i: usize = self.meta_at(id.as_str());
                    if i < self.sessions.len() {
                        let mut m = self.sessions.get(i).clone();
                        m.event_count = count;
                        m.updated_at = now;
                        m.in_memory = true;
                        proof {
                            lemma_meta_index(self@.sessions, id@, 0);
                        }
                        self.sessions.put(m);
                    }
                }
            },
            None => {},
        }
    }

    /// How many sessions there are.
    pub fn len(&self) -> (r: usize)
        ensures
            r == self@.sessions.len(),
    {
        self.sessions.len()
    }

    /// How many logs are in memory.
    pub fn cached_len(&self) -> (r: usize)
        ensures
            r == self@.cache.len(),
    {
        self.cache.len()
    }

    /// The index, to be written down.
    pub fn index(&self) -> (r: &Vec<SessionMeta>)
        ensures
            views(r@) == self@.sessions,
            index_distinct(self@.sessions),
    {
        proof {
            use_type_invariant(&self.sessions);
        }
        &self.sessions.entries
    }

    /// Takes the log of the session in use out, to be given back with `return_session`.
    pub fn take_active(&mut self) -> (r: Option<SessionLog>)
        ensures
            opt_view(r) == old(self)@.active_log(),
            final(self)@ == old(self)@.taken(),
            old(self)@.wf() ==> final(self)@.wf(),
    {
        proof {
            if self@.wf() {
                law_lending_keeps_order(self@, new_log(self.max_events), 0);
            }
        }
        match &self.active_id {
            Some(active) => {
                let id = active.clone();
                match self.drop_log(id.as_str()) {
                    Some(c) => Some(c.log),
                    None => None,
                }
            },
            None => None,
        }
    }

    /// Takes back the log of the session in use.
    pub fn return_session(&mut self, log: SessionLog, now: u64) -> (actions: Vec<StoreAction>)
        ensures
            final(self)@ == old(self)@.given_back(log@, now),
            views(actions@) == match old(self)@.active_id {
                Some(_) => seq![StoreActionV::SaveIndex],
                None => Seq::empty(),
            },
            old(self)@.wf() ==> final(self)@.wf(),
    {
        proof {
            if self@.wf() {
                law_lending_keeps_order(self@, log@, now);
            }
        }
        let mut actions: Vec<StoreAction> = Vec::new();
        match &self.active_id {
            Some(active) => {
                let id = active.clone();
                let k: usize = self.cached_at(id.as_str());
                let entry = CachedLog { id, log };
                let ghost ev = entry@;
                if k < self.cache.len() {
                    self.cache.set(k, entry);
                } else {
                    self.cache.push(entry);
                }
                assert(views(self.cache@) =~= cached_with(old(self)@.cache, ev));
                self.touch_active(now);
                actions.push(StoreAction::SaveIndex);
                assert(views(actions@) =~= seq![StoreActionV::SaveIndex]);
            },
            None => {
                assert(views(actions@) =~= Seq::empty());
            },
        }
        actions
    }
}

/// The name of a new session: the time in hexadecimal and, after it, a number that is to tell apart
/// sessions of one time.
pub open spec fn session_id(millis: u64, suffix: u32) -> Seq<char> {
    hex(millis as nat) + zero_padded(hex(suffix as nat), 4)
}

/// The name of a new session.
pub fn generate_session_id(millis: u64, suffix: u32) -> (r: String)
    ensures
        r@ == session_id(millis, suffix),
{
    let mut id = hex_text(millis);
    let tail = hex4_text(suffix as u64);
    id.push_str(tail.as_str());
    id
}

/// The name of the file in which the log of a session is written down.
pub fn session_file(id: &str) -> (r: String)
    ensures
        r@ == "session-"@ + id@ + ".bin"@,
{
    let mut name = "session-".to_owned();
    name.push_str(id);
    name.push_str(".bin");
    name
}

/// The name of the file in which the index is written down.
pub fn index_file() -> (r: &'static str)
    ensures
        r@ == "session-index.bin"@,
{
    "session-index.bin"
}

/// Whether no session has two logs in memory.
pub open spec fn cache_distinct(s: Seq<CachedLogV>) -> bool {
    forall|i: int, j: int| 0 <= i < j < s.len() ==> (#[trigger] s[i]).id != (#[trigger] s[j]).id
}

/// After logs have gone there are no more than may be, as long as no session has two logs in
/// memory, and that of the session in use has not gone.
pub proof fn law_cache_is_bounded(m: ManagerV)
    requires
        cache_distinct(m.cache),
    ensures
        m.evicted().0.cache.len() <= CACHE_CAPACITY,
        m.evicted().0.active_id == m.active_id,
        m.active_log() is Some ==> m.evicted().0.active_log() == m.active_log(),
    decreases m.cache.len(),
{
    if m.cache.len() > CACHE_CAPACITY {
        lemma_victim(m, m.cache.len());
        match m.victim(m.cache.len()) {
            None => {
                assert(m.cache[0].id == m.cache[1].id);
                assert(false);
            },
            Some(k) => {
                let gone = m.cache[k];
                let rest = ManagerV { cache: m.cache.remove(k), ..m }.marked(gone.id, false);
                assert(rest.cache == m.cache.remove(k));
                assert forall|i: int, j: int|
                    0 <= i < j < rest.cache.len() implies (#[trigger] rest.cache[i]).id != (
                #[trigger] rest.cache[j]).id by {
                    let a = if i < k {
                        i
                    } else {
                        i + 1
                    };
                    let b = if j < k {
                        j
                    } else {
                        j + 1
                    };
                    assert(rest.cache[i] == m.cache[a]);
                    assert(rest.cache[j] == m.cache[b]);
                }
                if m.active_log() is Some {
                    let id = m.active_id->0;
                    lemma_cache_index(m.cache, id, 0);
                    lemma_cache_index(rest.cache, id, 0);
                    let p = cache_index(m.cache, id, 0);
                    let q = if p < k {
                        p
                    } else {
                        p - 1
                    };
                    assert(rest.cache[q] == m.cache[p]);
                    let found = cache_index(rest.cache, id, 0);
                    if found < q {
                        assert(rest.cache[found].id == id);
                    }
                    assert(found == q);
                }
                law_cache_is_bounded(rest);
            },
        }
    }
}

/// What `cache_index` gives: the least position from `i` on, or the length.
proof fn lemma_cache_index(s: Seq<CachedLogV>, id: Seq<char>, i: int)
    requires
        0 <= i <= s.len(),
    ensures
        i <= cache_index(s, id, i) <= s.len(),
        cache_index(s, id, i) < s.len() ==> s[cache_index(s, id, i)].id == id,
        forall|j: int| i <= j < cache_index(s, id, i) ==> (#[trigger] s[j]).id != id,
    decreases s.len() - i,
{
    if i < s.len() && s[i].id != id {
        lemma_cache_index(s, id, i + 1);
    }
}

/// Sessions are listed by when something last happened in them, the latest first. Each of them is
/// listed once, and the one in use, and no other, is marked so.
pub proof fn law_sessions_listed_by_recency(s: Seq<SessionMetaV>, active: Option<Seq<char>>)
    requires
        index_distinct(s),
    ensures
        in_order(sorted_by(with_active(s, active), later_first()), later_first()),
        sorted_by(with_active(s, active), later_first()).len() == s.len(),
        sorted_by(with_active(s, active), later_first()).to_multiset() == with_active(
            s,
            active,
        ).to_multiset(),
        index_distinct(sorted_by(with_active(s, active), later_first())),
        forall|i: int|
            0 <= i < s.len() ==> (#[trigger] sorted_by(
                with_active(s, active),
                later_first(),
            )[i]).is_active == (active == Some(
                sorted_by(with_active(s, active), later_first())[i].id,
            )),
{
    let all = with_active(s, active);
    let r = sorted_by(all, later_first());
    assert(is_order(later_first()));
    law_sorting_orders(all, later_first());
    assert forall|i: int, j: int| 0 <= i < j < all.len() implies (#[trigger] all[i]).id != (
    #[trigger] all[j]).id by {
        assert(all[i].id == s[i].id && all[j].id == s[j].id);
    }
    lemma_sorted_distinct(all);
    assert forall|i: int| 0 <= i < s.len() implies (#[trigger] r[i]).is_active == (active == Some(
        r[i].id,
    )) by {
        assert(all.contains(r[i]));
        let j = choose|j: int| 0 <= j < all.len() && all[j] == r[i];
        assert(all[j].is_active == (active == Some(s[j].id)));
    }
}

/// Where a session is put in its place, the list holds it and what it held, and none twice.
proof fn lemma_inserted_distinct(s: Seq<SessionMetaV>, x: SessionMetaV)
    requires
        index_distinct(s),
        forall|i: int| 0 <= i < s.len() ==> (#[trigger] s[i]).id != x.id,
    ensures
        index_distinct(insert_by(s, x, later_first())),
        forall|i: int|
            0 <= i < insert_by(s, x, later_first()).len() ==> (#[trigger] insert_by(
                s,
                x,
                later_first(),
            )[i]) == x || s.contains(insert_by(s, x, later_first())[i]),
    decreases s.len(),
{
    let r = insert_by(s, x, later_first());
    if s.len() == 0 || later_first()(s.last(), x) {
        assert forall|i: int| 0 <= i < r.len() implies (#[trigger] r[i]) == x || s.contains(
            r[i],
        ) by {
            if i < s.len() {
                assert(r[i] == s[i]);
            }
        }
    } else {
        let front = s.drop_last();
        assert forall|i: int| 0 <= i < front.len() implies (#[trigger] front[i]).id != x.id by {
            assert(front[i] == s[i]);
        }
        assert forall|i: int, j: int| 0 <= i < j < front.len() implies (#[trigger] front[i]).id
            != (#[trigger] front[j]).id by {
            assert(front[i] == s[i] && front[j] == s[j]);
        }
        lemma_inserted_distinct(front, x);
        let mid = insert_by(front, x, later_first());
        assert(r == mid.push(s.last()));
        assert forall|i: int| 0 <= i < mid.len() implies (#[trigger] mid[i]).id != s.last().id && (
        mid[i] == x || s.contains(mid[i])) by {
            if mid[i] != x {
                let k = choose|k: int| 0 <= k < front.len() && front[k] == mid[i];
                assert(front[k] == s[k]);
                assert(s[s.len() - 1] == s.last());
            } else {
                assert(s[s.len() - 1].id != x.id);
            }
        }
        assert forall|i: int| 0 <= i < r.len() implies (#[trigger] r[i]) == x || s.contains(
            r[i],
        ) by {
            if i < mid.len() {
                assert(r[i] == mid[i]);
            } else {
                assert(r[i] == s[s.len() - 1]);
            }
        }
        assert forall|i: int, j: int| 0 <= i < j < r.len() implies (#[trigger] r[i]).id != (
        #[trigger] r[j]).id by {
            assert(r[i] == mid[i]);
            if j < mid.len() {
                assert(r[j] == mid[j]);
            }
        }
    }
}

/// Sorting brings no session in twice and none that was not there.
proof fn lemma_sorted_distinct(s: Seq<SessionMetaV>)
    requires
        index_distinct(s),
    ensures
        index_distinct(sorted_by(s, later_first())),
        forall|i: int|
            0 <= i < sorted_by(s, later_first()).len() ==> s.contains(
                #[trigger] sorted_by(s, later_first())[i],
            ),
    decreases s.len(),
{
    if s.len() > 0 {
        let front = s.drop_last();
        assert forall|i: int, j: int| 0 <= i < j < front.len() implies (#[trigger] front[i]).id
            != (#[trigger] front[j]).id by {
            assert(front[i] == s[i] && front[j] == s[j]);
        }
        lemma_sorted_distinct(front);
        let mid = sorted_by(front, later_first());
        assert forall|i: int| 0 <= i < mid.len() implies (#[trigger] mid[i]).id != s.last().id
            && s.contains(mid[i]) by {
            assert(front.contains(mid[i]));
            let k = choose|k: int| 0 <= k < front.len() && front[k] == mid[i];
            assert(front[k] == s[k]);
            assert(s[s.len() - 1] == s.last());
        }
        lemma_inserted_distinct(mid, s.last());
        let r = sorted_by(s, later_first());
        assert forall|i: int| 0 <= i < r.len() implies s.contains(#[trigger] r[i]) by {
            assert(r[i] == s.last() || mid.contains(r[i]));
            if r[i] == s.last() {
                assert(s[s.len() - 1] == r[i]);
            } else {
                let k = choose|k: int| 0 <= k < mid.len() && mid[k] == r[i];
                assert(s.contains(mid[k]));
            }
        }
    }
}

/// One more session in the index, in the place of another of its name: none is there twice, the one
/// is there, and of the others the same are there as before.
proof fn lemma_indexed_distinct(s: Seq<SessionMetaV>, m: SessionMetaV)
    requires
        index_distinct(s),
    ensures
        index_distinct(indexed_with(s, m)),
        meta_index(indexed_with(s, m), m.id, 0) == meta_index(s, m.id, 0),
        meta_index(indexed_with(s, m), m.id, 0) < indexed_with(s, m).len(),
        indexed_with(s, m)[meta_index(s, m.id, 0)] == m,
        forall|id: Seq<char>|
            id != m.id ==> {
                &&& (#[trigger] meta_index(indexed_with(s, m), id, 0) < indexed_with(s, m).len())
                    == (meta_index(s, id, 0) < s.len())
                &&& meta_index(s, id, 0) < s.len() ==> meta_index(indexed_with(s, m), id, 0)
                    == meta_index(s, id, 0)
            },
{
    let t = indexed_with(s, m);
    lemma_meta_index(s, m.id, 0);
    lemma_meta_index(t, m.id, 0);
    let at = meta_index(s, m.id, 0);
    assert(t[at] == m);
    assert(meta_index(t, m.id, 0) == at) by {
        let f = meta_index(t, m.id, 0);
        if f < at {
            assert(t[f] == s[f]);
        }
    }
    assert forall|i: int, j: int| 0 <= i < j < t.len() implies (#[trigger] t[i]).id != (
    #[trigger] t[j]).id by {
        if i != at {
            assert(t[i] == s[i]);
        }
        if j != at {
            assert(t[j] == s[j]);
        }
    }
    assert forall|id: Seq<char>| id != m.id implies {
        &&& (#[trigger] meta_index(t, id, 0) < t.len()) == (meta_index(s, id, 0) < s.len())
        &&& meta_index(s, id, 0) < s.len() ==> meta_index(t, id, 0) == meta_index(s, id, 0)
    } by {
        lemma_meta_index(s, id, 0);
        lemma_meta_index(t, id, 0);
        let f = meta_index(s, id, 0);
        let g = meta_index(t, id, 0);
        if f < s.len() {
            assert(t[f] == s[f]);
            if g < f {
                assert(t[g] == s[g]);
            }
        } else if g < t.len() {
            assert(g != at);
            assert(t[g] == s[g]);
        }
    }
}

/// One session less in the index: none is there twice, and of the others the same are there.
proof fn lemma_index_removed(s: Seq<SessionMetaV>, k: int)
    requires
        index_distinct(s),
        0 <= k < s.len(),
    ensures
        index_distinct(s.remove(k)),
        meta_index(s.remove(k), s[k].id, 0) == s.remove(k).len(),
        forall|id: Seq<char>|
            id != s[k].id ==> (#[trigger] meta_index(s.remove(k), id, 0) < s.remove(k).len()) == (
            meta_index(s, id, 0) < s.len()),
{
    let r = s.remove(k);
    assert forall|i: int| 0 <= i < r.len() implies #[trigger] r[i] == s[if i < k {
        i
    } else {
        i + 1
    }] by {}
    lemma_meta_index(r, s[k].id, 0);
    assert forall|id: Seq<char>| id != s[k].id implies (#[trigger] meta_index(r, id, 0) < r.len())
        == (meta_index(s, id, 0) < s.len()) by {
        lemma_meta_index(s, id, 0);
        lemma_meta_index(r, id, 0);
        let p = meta_index(s, id, 0);
        if p < s.len() {
            assert(r[if p < k {
                p
            } else {
                p - 1
            }] == s[p]);
        }
        let q = meta_index(r, id, 0);
        if q < r.len() {
            assert(r[q] == s[if q < k {
                q
            } else {
                q + 1
            }]);
        }
    }
}

/// Changing the entry of a session, but not its name, changes neither which sessions there are nor
/// where they stand.
proof fn lemma_with_meta(m: ManagerV, id: Seq<char>, e: SessionMetaV)
    requires
        e.id == id,
    ensures
        m.with_meta(id, e).sessions.len() == m.sessions.len(),
        m.with_meta(id, e).cache == m.cache,
        m.with_meta(id, e).active_id == m.active_id,
        m.with_meta(id, e).max_events == m.max_events,
        index_distinct(m.sessions) ==> index_distinct(m.with_meta(id, e).sessions),
        forall|other: Seq<char>|
            #[trigger] meta_index(m.with_meta(id, e).sessions, other, 0) == meta_index(
                m.sessions,
                other,
                0,
            ),
        forall|i: int|
            0 <= i < m.sessions.len() ==> (#[trigger] m.with_meta(id, e).sessions[i]).id
                == m.sessions[i].id,
{
    let s = m.sessions;
    let t = m.with_meta(id, e).sessions;
    lemma_meta_index(s, id, 0);
    assert forall|i: int| 0 <= i < s.len() implies (#[trigger] t[i]).id == s[i].id by {}
    assert forall|other: Seq<char>|
        #[trigger] meta_index(t, other, 0) == meta_index(s, other, 0) by {
        lemma_meta_index(s, other, 0);
        lemma_meta_index(t, other, 0);
        let f = meta_index(s, other, 0);
        let g = meta_index(t, other, 0);
        if f < s.len() {
            assert(t[f].id == s[f].id);
        }
        if g < t.len() {
            assert(t[g].id == s[g].id);
        }
        if f < g {
            assert(t[f].id != other);
        }
        if g < f {
            assert(s[g].id != other);
        }
    }
}

/// Logs that go change nothing of the index but whether they are in memory, and the actions are to
/// write down some of the logs.
proof fn lemma_evicted(m: ManagerV)
    ensures
        m.evicted().0.sessions.len() == m.sessions.len(),
        m.evicted().0.active_id == m.active_id,
        m.evicted().0.max_events == m.max_events,
        index_distinct(m.sessions) ==> index_distinct(m.evicted().0.sessions),
        forall|id: Seq<char>|
            #[trigger] meta_index(m.evicted().0.sessions, id, 0) == meta_index(m.sessions, id, 0),
        forall|i: int|
            0 <= i < m.sessions.len() ==> #[trigger] m.evicted().0.sessions[i] == (SessionMetaV {
                in_memory: m.evicted().0.sessions[i].in_memory,
                ..m.sessions[i]
            }),
        forall|j: int|
            0 <= j < m.evicted().1.len() ==> saves_one_of(m.cache, #[trigger] m.evicted().1[j]),
        forall|c: CachedLogV| #[trigger] m.evicted().0.cache.contains(c) ==> m.cache.contains(c),
    decreases m.cache.len(),
{
    if m.cache.len() > CACHE_CAPACITY {
        lemma_victim(m, m.cache.len());
        match m.victim(m.cache.len()) {
            None => {},
            Some(k) => {
                let gone = m.cache[k];
                let less = ManagerV { cache: m.cache.remove(k), ..m };
                let rest = less.marked(gone.id, false);
                lemma_meta_index(m.sessions, gone.id, 0);
                if less.knows(gone.id) {
                    lemma_with_meta(
                        less,
                        gone.id,
                        SessionMetaV { in_memory: false, ..less.meta(gone.id) },
                    );
                }
                lemma_evicted(rest);
                let acts = m.evicted().1;
                assert(rest.cache == m.cache.remove(k));
                assert forall|c: CachedLogV| rest.cache.contains(c) implies m.cache.contains(
                    c,
                ) by {
                    let i = choose|i: int| 0 <= i < rest.cache.len() && rest.cache[i] == c;
                    assert(m.cache[if i < k {
                        i
                    } else {
                        i + 1
                    }] == c);
                }
                assert forall|j: int| 0 <= j < acts.len() implies saves_one_of(
                    m.cache,
                    #[trigger] acts[j],
                ) by {
                    if j == 0 {
                        assert(m.cache[k] == gone);
                    } else {
                        assert(acts[j] == rest.evicted().1[j - 1]);
                        assert(saves_one_of(rest.cache, rest.evicted().1[j - 1]));
                        let i = choose|i: int|
                            0 <= i < rest.cache.len() && saves(#[trigger] rest.cache[i], acts[j]);
                        assert(m.cache.contains(rest.cache[i]));
                        let h = choose|h: int|
                            0 <= h < m.cache.len() && m.cache[h] == rest.cache[i];
                        assert(saves(m.cache[h], acts[j]));
                    }
                }
                assert forall|i: int| 0 <= i < m.sessions.len() implies
                    #[trigger] m.evicted().0.sessions[i] == (SessionMetaV {
                    in_memory: m.evicted().0.sessions[i].in_memory,
                    ..m.sessions[i]
                }) by {
                    assert(rest.evicted().0.sessions[i] == (SessionMetaV {
                        in_memory: rest.evicted().0.sessions[i].in_memory,
                        ..rest.sessions[i]
                    }));
                }
            },
        }
    }
}

/// Whether an action is to write down a log.
pub open spec fn saves(c: CachedLogV, a: StoreActionV) -> bool {
    a == (StoreActionV::Checkpoint { id: c.id, snapshot: snapshot_of(c.log) })
}

/// Whether an action is to write down one of some logs.
pub open spec fn saves_one_of(s: Seq<CachedLogV>, a: StoreActionV) -> bool {
    exists|i: int| 0 <= i < s.len() && saves(#[trigger] s[i], a)
}

/// A log that leaves memory to make room is written down before: what is lost from memory is found
/// among the actions.
pub proof fn law_nothing_leaves_unsaved(m: ManagerV, k: int)
    requires
        cache_distinct(m.cache),
        0 <= k < m.cache.len(),
    ensures
        m.evicted().0.holds(m.cache[k].id) || m.evicted().1.contains(
            StoreActionV::Checkpoint {
                id: m.cache[k].id,
                snapshot: snapshot_of(m.cache[k].log),
            },
        ),
    decreases m.cache.len(),
{
    let c = m.cache[k];
    if m.cache.len() <= CACHE_CAPACITY {
        lemma_cache_index(m.cache, c.id, 0);
    } else {
        lemma_victim(m, m.cache.len());
        match m.victim(m.cache.len()) {
            None => {
                lemma_cache_index(m.cache, c.id, 0);
            },
            Some(v) => {
                let gone = m.cache[v];
                let rest = ManagerV { cache: m.cache.remove(v), ..m }.marked(gone.id, false);
                let head = StoreActionV::Checkpoint {
                    id: gone.id,
                    snapshot: snapshot_of(gone.log),
                };
                let acts = seq![head] + rest.evicted().1;
                if v == k {
                    assert(acts[0] == head);
                } else {
                    assert forall|i: int, j: int|
                        0 <= i < j < rest.cache.len() implies (#[trigger] rest.cache[i]).id != (
                    #[trigger] rest.cache[j]).id by {
                        let a = if i < v {
                            i
                        } else {
                            i + 1
                        };
                        let b = if j < v {
                            j
                        } else {
                            j + 1
                        };
                        assert(rest.cache[i] == m.cache[a]);
                        assert(rest.cache[j] == m.cache[b]);
                    }
                    let q = if k < v {
                        k
                    } else {
                        k - 1
                    };
                    assert(rest.cache[q] == c);
                    law_nothing_leaves_unsaved(rest, q);
                    let want = StoreActionV::Checkpoint {
                        id: c.id,
                        snapshot: snapshot_of(c.log),
                    };
                    if rest.evicted().1.contains(want) {
                        let i = choose|i: int|
                            0 <= i < rest.evicted().1.len() && rest.evicted().1[i] == want;
                        assert(acts[i + 1] == want);
                    }
                }
            },
        }
    }
}

/// What `meta_index` gives: the least position from `i` on, or the length.
proof fn lemma_meta_index(s: Seq<SessionMetaV>, id: Seq<char>, i: int)
    requires
        0 <= i <= s.len(),
    ensures
        i <= meta_index(s, id, i) <= s.len(),
        meta_index(s, id, i) < s.len() ==> s[meta_index(s, id, i)].id == id,
        forall|j: int| i <= j < meta_index(s, id, i) ==> (#[trigger] s[j]).id != id,
    decreases s.len() - i,
{
    if i < s.len() && s[i].id != id {
        lemma_meta_index(s, id, i + 1);
    }
}

/// A log stays in memory where that of another session goes, and no session has two logs then.
proof fn lemma_log_gone(s: Seq<CachedLogV>, k: int)
    requires
        cache_distinct(s),
        0 <= k < s.len(),
    ensures
        cache_distinct(s.remove(k)),
        cache_index(s.remove(k), s[k].id, 0) == s.remove(k).len(),
        forall|id: Seq<char>|
            id != s[k].id && cache_index(s, id, 0) < s.len() ==> #[trigger] cache_index(
                s.remove(k),
                id,
                0,
            ) < s.remove(k).len(),
{
    let r = s.remove(k);
    assert forall|i: int| 0 <= i < r.len() implies #[trigger] r[i] == s[if i < k {
        i
    } else {
        i + 1
    }] by {}
    lemma_cache_index(r, s[k].id, 0);
    assert forall|id: Seq<char>|
        id != s[k].id && cache_index(s, id, 0) < s.len() implies #[trigger] cache_index(r, id, 0)
        < r.len() by {
        lemma_cache_index(s, id, 0);
        lemma_cache_index(r, id, 0);
        let p = cache_index(s, id, 0);
        let q = if p < k {
            p
        } else {
            p - 1
        };
        assert(r[q] == s[p]);
    }
}

/// The logs with one more: no session has two, and the one is in memory.
proof fn lemma_log_added(s: Seq<CachedLogV>, c: CachedLogV)
    requires
        cache_distinct(s),
    ensures
        cache_distinct(cached_with(s, c)),
        cache_index(cached_with(s, c), c.id, 0) < cached_with(s, c).len(),
        cached_with(s, c)[cache_index(cached_with(s, c), c.id, 0)] == c,
{
    let k = cache_index(s, c.id, 0);
    let r = cached_with(s, c);
    lemma_cache_index(s, c.id, 0);
    lemma_cache_index(r, c.id, 0);
    assert(r[k] == c);
    assert(cache_index(r, c.id, 0) == k) by {
        let f = cache_index(r, c.id, 0);
        if f < k {
            assert(r[f] == s[f]);
        }
        if f > k {
            assert(r[k].id != c.id);
        }
    }
}

/// After logs have gone, no session has two.
proof fn lemma_evicted_distinct(m: ManagerV)
    requires
        cache_distinct(m.cache),
    ensures
        cache_distinct(m.evicted().0.cache),
    decreases m.cache.len(),
{
    if m.cache.len() > CACHE_CAPACITY {
        lemma_victim(m, m.cache.len());
        match m.victim(m.cache.len()) {
            None => {},
            Some(k) => {
                lemma_log_gone(m.cache, k);
                lemma_evicted_distinct(
                    ManagerV { cache: m.cache.remove(k), ..m }.marked(m.cache[k].id, false),
                );
            },
        }
    }
}

/// An index that was written down is read again as it was, but that no log is in memory.
pub proof fn law_index_is_read_again(s: Seq<SessionMetaV>)
    requires
        index_distinct(s),
    ensures
        indexed(unloaded(s)) == unloaded(s),
    decreases s.len(),
{
    let all = unloaded(s);
    if s.len() > 0 {
        let front = s.drop_last();
        assert forall|i: int, j: int| 0 <= i < j < front.len() implies (#[trigger] front[i]).id
            != (#[trigger] front[j]).id by {
            assert(front[i] == s[i] && front[j] == s[j]);
        }
        law_index_is_read_again(front);
        assert(unloaded(front) =~= all.drop_last());
        let last = all.last();
        lemma_meta_index(all.drop_last(), last.id, 0);
        let k = meta_index(all.drop_last(), last.id, 0);
        if k < front.len() {
            assert(all.drop_last()[k].id == s[k].id);
            assert(last.id == s[s.len() - 1].id);
        }
        assert(all.drop_last().push(last) =~= all);
    } else {
        assert(indexed(all) =~= all);
    }
}

/// Making a session keeps everything in order, whenever it is made. It is in use then, and its log
/// is in memory and without events; the other sessions stay in the index.
pub proof fn law_creating_keeps_order(m: ManagerV, id: Seq<char>, title: Seq<char>, now: u64)
    requires
        m.wf(),
    ensures
        m.created(id, title, now).0.wf(),
        m.created(id, title, now).0.knows(id),
        m.created(id, title, now).0.active_id == Some(id),
        m.created(id, title, now).0.active_log() == Some(new_log(m.max_events)),
        m.created(id, title, now).0.meta(id).title == title,
        !m.knows(id) ==> m.created(id, title, now).0.sessions.len() == m.sessions.len() + 1,
        forall|other: Seq<char>|
            other != id && m.knows(other) ==> {
                &&& #[trigger] m.created(id, title, now).0.knows(other)
                &&& m.created(id, title, now).0.meta(other) == (SessionMetaV {
                    in_memory: m.created(id, title, now).0.meta(other).in_memory,
                    ..m.meta(other)
                })
            },
{
    let meta = SessionMetaV {
        id,
        title,
        event_count: 0,
        created_at: now,
        updated_at: now,
        in_memory: true,
        is_active: true,
    };
    let c = CachedLogV { id, log: new_log(m.max_events) };
    let with = ManagerV {
        sessions: indexed_with(m.sessions, meta),
        cache: cached_with(m.cache, c),
        active_id: Some(id),
        ..m
    };
    lemma_log_added(m.cache, c);
    lemma_indexed_distinct(m.sessions, meta);
    lemma_meta_index(m.sessions, id, 0);
    lemma_evicted_distinct(with);
    law_cache_is_bounded(with);
    lemma_evicted(with);
    let after = with.evicted().0;
    assert(m.created(id, title, now).0 == after);
    assert forall|other: Seq<char>| other != id && m.knows(other) implies {
        &&& #[trigger] after.knows(other)
        &&& after.meta(other) == (SessionMetaV {
            in_memory: after.meta(other).in_memory,
            ..m.meta(other)
        })
    } by {
        lemma_meta_index(m.sessions, other, 0);
        let f = meta_index(m.sessions, other, 0);
        assert(meta_index(with.sessions, other, 0) == f);
        assert(with.sessions[f] == m.sessions[f]);
    }
}

/// Using another session keeps everything in order; it is in use then, with the log that it had in
/// memory or the one that was loaded.
pub proof fn law_switching_keeps_order(
    m: ManagerV,
    id: Seq<char>,
    loaded: SessionLogV,
    now: u64,
)
    requires
        m.wf(),
        m.knows(id),
    ensures
        m.switched(id, Some(loaded), now).0.wf(),
        m.switched(id, None, now).0.wf(),
        m.switched(id, Some(loaded), now).0.active_id == Some(id),
        m.switched(id, Some(loaded), now).0.active_log() == Some(
            if m.holds(id) {
                m.cache[cache_index(m.cache, id, 0)].log
            } else {
                loaded
            },
        ),
{
    lemma_switched(m, id, Some(loaded), now);
    lemma_switched(m, id, None, now);
}

proof fn lemma_switched(m: ManagerV, id: Seq<char>, loaded: Option<SessionLogV>, now: u64)
    requires
        m.wf(),
        m.knows(id),
    ensures
        m.switched(id, loaded, now).0.wf(),
        m.switched(id, loaded, now).0.active_id == Some(id),
        m.switched(id, loaded, now).0.active_log() is Some,
        m.switched(id, loaded, now).0.max_events == m.max_events,
        forall|other: Seq<char>|
            #[trigger] m.switched(id, loaded, now).0.knows(other) == m.knows(other),
        forall|c: CachedLogV|
            #[trigger] m.switched(id, loaded, now).0.cache.contains(c) && c.id != id
                ==> m.cache.contains(c),
        forall|j: int|
            0 <= j < m.switched(id, loaded, now).1.len() && (
            #[trigger] m.switched(id, loaded, now).1[j] matches StoreActionV::Checkpoint {
                id: at,
                ..
            } && at != id) ==> saves_one_of(m.cache, m.switched(id, loaded, now).1[j]),
        m.holds(id) ==> m.switched(id, loaded, now).0.active_log() == Some(
            m.cache[cache_index(m.cache, id, 0)].log,
        ),
        !m.holds(id) && loaded is Some ==> m.switched(id, loaded, now).0.active_log() == loaded,
{
    let c = CachedLogV {
        id,
        log: match loaded {
            Some(log) => log,
            None => new_log(m.max_events),
        },
    };
    lemma_cache_index(m.cache, id, 0);
    let with = ManagerV {
        cache: if m.holds(id) {
            m.cache
        } else {
            m.cache.push(c)
        },
        active_id: Some(id),
        ..m
    };
    if !m.holds(id) {
        lemma_log_added(m.cache, c);
        assert(cached_with(m.cache, c) == m.cache.push(c));
    }
    lemma_evicted_distinct(with);
    law_cache_is_bounded(with);
    lemma_evicted(with);
    let after = with.evicted().0;
    lemma_meta_index(after.sessions, id, 0);
    lemma_with_meta(
        after,
        id,
        SessionMetaV { in_memory: true, updated_at: now, ..after.meta(id) },
    );
    let r = m.switched(id, loaded, now);
    assert forall|d: CachedLogV| with.cache.contains(d) && d.id != id implies m.cache.contains(
        d,
    ) by {
        let i = choose|i: int| 0 <= i < with.cache.len() && with.cache[i] == d;
        if !m.holds(id) {
            assert(i < m.cache.len());
        }
        assert(m.cache[i] == d);
    }
    let saved = match m.active_id {
        Some(old_id) => if old_id != id {
            m.checkpoint_of(old_id)
        } else {
            Seq::empty()
        },
        None => Seq::empty(),
    };
    assert forall|j: int|
        0 <= j < r.1.len() && (#[trigger] r.1[j] matches StoreActionV::Checkpoint { id: at, .. }
            && at != id) implies saves_one_of(m.cache, r.1[j]) by {
        if j < saved.len() {
            let old_id = m.active_id->0;
            lemma_cache_index(m.cache, old_id, 0);
            assert(saves(m.cache[cache_index(m.cache, old_id, 0)], r.1[j]));
        } else {
            assert(r.1[j] == with.evicted().1[j - saved.len()]);
            assert(saves_one_of(with.cache, with.evicted().1[j - saved.len()]));
            let i = choose|i: int|
                0 <= i < with.cache.len() && saves(#[trigger] with.cache[i], r.1[j]);
            assert(with.cache.contains(with.cache[i]));
            let h = choose|h: int| 0 <= h < m.cache.len() && m.cache[h] == with.cache[i];
            assert(saves(m.cache[h], r.1[j]));
        }
    }
}

/// A session that is left for another and used again later has the messages that it had, as long as
/// it has no more events than a log that is read may have. Where its log went in between, it was
/// written down before, as it was, and is read again.
pub proof fn law_switching_back_keeps_messages(
    m: ManagerV,
    other: Seq<char>,
    loaded: Option<SessionLogV>,
    worked_on: SessionLogV,
    now: u64,
    later: u64,
)
    requires
        m.wf(),
        m.knows(other),
        m.active_id != Some(other),
        m.active_log() is Some,
        m.active_log()->0.events.len() <= m.max_events,
    ensures
        ({
            let id = m.active_id->0;
            let log = m.active_log()->0;
            let (away, actions) = m.switched(other, loaded, now);
            let used = away.with_active_log(worked_on);
            let back = used.switched(
                id,
                Some(restored(snapshot_of(log), used.max_events)),
                later,
            ).0;
            &&& actions.contains(StoreActionV::Checkpoint { id, snapshot: snapshot_of(log) })
            &&& forall|j: int|
                0 <= j < actions.len() && (#[trigger] actions[j] matches StoreActionV::Checkpoint {
                    id: at,
                    ..
                } && at == id) ==> actions[j] == (StoreActionV::Checkpoint {
                    id,
                    snapshot: snapshot_of(log),
                })
            &&& used.active_id == Some(other)
            &&& used.active_log() == Some(worked_on)
            &&& used.cache.len() <= CACHE_CAPACITY
            &&& used.knows(id)
            &&& back.active_id == Some(id)
            &&& back.active_log() is Some
            &&& snapshot_of(back.active_log()->0) == snapshot_of(log)
            &&& derived(back.active_log()->0.events) == derived(log.events)
            &&& back.cache.len() <= CACHE_CAPACITY
        }),
{
    let id = m.active_id->0;
    let log = m.active_log()->0;
    let (away, actions) = m.switched(other, loaded, now);
    let used = away.with_active_log(worked_on);
    lemma_switched(m, other, loaded, now);
    law_noting_keeps_order(away, worked_on, now);
    lemma_cache_index(m.cache, id, 0);
    let p = cache_index(m.cache, id, 0);
    assert(actions[0] == (StoreActionV::Checkpoint { id, snapshot: snapshot_of(log) }));
    assert forall|j: int|
        0 <= j < actions.len() && (#[trigger] actions[j] matches StoreActionV::Checkpoint {
            id: at,
            ..
        } && at == id) implies actions[j] == (StoreActionV::Checkpoint {
        id,
        snapshot: snapshot_of(log),
    }) by {
        assert(saves_one_of(m.cache, actions[j]));
        let i = choose|i: int| 0 <= i < m.cache.len() && saves(#[trigger] m.cache[i], actions[j]);
        assert(m.cache[i].id == m.cache[p].id);
        assert(i == p);
    }
    assert(away.knows(id) == m.knows(id));
    assert(used.knows(id));
    lemma_cache_index(away.cache, other, 0);
    lemma_cache_index(used.cache, other, 0);
    let k = cache_index(away.cache, other, 0);
    assert(used.cache[k].log == worked_on);
    assert(cache_index(used.cache, other, 0) == k) by {
        let f = cache_index(used.cache, other, 0);
        if f < k {
            assert(used.cache[f] == away.cache[f]);
        }
    }
    let read = restored(snapshot_of(log), used.max_events);
    assert(read.events =~= log.events);
    lemma_switched(used, id, Some(read), later);
    lemma_cache_index(used.cache, id, 0);
    if used.holds(id) {
        let q = cache_index(used.cache, id, 0);
        let d = used.cache[q];
        assert(q != k);
        assert(d == away.cache[q]);
        assert(away.cache.contains(d));
        assert(m.cache.contains(d));
        let i = choose|i: int| 0 <= i < m.cache.len() && m.cache[i] == d;
        assert(i == p) by {
            assert(m.cache[i].id == m.cache[p].id);
        }
        assert(d.log == log);
    }
}

/// Giving a session another title keeps everything in order.
pub proof fn law_renaming_keeps_order(m: ManagerV, id: Seq<char>, title: Seq<char>, now: u64)
    requires
        m.wf(),
    ensures
        m.with_meta(id, SessionMetaV { title, updated_at: now, ..m.meta(id) }).wf(),
{
    lemma_meta_index(m.sessions, id, 0);
    if m.knows(id) {
        lemma_with_meta(m, id, SessionMetaV { title, updated_at: now, ..m.meta(id) });
    }
}

/// Noting that something happened in the session in use and changing its log keep everything in
/// order.
pub proof fn law_noting_keeps_order(m: ManagerV, log: SessionLogV, now: u64)
    requires
        m.wf(),
    ensures
        m.touched(now).wf(),
        m.with_active_log(log).wf(),
{
    if m.active_id is Some {
        let a = m.active_id->0;
        lemma_meta_index(m.sessions, a, 0);
        lemma_cache_index(m.cache, a, 0);
        if m.holds(a) {
            let k = cache_index(m.cache, a, 0);
            lemma_with_meta(
                m,
                a,
                SessionMetaV {
                    event_count: m.cache[k].log.events.len() as usize,
                    updated_at: now,
                    in_memory: true,
                    ..m.meta(a)
                },
            );
            let t = m.with_active_log(log).cache;
            assert forall|i: int, j: int| 0 <= i < j < t.len() implies (#[trigger] t[i]).id != (
            #[trigger] t[j]).id by {
                assert(t[i].id == m.cache[i].id && t[j].id == m.cache[j].id);
            }
            lemma_cache_index(t, a, 0);
            assert(t[k].id == a);
        }
    }
}

/// Closing or deleting a session keeps everything in order, and its log is no more in memory.
pub proof fn law_leaving_keeps_order(m: ManagerV, id: Seq<char>)
    requires
        m.wf(),
    ensures
        m.dropped(id).marked(id, false).released(id).wf(),
        m.dropped(id).forgotten(id).released(id).wf(),
        !m.dropped(id).marked(id, false).released(id).holds(id),
        !m.dropped(id).forgotten(id).released(id).holds(id),
        m.dropped(id).released(id).active_id != Some(id),
{
    lemma_cache_index(m.cache, id, 0);
    if m.holds(id) {
        lemma_log_gone(m.cache, cache_index(m.cache, id, 0));
    }
    let d = m.dropped(id);
    if m.active_id is Some && m.active_id != Some(id) {
        let a = m.active_id->0;
        if m.holds(id) && m.holds(a) {
            assert(d.holds(a));
        }
    }
    lemma_meta_index(d.sessions, id, 0);
    if d.knows(id) {
        lemma_with_meta(d, id, SessionMetaV { in_memory: false, ..d.meta(id) });
        lemma_index_removed(d.sessions, meta_index(d.sessions, id, 0));
    }
}

/// Taking the log of the session in use out and giving one back keeps everything in order, and the
/// one that is given back is the log of the session in use.
pub proof fn law_lending_keeps_order(m: ManagerV, log: SessionLogV, now: u64)
    requires
        m.wf(),
    ensures
        m.taken().wf(),
        m.given_back(log, now).wf(),
        m.active_id is Some ==> m.given_back(log, now).active_log() == Some(log),
        m.active_id is Some ==> m.taken().given_back(log, now).active_log() == Some(log),
{
    if m.active_id is Some {
        let id = m.active_id->0;
        let c = CachedLogV { id, log };
        lemma_cache_index(m.cache, id, 0);
        if m.holds(id) {
            lemma_log_gone(m.cache, cache_index(m.cache, id, 0));
        }
        lemma_log_added(m.cache, c);
        lemma_log_added(m.taken().cache, c);
        let back = ManagerV { cache: cached_with(m.cache, c), ..m };
        law_noting_keeps_order(back, log, now);
    }
}

impl ManagerV {
    /// The log of a session, where it is in memory.
    pub open spec fn log_of(self, id: Seq<char>) -> Option<SessionLogV> {
        if self.holds(id) {
            Some(self.cache[cache_index(self.cache, id, 0)].log)
        } else {
            None
        }
    }
}

proof fn lemma_meta_at(s: Seq<SessionMetaV>, i: int)
    requires
        index_distinct(s),
        0 <= i < s.len(),
    ensures
        meta_index(s, s[i].id, 0) == i,
{
    lemma_meta_index(s, s[i].id, 0);
    let k = meta_index(s, s[i].id, 0);
    if k < i {
        assert(s[k].id != s[i].id);
    }
}

proof fn lemma_log_at(s: Seq<CachedLogV>, i: int)
    requires
        cache_distinct(s),
        0 <= i < s.len(),
    ensures
        cache_index(s, s[i].id, 0) == i,
{
    lemma_cache_index(s, s[i].id, 0);
    let k = cache_index(s, s[i].id, 0);
    if k < i {
        assert(s[k].id != s[i].id);
    }
}

proof fn lemma_dropped(m: ManagerV, id: Seq<char>, other: Seq<char>)
    requires
        cache_distinct(m.cache),
        other != id,
    ensures
        m.dropped(id).log_of(other) == m.log_of(other),
        m.dropped(id).log_of(id) is None,
{
    lemma_cache_index(m.cache, id, 0);
    lemma_cache_index(m.cache, other, 0);
    if m.holds(id) {
        let k = cache_index(m.cache, id, 0);
        let r = m.cache.remove(k);
        lemma_log_gone(m.cache, k);
        lemma_cache_index(r, other, 0);
        if m.holds(other) {
            let i = cache_index(m.cache, other, 0);
            let j = if i < k {
                i
            } else {
                i - 1
            };
            assert(r[j] == m.cache[i]);
            lemma_log_at(r, j);
        } else {
            let j = cache_index(r, other, 0);
            if j < r.len() {
                let i = if j < k {
                    j
                } else {
                    j + 1
                };
                assert(r[j] == m.cache[i]);
                assert(m.cache[i].id == other);
                lemma_log_at(m.cache, i);
            }
        }
    }
}

proof fn lemma_forgotten(m: ManagerV, id: Seq<char>, other: Seq<char>)
    requires
        index_distinct(m.sessions),
        other != id,
    ensures
        !m.forgotten(id).knows(id),
        m.forgotten(id).knows(other) <==> m.knows(other),
        m.knows(other) ==> m.forgotten(id).meta(other) == m.meta(other),
{
    lemma_meta_index(m.sessions, id, 0);
    lemma_meta_index(m.sessions, other, 0);
    if m.knows(id) {
        let k = meta_index(m.sessions, id, 0);
        let r = m.sessions.remove(k);
        lemma_index_removed(m.sessions, k);
        assert((meta_index(r, other, 0) < r.len()) == (meta_index(m.sessions, other, 0)
            < m.sessions.len()));
        if m.knows(other) {
            let i = meta_index(m.sessions, other, 0);
            let j = if i < k {
                i
            } else {
                i - 1
            };
            assert(r[j] == m.sessions[i]);
            lemma_meta_at(r, j);
        }
    }
}

/// Renaming a session changes its title and when something last happened in it, and nothing else:
/// no other session, no log, and not which one is active.
pub proof fn law_renaming_changes_the_title(
    m: ManagerV,
    id: Seq<char>,
    title: Seq<char>,
    now: u64,
    other: Seq<char>,
)
    requires
        m.knows(id),
        other != id,
    ensures
        ({
            let r = m.with_meta(id, SessionMetaV { title, updated_at: now, ..m.meta(id) });
            &&& r.knows(id)
            &&& r.meta(id).title == title
            &&& r.meta(id).updated_at == now
            &&& r.meta(id).id == id
            &&& r.meta(id).created_at == m.meta(id).created_at
            &&& r.meta(id).event_count == m.meta(id).event_count
            &&& r.meta(id).in_memory == m.meta(id).in_memory
            &&& r.knows(other) <==> m.knows(other)
            &&& m.knows(other) ==> r.meta(other) == m.meta(other)
            &&& r.cache == m.cache
            &&& r.active_id == m.active_id
        }),
{
    let e = SessionMetaV { title, updated_at: now, ..m.meta(id) };
    lemma_meta_index(m.sessions, id, 0);
    lemma_meta_index(m.sessions, other, 0);
    lemma_with_meta(m, id, e);
    let r = m.with_meta(id, e);
    assert(meta_index(r.sessions, id, 0) == meta_index(m.sessions, id, 0));
    assert(meta_index(r.sessions, other, 0) == meta_index(m.sessions, other, 0));
}

/// After work on the active session the list tells how many events its log holds and when that was;
/// its title stays, and so does everything about the other sessions and all logs.
pub proof fn law_work_is_noted(m: ManagerV, now: u64, other: Seq<char>)
    requires
        m.wf(),
        m.active_log() is Some,
        m.active_log()->0.events.len() <= usize::MAX,
        other != m.active_id->0,
    ensures
        ({
            let id = m.active_id->0;
            let r = m.touched(now);
            &&& r.knows(id)
            &&& r.meta(id).event_count == m.active_log()->0.events.len()
            &&& r.meta(id).updated_at == now
            &&& r.meta(id).title == m.meta(id).title
            &&& r.meta(id).created_at == m.meta(id).created_at
            &&& r.meta(id).in_memory
            &&& r.knows(other) <==> m.knows(other)
            &&& m.knows(other) ==> r.meta(other) == m.meta(other)
            &&& r.cache == m.cache
            &&& r.active_id == m.active_id
        }),
{
    let id = m.active_id->0;
    let e = SessionMetaV {
        event_count: m.cache[cache_index(m.cache, id, 0)].log.events.len() as usize,
        updated_at: now,
        in_memory: true,
        ..m.meta(id)
    };
    lemma_meta_index(m.sessions, id, 0);
    lemma_meta_index(m.sessions, other, 0);
    lemma_with_meta(m, id, e);
    let r = m.touched(now);
    assert(r == m.with_meta(id, e));
    assert(meta_index(r.sessions, id, 0) == meta_index(m.sessions, id, 0));
    assert(meta_index(r.sessions, other, 0) == meta_index(m.sessions, other, 0));
}

/// Closing a session takes its log out of memory, after it was saved, and keeps the session in the
/// list; it is then not active, and no other session and no other log changes.
pub proof fn law_closing_keeps_the_session(m: ManagerV, id: Seq<char>, other: Seq<char>)
    requires
        m.wf(),
        m.knows(id),
        other != id,
    ensures
        ({
            let r = m.dropped(id).marked(id, false).released(id);
            &&& r.knows(id)
            &&& r.meta(id) == (SessionMetaV { in_memory: false, ..m.meta(id) })
            &&& r.log_of(id) is None
            &&& r.active_id != Some(id)
            &&& m.active_id != Some(id) ==> r.active_id == m.active_id
            &&& r.knows(other) <==> m.knows(other)
            &&& m.knows(other) ==> r.meta(other) == m.meta(other)
            &&& r.log_of(other) == m.log_of(other)
        }),
        m.log_of(id) is Some ==> m.checkpoint_of(id) == seq![
            StoreActionV::Checkpoint { id, snapshot: snapshot_of(m.log_of(id)->0) },
        ],
        m.log_of(id) is None ==> m.checkpoint_of(id).len() == 0,
{
    let d = m.dropped(id);
    lemma_dropped(m, id, other);
    lemma_meta_index(m.sessions, id, 0);
    lemma_meta_index(m.sessions, other, 0);
    let e = SessionMetaV { in_memory: false, ..d.meta(id) };
    lemma_with_meta(d, id, e);
    let r = d.marked(id, false);
    assert(meta_index(r.sessions, id, 0) == meta_index(d.sessions, id, 0));
    assert(meta_index(r.sessions, other, 0) == meta_index(d.sessions, other, 0));
}

/// Deleting a session takes it out of the list and its log out of memory; no other session and no
/// other log changes.
pub proof fn law_deleting_forgets_the_session(m: ManagerV, id: Seq<char>, other: Seq<char>)
    requires
        m.wf(),
        other != id,
    ensures
        ({
            let r = m.dropped(id).forgotten(id).released(id);
            &&& !r.knows(id)
            &&& r.log_of(id) is None
            &&& r.active_id != Some(id)
            &&& m.active_id != Some(id) ==> r.active_id == m.active_id
            &&& r.knows(other) <==> m.knows(other)
            &&& m.knows(other) ==> r.meta(other) == m.meta(other)
            &&& r.log_of(other) == m.log_of(other)
        }),
{
    lemma_dropped(m, id, other);
    lemma_forgotten(m.dropped(id), id, other);
}

/// Switching saves the log of the session that was active, notes the time in the one that is, and
/// leaves what the list says of the others, but for whether their logs are in memory.
pub proof fn law_switching_saves_the_old_session(
    m: ManagerV,
    id: Seq<char>,
    loaded: Option<SessionLogV>,
    now: u64,
    other: Seq<char>,
)
    requires
        m.wf(),
        m.knows(id),
        m.active_id is Some,
        m.active_id->0 != id,
        m.active_log() is Some,
        other != id,
    ensures
        ({
            let (r, actions) = m.switched(id, loaded, now);
            &&& actions.contains(
                StoreActionV::Checkpoint {
                    id: m.active_id->0,
                    snapshot: snapshot_of(m.active_log()->0),
                },
            )
            &&& r.active_id == Some(id)
            &&& r.knows(id)
            &&& r.meta(id).updated_at == now
            &&& r.meta(id).title == m.meta(id).title
            &&& r.meta(id).in_memory
            &&& r.knows(other) <==> m.knows(other)
            &&& m.knows(other) ==> r.meta(other).title == m.meta(other).title && r.meta(
                other,
            ).updated_at == m.meta(other).updated_at && r.meta(other).event_count == m.meta(
                other,
            ).event_count
        }),
{
    let with = ManagerV {
        cache: if m.holds(id) {
            m.cache
        } else {
            m.cache.push(
                CachedLogV {
                    id,
                    log: match loaded {
                        Some(log) => log,
                        None => new_log(m.max_events),
                    },
                },
            )
        },
        active_id: Some(id),
        ..m
    };
    let (r, actions) = m.switched(id, loaded, now);
    let after = with.evicted().0;
    lemma_evicted(with);
    lemma_meta_index(m.sessions, id, 0);
    lemma_meta_index(m.sessions, other, 0);
    assert(meta_index(after.sessions, id, 0) == meta_index(m.sessions, id, 0));
    assert(meta_index(after.sessions, other, 0) == meta_index(m.sessions, other, 0));
    let i = meta_index(m.sessions, id, 0);
    assert(after.sessions[i].title == m.sessions[i].title);
    assert(after.sessions[i].id == id);
    let e = SessionMetaV { in_memory: true, updated_at: now, ..after.meta(id) };
    lemma_with_meta(after, id, e);
    assert(meta_index(r.sessions, id, 0) == i);
    assert(meta_index(r.sessions, other, 0) == meta_index(m.sessions, other, 0));
    let saved = m.checkpoint_of(m.active_id->0);
    assert((saved + with.evicted().1)[0] == saved[0]);
    assert(actions[0] == saved[0]);
}

/// When a log has to leave the memory it is never that of the active session, and of the others it
/// is the one in which nothing has happened for longest.
pub proof fn law_the_least_recent_log_leaves(m: ManagerV, i: int)
    requires
        0 <= i < m.cache.len(),
        m.active_id != Some(m.cache[i].id),
    ensures
        m.victim(m.cache.len()) is Some,
        ({
            let k = m.victim(m.cache.len())->0;
            &&& 0 <= k < m.cache.len()
            &&& m.active_id != Some(m.cache[k].id)
            &&& m.stamp(m.cache[k].id) <= m.stamp(m.cache[i].id)
            &&& m.knows(m.cache[k].id) && m.knows(m.cache[i].id) ==> m.meta(
                m.cache[k].id,
            ).updated_at <= m.meta(m.cache[i].id).updated_at
        }),
        m.knows(m.cache[i].id) ==> m.stamp(m.cache[i].id) == m.meta(m.cache[i].id).updated_at,
        !m.knows(m.cache[i].id) ==> m.stamp(m.cache[i].id) == 0,
        m.cache.len() <= 2 ==> m.evicted().0 == m && m.evicted().1.len() == 0,
{
    lemma_victim(m, m.cache.len());
}

/// A new session is active and begins now, with nothing in it.
pub proof fn law_new_sessions_are_empty(m: ManagerV, id: Seq<char>, title: Seq<char>, now: u64)
    requires
        m.wf(),
    ensures
        m.created(id, title, now).0.meta(id).created_at == now,
        m.created(id, title, now).0.meta(id).updated_at == now,
        m.created(id, title, now).0.meta(id).event_count == 0,
        m.created(id, title, now).1.last() is SaveIndex,
        new_log(m.max_events).events.len() == 0,
        new_log(m.max_events).max_in_memory == m.max_events,
        new_log(m.max_events).current_turn == 0,
{
    let meta = SessionMetaV {
        id,
        title,
        event_count: 0,
        created_at: now,
        updated_at: now,
        in_memory: true,
        is_active: true,
    };
    let with = ManagerV {
        sessions: indexed_with(m.sessions, meta),
        cache: cached_with(m.cache, CachedLogV { id, log: new_log(m.max_events) }),
        active_id: Some(id),
        ..m
    };
    lemma_indexed_distinct(m.sessions, meta);
    lemma_evicted(with);
    let r = m.created(id, title, now).0;
    assert(meta_index(r.sessions, id, 0) == meta_index(with.sessions, id, 0));
    let i = meta_index(with.sessions, id, 0);
    lemma_meta_index(with.sessions, id, 0);
    assert(r == with.evicted().0);
    assert(with.sessions[i] == meta);
    assert(r.sessions[i] == (SessionMetaV { in_memory: r.sessions[i].in_memory, ..meta }));
}

/// Handing the log of the active session out and back leaves the other logs where they are.
pub proof fn law_lending_touches_no_other_log(
    m: ManagerV,
    log: SessionLogV,
    now: u64,
    other: Seq<char>,
)
    requires
        m.wf(),
        m.active_id is Some,
        other != m.active_id->0,
    ensures
        m.taken().log_of(other) == m.log_of(other),
        m.taken().log_of(m.active_id->0) is None,
        m.taken().sessions == m.sessions,
        m.taken().active_id == m.active_id,
{
    lemma_dropped(m, m.active_id->0, other);
}

/// Working on the active log changes that log alone: no other log, no session of the list and not
/// which one is active.
pub proof fn law_only_the_active_log_changes(m: ManagerV, log: SessionLogV, other: Seq<char>)
    requires
        m.active_log() is Some,
    ensures
        m.with_active_log(log).active_log() == Some(log),
        m.with_active_log(log).sessions == m.sessions,
        m.with_active_log(log).active_id == m.active_id,
        other != m.active_id->0 ==> m.with_active_log(log).log_of(other) == m.log_of(other),
{
    let id = m.active_id->0;
    let r = m.with_active_log(log);
    lemma_cache_index(m.cache, id, 0);
    lemma_cache_index(r.cache, id, 0);
    lemma_cache_index(m.cache, other, 0);
    lemma_cache_index(r.cache, other, 0);
    let k = cache_index(m.cache, id, 0);
    let j = cache_index(r.cache, id, 0);
    assert(r.cache[k].id == id);
    if j < k {
        assert(r.cache[j] == m.cache[j]);
    }
    assert(j == k);
    if other != id {
        let a = cache_index(m.cache, other, 0);
        let b = cache_index(r.cache, other, 0);
        if a < m.cache.len() {
            assert(r.cache[a] == m.cache[a]);
        }
        if b < r.cache.len() {
            assert(r.cache[b] == m.cache[b]);
        }
    }
}

} // verus!

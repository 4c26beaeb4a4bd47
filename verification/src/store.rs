//! The process-wide session-state stores: string-keyed maps for session
//! definitions, attendance index sets, on-the-day identifier sets, and
//! settings overrides. Each store is a plain read/write map; merge policy
//! lives with the synchronization handlers, not here.

use vstd::prelude::*;
use vstd::pervasive::VecAdditionalExecFns;
use crate::Settings;
use crate::session::Eventstruct;
use crate::session::SessionData;
use crate::trusted::str_eq;

verus! {

/// The map that a sequence of key/value entries denotes: a later entry for a
/// key wins over an earlier one.
pub open spec fn entries_map<V: DeepView>(s: Seq<(String, V)>) -> Map<Seq<char>, V::V>
    decreases s.len(),
{
    if s.len() == 0 {
        Map::empty()
    } else {
        entries_map(s.drop_last()).insert(s.last().0@, s.last().1.deep_view())
    }
}

/// No two entries carry the same key.
pub open spec fn entries_unique<V>(s: Seq<(String, V)>) -> bool {
    forall|i: int, j: int| #![trigger s[i], s[j]] 0 <= i < j < s.len() ==> s[i].0@ != s[j].0@
}

pub(crate) proof fn lemma_entries_map_contains<V: DeepView>(s: Seq<(String, V)>, k: Seq<char>)
    ensures
        entries_map(s).contains_key(k) <==> exists|i: int| 0 <= i < s.len() && s[i].0@ == k,
    decreases s.len(),
{
    if s.len() > 0 {
        lemma_entries_map_contains(s.drop_last(), k);
        if entries_map(s).contains_key(k) && s.last().0@ != k {
            let i = choose|i: int| 0 <= i < s.drop_last().len() && s.drop_last()[i].0@ == k;
            assert(s[i].0@ == k);
        }
        if exists|i: int| 0 <= i < s.len() && s[i].0@ == k {
            let i = choose|i: int| 0 <= i < s.len() && s[i].0@ == k;
            if i < s.len() - 1 {
                assert(s.drop_last()[i].0@ == k);
            }
        }
    }
}

pub(crate) proof fn lemma_entries_map_index<V: DeepView>(s: Seq<(String, V)>, i: int)
    requires
        entries_unique(s),
        0 <= i < s.len(),
    ensures
        entries_map(s).contains_key(s[i].0@),
        entries_map(s)[s[i].0@] == s[i].1.deep_view(),
    decreases s.len(),
{
    if i < s.len() - 1 {
        assert(entries_unique(s.drop_last()));
        lemma_entries_map_index(s.drop_last(), i);
        assert(s.drop_last()[i] == s[i]);
        assert(s[i].0@ != s[s.len() - 1].0@);
    }
}

pub(crate) proof fn lemma_entries_map_update<V: DeepView>(s: Seq<(String, V)>, i: int, p: (String, V))
    requires
        entries_unique(s),
        0 <= i < s.len(),
        p.0@ == s[i].0@,
    ensures
        entries_map(s.update(i, p)) == entries_map(s).insert(p.0@, p.1.deep_view()),
    decreases s.len(),
{
    let t = s.update(i, p);
    if i == s.len() - 1 {
        assert(t.drop_last() =~= s.drop_last());
        assert(entries_map(s.drop_last()).insert(s.last().0@, s.last().1.deep_view()).insert(
            p.0@,
            p.1.deep_view(),
        ) =~= entries_map(s.drop_last()).insert(p.0@, p.1.deep_view()));
    } else {
        assert(entries_unique(s.drop_last()));
        lemma_entries_map_update(s.drop_last(), i, p);
        assert(t.drop_last() =~= s.drop_last().update(i, p));
        assert(t.last() == s.last());
        assert(p.0@ != s.last().0@) by {
            assert(s[i].0@ != s[s.len() - 1].0@);
        }
        assert(entries_map(s.drop_last()).insert(p.0@, p.1.deep_view()).insert(
            s.last().0@,
            s.last().1.deep_view(),
        ) =~= entries_map(s.drop_last()).insert(s.last().0@, s.last().1.deep_view()).insert(
            p.0@,
            p.1.deep_view(),
        ));
    }
}

pub(crate) proof fn lemma_entries_map_len<V: DeepView>(s: Seq<(String, V)>)
    requires
        entries_unique(s),
    ensures
        entries_map(s).dom().finite(),
        entries_map(s).dom().len() == s.len(),
    decreases s.len(),
{
    broadcast use vstd::set::group_set_axioms;

    if s.len() > 0 {
        assert(entries_unique(s.drop_last()));
        lemma_entries_map_len(s.drop_last());
        lemma_entries_map_contains(s.drop_last(), s.last().0@);
        assert(!entries_map(s.drop_last()).contains_key(s.last().0@)) by {
            if exists|i: int| 0 <= i < s.drop_last().len() && s.drop_last()[i].0@ == s.last().0@ {
                let i = choose|i: int|
                    0 <= i < s.drop_last().len() && s.drop_last()[i].0@ == s.last().0@;
                assert(s[i].0@ == s[s.len() - 1].0@);
            }
        }
        assert(entries_map(s).dom() =~= entries_map(s.drop_last()).dom().insert(s.last().0@));
    } else {
        assert(entries_map(s).dom() =~= Set::<Seq<char>>::empty());
    }
}

pub(crate) proof fn lemma_entries_map_push<V: DeepView>(s: Seq<(String, V)>, p: (String, V))
    ensures
        entries_map(s.push(p)) == entries_map(s).insert(p.0@, p.1.deep_view()),
{
    assert(s.push(p).drop_last() =~= s);
    assert(s.push(p).last() == p);
}

/// A string-keyed map held as a vector of entries with pairwise distinct
/// keys, abstracted as a `Map` from key contents to the values' abstractions.
pub struct KvStore<V> {
    entries: Vec<(String, V)>,
}

impl<V: DeepView> View for KvStore<V> {
    type V = Map<Seq<char>, V::V>;

    closed spec fn view(&self) -> Map<Seq<char>, V::V> {
        entries_map(self.entries@)
    }
}

impl<V: DeepView> KvStore<V> {
    /// The store's invariant: no key occurs twice.
    pub closed spec fn wf(&self) -> bool {
        entries_unique(self.entries@)
    }

    /// An empty store.
    pub fn new() -> (r: Self)
        ensures
            r.wf(),
            r@ == Map::<Seq<char>, V::V>::empty(),
    {
        KvStore { entries: Vec::new() }
    }

    /// The position of the entry with the given key, if any.
    fn find(&self, key: &str) -> (r: Option<usize>)
        ensures
            match r {
                Some(i) => i < self.entries@.len() && self.entries@[i as int].0@ == key@,
                None => forall|j: int| 0 <= j < self.entries@.len() ==> self.entries@[j].0@ != key@,
            },
    {
        let n = self.entries.len();
        for i in 0..n
            invariant
                n == self.entries.len(),
                forall|j: int| 0 <= j < i ==> self.entries@[j].0@ != key@,
        {
            if str_eq(self.entries[i].0.as_str(), key) {
                return Some(i);
            }
        }
        None
    }

    /// The value stored under `key`, if any.
    pub fn get<'a>(&'a self, key: &str) -> (r: Option<&'a V>)
        requires
            self.wf(),
        ensures
            match r {
                Some(v) => self@.contains_key(key@) && v.deep_view() == self@[key@],
                None => !self@.contains_key(key@),
            },
    {
        proof {
            lemma_entries_map_contains(self.entries@, key@);
        }
        match self.find(key) {
            Some(i) => {
                proof {
                    lemma_entries_map_index(self.entries@, i as int);
                }
                Some(&self.entries[i].1)
            }
            None => None,
        }
    }

    /// Stores `value` under `key`, replacing any previous value.
    pub fn insert(&mut self, key: String, value: V)
        requires
            old(self).wf(),
        ensures
            final(self).wf(),
            final(self)@ == old(self)@.insert(key@, value.deep_view()),
    {
        let ghost s = self.entries@;
        match self.find(key.as_str()) {
            Some(i) => {
                self.entries.set(i, (key, value));
                proof {
                    lemma_entries_map_update(s, i as int, self.entries@[i as int]);
                    assert(self.entries@ =~= s.update(i as int, self.entries@[i as int]));
                    assert(entries_unique(self.entries@)) by {
                        assert(forall|j: int|
                            0 <= j < s.len() ==> self.entries@[j].0@ == s[j].0@);
                    }
                }
            }
            None => {
                self.entries.push((key, value));
                proof {
                    lemma_entries_map_push(s, self.entries@[s.len() as int]);
                    assert(self.entries@ =~= s.push(self.entries@[s.len() as int]));
                }
            }
        }
    }
}

/// Whether `e` renders one of the sessions stored in `m`, with its storage
/// key attached as its room id.
pub open spec fn renders_stored(m: Map<Seq<char>, SessionData>, e: SessionData) -> bool {
    exists|k: Seq<char>| #[trigger] m.contains_key(k) && e == m[k].with_roomid(Some(k))
}

/// The Session Store: each session's static definition, keyed by session id.
pub struct AppState {
    store: KvStore<Eventstruct>,
}

impl View for AppState {
    type V = Map<Seq<char>, SessionData>;

    closed spec fn view(&self) -> Map<Seq<char>, SessionData> {
        self.store@
    }
}

impl AppState {
    /// The store's invariant.
    pub closed spec fn wf(&self) -> bool {
        self.store.wf()
    }

    /// An empty Session Store.
    pub fn new() -> (r: Self)
        ensures
            r.wf(),
            r@ == Map::<Seq<char>, SessionData>::empty(),
    {
        AppState { store: KvStore::new() }
    }

    /// Stores a session definition under `key`, replacing any previous one.
    pub fn insert(&mut self, key: String, value: Eventstruct)
        requires
            old(self).wf(),
        ensures
            final(self).wf(),
            final(self)@ == old(self)@.insert(key@, value.deep_view()),
    {
        self.store.insert(key, value);
    }

    /// A copy of the session definition stored under `key`, if any.
    pub fn get(&self, key: &str) -> (r: Option<Eventstruct>)
        requires
            self.wf(),
        ensures
            match r {
                Some(ev) => self@.contains_key(key@) && ev.deep_view() == self@[key@],
                None => !self@.contains_key(key@),
            },
    {
        match self.store.get(key) {
            Some(v) => Some(v.duplicate()),
            None => None,
        }
    }

    /// A borrow of the session definition stored under `key`, if any.
    pub fn get_ref<'a>(&'a self, key: &str) -> (r: Option<&'a Eventstruct>)
        requires
            self.wf(),
        ensures
            match r {
                Some(ev) => self@.contains_key(key@) && ev.deep_view() == self@[key@],
                None => !self@.contains_key(key@),
            },
    {
        self.store.get(key)
    }

    /// Every stored session, each with its id re-attached as the room id
    /// from its storage key: one copy per stored session, no other.
    pub fn get_all_events(&self) -> (r: Vec<Eventstruct>)
        requires
            self.wf(),
        ensures
            r@.len() == self@.dom().len(),
            forall|i: int|
                0 <= i < r@.len() ==> renders_stored(self@, (#[trigger] r@[i].deep_view())),
            forall|k: Seq<char>|
                #[trigger] self@.contains_key(k) ==> exists|i: int|
                    0 <= i < r@.len() && r@[i].deep_view() == self@[k].with_roomid(Some(k)),
    {
        let mut r: Vec<Eventstruct> = Vec::new();
        let n = self.store.entries.len();
        for i in 0..n
            invariant
                n == self.store.entries@.len(),
                self.wf(),
                r@.len() == i,
                forall|j: int|
                    0 <= j < i ==> (#[trigger] r@[j].deep_view()) == self.store.entries@[
                        j
                    ].1.deep_view().with_roomid(Some(self.store.entries@[j].0@)),
        {
            let mut ev = self.store.entries[i].1.duplicate();
            ev.roomid = Some(self.store.entries[i].0.clone());
            proof {
                assert(ev.deep_view() =~~= self.store.entries@[i as int].1.deep_view().with_roomid(
                    Some(self.store.entries@[i as int].0@),
                ));
            }
            r.push(ev);
        }
        proof {
            lemma_entries_map_len(self.store.entries@);
            assert forall|i: int|
                0 <= i < r@.len() implies renders_stored(self@, (#[trigger] r@[i].deep_view())) by {
                lemma_entries_map_index(self.store.entries@, i);
                let k = self.store.entries@[i].0@;
                assert(self@.contains_key(k) && r@[i].deep_view() == self@[k].with_roomid(Some(k)));
            }
            assert forall|k: Seq<char>| #[trigger] self@.contains_key(k) implies exists|i: int|
                0 <= i < r@.len() && r@[i].deep_view() == self@[k].with_roomid(Some(k)) by {
                lemma_entries_map_contains(self.store.entries@, k);
                let j = choose|j: int|
                    0 <= j < self.store.entries@.len() && self.store.entries@[j].0@ == k;
                lemma_entries_map_index(self.store.entries@, j);
                assert(r@[j].deep_view() == self@[k].with_roomid(Some(k)));
            }
        }
        r
    }
}

/// Copies a vector of attendance indices.
pub fn clone_i32_vec(v: &Vec<i32>) -> (r: Vec<i32>)
    ensures
        r@ == v@,
{
    let mut r: Vec<i32> = Vec::new();
    let n = v.len();
    for i in 0..n
        invariant
            n == v.len(),
            r@ =~= v@.take(i as int),
    {
        r.push(v[i]);
        assert(r@ =~= v@.take(i + 1));
    }
    assert(v@.take(n as int) =~= v@);
    r
}

/// The Attendance Store: per session, the roster indices marked present,
/// kept in ascending order with no duplicates by the synchronization path.
pub struct AppState2 {
    store: KvStore<Vec<i32>>,
}

impl View for AppState2 {
    type V = Map<Seq<char>, Seq<i32>>;

    closed spec fn view(&self) -> Map<Seq<char>, Seq<i32>> {
        self.store@
    }
}

impl AppState2 {
    /// The store's invariant.
    pub closed spec fn wf(&self) -> bool {
        self.store.wf()
    }

    /// An empty Attendance Store.
    pub fn new() -> (r: Self)
        ensures
            r.wf(),
            r@ == Map::<Seq<char>, Seq<i32>>::empty(),
    {
        AppState2 { store: KvStore::new() }
    }

    /// Stores an attendance set under `key`, replacing any previous one.
    /// Unconditional overwrite: merging is the caller's responsibility.
    pub fn insert(&mut self, key: String, value: Vec<i32>)
        requires
            old(self).wf(),
        ensures
            final(self).wf(),
            final(self)@ == old(self)@.insert(key@, value@),
    {
        proof {
            assert(value.deep_view() =~= value@);
        }
        self.store.insert(key, value);
    }

    /// A copy of the attendance set stored under `key`, if any.
    pub fn get(&self, key: &str) -> (r: Option<Vec<i32>>)
        requires
            self.wf(),
        ensures
            match r {
                Some(v) => self@.contains_key(key@) && v@ == self@[key@],
                None => !self@.contains_key(key@),
            },
    {
        match self.store.get(key) {
            Some(v) => Some(clone_i32_vec(v)),
            None => None,
        }
    }
}

/// The On-The-Day Store: per session, the free-text identifiers marked
/// present, in first-seen order with no duplicates by the synchronization
/// path.
pub struct AppState3 {
    store: KvStore<Vec<String>>,
}

impl View for AppState3 {
    type V = Map<Seq<char>, Seq<Seq<char>>>;

    closed spec fn view(&self) -> Map<Seq<char>, Seq<Seq<char>>> {
        self.store@
    }
}

impl AppState3 {
    /// The store's invariant.
    pub closed spec fn wf(&self) -> bool {
        self.store.wf()
    }

    /// An empty On-The-Day Store.
    pub fn new() -> (r: Self)
        ensures
            r.wf(),
            r@ == Map::<Seq<char>, Seq<Seq<char>>>::empty(),
    {
        AppState3 { store: KvStore::new() }
    }

    /// Stores an on-the-day set under `key`, replacing any previous one.
    /// Unconditional overwrite: merging is the caller's responsibility.
    pub fn insert(&mut self, key: String, value: Vec<String>)
        requires
            old(self).wf(),
        ensures
            final(self).wf(),
            final(self)@ == old(self)@.insert(key@, value.deep_view()),
    {
        self.store.insert(key, value);
    }

    /// A copy of the on-the-day set stored under `key`, if any.
    pub fn get(&self, key: &str) -> (r: Option<Vec<String>>)
        requires
            self.wf(),
        ensures
            match r {
                Some(v) => self@.contains_key(key@) && v.deep_view() == self@[key@],
                None => !self@.contains_key(key@),
            },
    {
        match self.store.get(key) {
            Some(v) => Some(crate::session::clone_string_vec(v)),
            None => None,
        }
    }
}

/// The Settings Store: per session, the latest full override of the four
/// display/behavior flags. Absence means "no override".
pub struct AppState4 {
    store: KvStore<Settings>,
}

impl View for AppState4 {
    type V = Map<Seq<char>, Settings>;

    closed spec fn view(&self) -> Map<Seq<char>, Settings> {
        self.store@
    }
}

impl AppState4 {
    /// The store's invariant.
    pub closed spec fn wf(&self) -> bool {
        self.store.wf()
    }

    /// An empty Settings Store.
    pub fn new() -> (r: Self)
        ensures
            r.wf(),
            r@ == Map::<Seq<char>, Settings>::empty(),
    {
        AppState4 { store: KvStore::new() }
    }

    /// Stores a settings override under `key`: all four flags are replaced
    /// together, never merged.
    pub fn insert(&mut self, key: String, value: Settings)
        requires
            old(self).wf(),
        ensures
            final(self).wf(),
            final(self)@ == old(self)@.insert(key@, value),
    {
        self.store.insert(key, value);
    }

    /// The settings override stored under `key`, if any.
    pub fn get(&self, key: &str) -> (r: Option<Settings>)
        requires
            self.wf(),
        ensures
            match r {
                Some(v) => self@.contains_key(key@) && v == self@[key@],
                None => !self@.contains_key(key@),
            },
    {
        match self.store.get(key) {
            Some(v) => Some(*v),
            None => None,
        }
    }
}

/// A fresh, empty Session Store, to be owned by the application context.
pub fn get_app_state() -> (r: AppState)
    ensures
        r.wf(),
        r@ == Map::<Seq<char>, SessionData>::empty(),
{
    AppState::new()
}

/// A fresh, empty Attendance Store, to be owned by the application context.
pub fn get_app_state2() -> (r: AppState2)
    ensures
        r.wf(),
        r@ == Map::<Seq<char>, Seq<i32>>::empty(),
{
    AppState2::new()
}

/// A fresh, empty On-The-Day Store, to be owned by the application context.
pub fn get_app_state3() -> (r: AppState3)
    ensures
        r.wf(),
        r@ == Map::<Seq<char>, Seq<Seq<char>>>::empty(),
{
    AppState3::new()
}

/// A fresh, empty Settings Store, to be owned by the application context.
pub fn get_app_state4() -> (r: AppState4)
    ensures
        r.wf(),
        r@ == Map::<Seq<char>, Settings>::empty(),
{
    AppState4::new()
}

} // verus!

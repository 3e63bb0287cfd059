//! A map from user identifier to entry whose entries expire: stale entries are
//! evicted only when the map is read.

use vstd::prelude::*;
use crate::category::same_text;
use crate::time::{is_stale, retention_nanos, stale_at, Timestamp};

verus! {

/// A value that carries the instant from which its freshness is measured.
pub trait Stamped: Sized + Copy {
    /// The instant from which freshness is measured.
    spec fn spec_stamp(&self) -> Timestamp;

    /// The instant from which freshness is measured.
    fn stamp(&self) -> (r: Timestamp)
        ensures
            r == self.spec_stamp(),
    ;
}

/// A presence entry is the instant at which the user was last seen.
impl Stamped for Timestamp {
    open spec fn spec_stamp(&self) -> Timestamp {
        *self
    }

    fn stamp(&self) -> (r: Timestamp) {
        *self
    }
}

/// The entries of `m` that are fresh at `now`.
pub open spec fn fresh_part<V: Stamped>(m: Map<Seq<char>, V>, now: Timestamp) -> Map<Seq<char>, V> {
    Map::new(|k: Seq<char>| m.contains_key(k) && !is_stale(m[k].spec_stamp(), now), |k: Seq<char>| m[k])
}

/// Every entry of a listing is fresh at `now`.
pub open spec fn all_fresh<V: Stamped>(s: Seq<(String, V)>, now: Timestamp) -> bool {
    forall|i: int| 0 <= i < s.len() ==> !is_stale(#[trigger] s[i].1.spec_stamp(), now)
}

/// A listing: identifiers paired with entries, each identifier at most once.
pub open spec fn unique_keys<V>(s: Seq<(String, V)>) -> bool {
    forall|i: int, j: int| 0 <= i < j < s.len() ==> #[trigger] s[i].0@ != #[trigger] s[j].0@
}

/// A listing with unique identifiers that holds exactly the entries of `m`.
pub open spec fn lists<V>(s: Seq<(String, V)>, m: Map<Seq<char>, V>) -> bool {
    &&& unique_keys(s)
    &&& forall|i: int| 0 <= i < s.len() ==> m.contains_key(#[trigger] s[i].0@) && m[s[i].0@] == s[i].1
    &&& forall|k: Seq<char>| #[trigger] m.contains_key(k) ==> exists|i: int| 0 <= i < s.len() && #[trigger] s[i].0@ == k
    &&& m.dom().finite()
    &&& m.len() == s.len()
}

/// Appending an entry for a new identifier lists the map with that entry added.
proof fn lemma_lists_push<V>(s: Seq<(String, V)>, m: Map<Seq<char>, V>, e: (String, V))
    requires
        lists(s, m),
        !m.contains_key(e.0@),
    ensures
        lists(s.push(e), m.insert(e.0@, e.1)),
{
    let t = s.push(e);
    let m2 = m.insert(e.0@, e.1);
    assert(t[s.len() as int] == e);
    assert forall|j: int| 0 <= j < s.len() implies #[trigger] t[j].0@ != e.0@ by {
        assert(t[j] == s[j]);
        assert(m.contains_key(s[j].0@));
    }
    assert forall|i: int| 0 <= i < t.len() implies m2.contains_key(#[trigger] t[i].0@) && m2[t[i].0@]
        == t[i].1 by {
        if i < s.len() {
            assert(t[i] == s[i]);
        }
    }
    assert forall|k: Seq<char>| #[trigger] m2.contains_key(k) implies exists|j: int|
        0 <= j < t.len() && #[trigger] t[j].0@ == k by {
        if k != e.0@ {
            let j0 = choose|j: int| 0 <= j < s.len() && #[trigger] s[j].0@ == k;
            assert(t[j0] == s[j0]);
        } else {
            assert(t[s.len() as int].0@ == k);
        }
    }
}

/// A copy of a listing, entry by entry, lists the same map.
proof fn lemma_lists_copy<V>(s: Seq<(String, V)>, t: Seq<(String, V)>, m: Map<Seq<char>, V>)
    requires
        lists(s, m),
        t.len() == s.len(),
        forall|j: int| 0 <= j < s.len() ==> #[trigger] t[j].0@ == s[j].0@ && t[j].1 == s[j].1,
    ensures
        lists(t, m),
{
    assert forall|i: int, j: int| 0 <= i < j < t.len() implies #[trigger] t[i].0@ != #[trigger] t[j].0@ by {
        assert(s[i].0@ != s[j].0@);
    }
    assert forall|i: int| 0 <= i < t.len() implies m.contains_key(#[trigger] t[i].0@) && m[t[i].0@]
        == t[i].1 by {
        assert(s[i].0@ == t[i].0@);
    }
    assert forall|k: Seq<char>| #[trigger] m.contains_key(k) implies exists|j: int|
        0 <= j < t.len() && #[trigger] t[j].0@ == k by {
        let j0 = choose|j: int| 0 <= j < s.len() && #[trigger] s[j].0@ == k;
        assert(t[j0].0@ == k);
    }
}

/// Entries keyed by user identifier (case-sensitive, no normalisation). A write
/// replaces any earlier entry for the same identifier; entries older than the
/// retention window are evicted at the next read.
pub struct ExpiringStore<V> {
    entries: Vec<(String, V)>,
    model: Ghost<Map<Seq<char>, V>>,
}

impl<V> View for ExpiringStore<V> {
    type V = Map<Seq<char>, V>;

    closed spec fn view(&self) -> Map<Seq<char>, V> {
        self.model@
    }
}

impl<V: Stamped> ExpiringStore<V> {
    /// The entries held in storage list the map exactly, with no identifier twice.
    pub closed spec fn wf(&self) -> bool {
        lists(self.entries@, self.model@)
    }

    /// An empty store.
    pub fn new() -> (r: Self)
        ensures
            r.wf(),
            r@ == Map::<Seq<char>, V>::empty(),
            r@.dom().finite(),
    {
        ExpiringStore { entries: Vec::new(), model: Ghost(Map::empty()) }
    }

    /// A well-formed store holds finitely many entries.
    pub proof fn lemma_finite(&self)
        requires
            self.wf(),
        ensures
            self@.dom().finite(),
    {
    }

    /// How many entries occupy storage, stale ones included.
    pub fn len(&self) -> (r: usize)
        requires
            self.wf(),
        ensures
            r == self@.len(),
    {
        self.entries.len()
    }

    /// The position in storage of the entry for `id`, if there is one.
    fn position(&self, id: &str) -> (r: Option<usize>)
        requires
            self.wf(),
        ensures
            r is Some ==> r->Some_0 < self.entries@.len() && self.entries@[r->Some_0 as int].0@ == id@,
            r is None ==> !self@.contains_key(id@),
    {
        let mut i: usize = 0;
        while i < self.entries.len()
            invariant
                self.wf(),
                i <= self.entries@.len(),
                forall|j: int| 0 <= j < i ==> #[trigger] self.entries@[j].0@ != id@,
            decreases self.entries@.len() - i,
        {
            if same_text(self.entries[i].0.as_str(), id) {
                return Some(i);
            }
            i += 1;
        }
        None
    }

    /// The entry for `id`, stale or not.
    pub fn get(&self, id: &str) -> (r: Option<V>)
        requires
            self.wf(),
        ensures
            r is Some <==> self@.contains_key(id@),
            r is Some ==> r->Some_0 == self@[id@],
    {
        match self.position(id) {
            Some(i) => Some(self.entries[i].1),
            None => None,
        }
    }

    /// Sets the entry for `id` to `value`, replacing any earlier one.
    pub fn upsert(&mut self, id: String, value: V)
        requires
            old(self).wf(),
        ensures
            final(self).wf(),
            final(self)@.dom().finite(),
            final(self)@ == old(self)@.insert(id@, value),
    {
        let ghost key = id@;
        match self.position(id.as_str()) {
            Some(i) => {
                let ghost before = self.entries@;
                self.entries.set(i, (id, value));
                self.model = Ghost(self.model@.insert(key, value));
                assert(self.model@.dom() =~= old(self).model@.dom());
                assert forall|k: Seq<char>| #[trigger] self.model@.contains_key(k) implies exists|j: int|
                    0 <= j < self.entries@.len() && #[trigger] self.entries@[j].0@ == k by {
                    let j0 = choose|j: int| 0 <= j < before.len() && #[trigger] before[j].0@ == k;
                    assert(self.entries@[j0].0@ == k);
                }
            },
            None => {
                let ghost before = self.entries@;
                self.entries.push((id, value));
                self.model = Ghost(self.model@.insert(key, value));
                let ghost last = self.entries@.len() - 1;
                assert(self.entries@[last].0@ == key);
                assert forall|j: int| 0 <= j < last implies #[trigger] self.entries@[j].0@ != key by {
                    assert(before[j] == self.entries@[j]);
                    assert(old(self).model@.contains_key(before[j].0@));
                }
                assert forall|k: Seq<char>| #[trigger] self.model@.contains_key(k) implies exists|j: int|
                    0 <= j < self.entries@.len() && #[trigger] self.entries@[j].0@ == k by {
                    if k != key {
                        let j0 = choose|j: int| 0 <= j < before.len() && #[trigger] before[j].0@ == k;
                        assert(self.entries@[j0].0@ == k);
                    }
                }
            },
        }
    }

    /// Removes the entry for `id`; nothing changes where there is none.
    pub fn remove(&mut self, id: &str)
        requires
            old(self).wf(),
        ensures
            final(self).wf(),
            final(self)@.dom().finite(),
            final(self)@ == old(self)@.remove(id@),
    {
        match self.position(id) {
            Some(i) => {
                let ghost before = self.entries@;
                self.entries.remove(i);
                self.model = Ghost(self.model@.remove(id@));
                assert forall|k: Seq<char>| #[trigger] self.model@.contains_key(k) implies exists|j: int|
                    0 <= j < self.entries@.len() && #[trigger] self.entries@[j].0@ == k by {
                    let j0 = choose|j: int| 0 <= j < before.len() && #[trigger] before[j].0@ == k;
                    if j0 < i {
                        assert(self.entries@[j0].0@ == k);
                    } else {
                        assert(self.entries@[j0 - 1].0@ == k);
                    }
                }
            },
            None => {
                assert(self.model@.remove(id@) =~= self.model@);
            },
        }
    }

    /// A copy of every entry in storage.
    fn snapshot(&self) -> (r: Vec<(String, V)>)
        requires
            self.wf(),
        ensures
            lists(r@, self@),
    {
        let mut r: Vec<(String, V)> = Vec::new();
        let mut i: usize = 0;
        while i < self.entries.len()
            invariant
                self.wf(),
                i <= self.entries@.len(),
                r@.len() == i,
                forall|j: int| 0 <= j < i ==> #[trigger] r@[j].0@ == self.entries@[j].0@ && r@[j].1
                    == self.entries@[j].1,
            decreases self.entries@.len() - i,
        {
            r.push((self.entries[i].0.clone(), self.entries[i].1));
            i += 1;
        }
        proof {
            lemma_lists_copy(self.entries@, r@, self@);
        }
        r
    }

    /// Evicts every entry that is stale at `now`. The entries in storage are
    /// read in turn, and those still fresh make up the new storage.
    pub fn evict(&mut self, now: &Timestamp)
        requires
            old(self).wf(),
        ensures
            final(self).wf(),
            final(self)@.dom().finite(),
            final(self)@ == fresh_part(old(self)@, *now),
    {
        let mut kept: Vec<(String, V)> = Vec::new();
        let ghost mut kept_model: Map<Seq<char>, V> = Map::empty();
        let n = self.entries.len();
        let mut i: usize = 0;
        while i < n
            invariant
                self.wf(),
                *self == *old(self),
                n == self.entries@.len(),
                i <= n,
                lists(kept@, kept_model),
                forall|k: Seq<char>| #[trigger] kept_model.contains_key(k) <==> exists|j: int|
                    0 <= j < i && #[trigger] self.entries@[j].0@ == k && !is_stale(
                        self.entries@[j].1.spec_stamp(),
                        *now,
                    ),
                forall|k: Seq<char>| #[trigger] kept_model.contains_key(k) ==> kept_model[k] == self@[k],
            decreases n - i,
        {
            let stamp = self.entries[i].1.stamp();
            if !stale_at(&stamp, now) {
                let ghost e = self.entries@[i as int];
                proof {
                    if kept_model.contains_key(e.0@) {
                        let j0 = choose|j: int|
                            0 <= j < i && #[trigger] self.entries@[j].0@ == e.0@ && !is_stale(
                                self.entries@[j].1.spec_stamp(),
                                *now,
                            );
                        assert(self.entries@[j0].0@ != self.entries@[i as int].0@);
                    }
                    lemma_lists_push(kept@, kept_model, (self.entries@[i as int].0, e.1));
                }
                kept.push((self.entries[i].0.clone(), self.entries[i].1));
                proof {
                    kept_model = kept_model.insert(e.0@, e.1);
                    assert forall|k: Seq<char>| #[trigger] kept_model.contains_key(k) implies exists|j: int|
                        0 <= j < i + 1 && #[trigger] self.entries@[j].0@ == k && !is_stale(
                            self.entries@[j].1.spec_stamp(),
                            *now,
                        ) by {
                        if k == e.0@ {
                            assert(self.entries@[i as int].0@ == k);
                        }
                    }
                }
            }
            i += 1;
        }
        proof {
            let target = fresh_part(self@, *now);
            assert forall|k: Seq<char>| #[trigger] kept_model.contains_key(k) <==> target.contains_key(k) by {
                if target.contains_key(k) {
                    let j0 = choose|j: int| 0 <= j < self.entries@.len() && #[trigger] self.entries@[j].0@ == k;
                    assert(self@[self.entries@[j0].0@] == self.entries@[j0].1);
                }
                if kept_model.contains_key(k) {
                    let j0 = choose|j: int|
                        0 <= j < n && #[trigger] self.entries@[j].0@ == k && !is_stale(
                            self.entries@[j].1.spec_stamp(),
                            *now,
                        );
                    assert(self@[self.entries@[j0].0@] == self.entries@[j0].1);
                }
            }
            assert(kept_model =~= target);
        }
        self.entries = kept;
        self.model = Ghost(kept_model);
    }

    /// Evicts the entries that are stale at `now`, then returns a copy of all
    /// that remain.
    pub fn list_fresh(&mut self, now: &Timestamp) -> (r: Vec<(String, V)>)
        requires
            old(self).wf(),
        ensures
            final(self).wf(),
            final(self)@.dom().finite(),
            final(self)@ == fresh_part(old(self)@, *now),
            lists(r@, final(self)@),
            all_fresh(r@, *now),
    {
        self.evict(now);
        let r = self.snapshot();
        assert forall|i: int| 0 <= i < r@.len() implies !is_stale(#[trigger] r@[i].1.spec_stamp(), *now) by {
            assert(self@.contains_key(r@[i].0@));
        }
        r
    }
}


/// An entry written at `T` and read at `T'` is returned when `T' - T` is at
/// most the retention window, and is gone when `T' - T` exceeds it.
pub proof fn law_freshness<V: Stamped>(m: Map<Seq<char>, V>, id: Seq<char>, v: V, now: Timestamp)
    ensures
        now.instant() - v.spec_stamp().instant() <= retention_nanos() ==> fresh_part(
            m.insert(id, v),
            now,
        ).contains_key(id) && fresh_part(m.insert(id, v), now)[id] == v,
        now.instant() - v.spec_stamp().instant() > retention_nanos() ==> !fresh_part(
            m.insert(id, v),
            now,
        ).contains_key(id),
{
}

/// An entry read exactly one retention window after it was written is still
/// returned.
pub proof fn law_boundary_kept<V: Stamped>(m: Map<Seq<char>, V>, id: Seq<char>, v: V, now: Timestamp)
    requires
        now.instant() - v.spec_stamp().instant() == retention_nanos(),
    ensures
        fresh_part(m.insert(id, v), now).contains_key(id),
        fresh_part(m.insert(id, v), now)[id] == v,
{
}

/// A second write for the same identifier replaces the first entirely: the
/// store is as if only the second had been made.
pub proof fn law_last_write_wins<V>(m: Map<Seq<char>, V>, id: Seq<char>, first: V, second: V)
    ensures
        m.insert(id, first).insert(id, second) == m.insert(id, second),
        m.insert(id, first).insert(id, second)[id] == second,
{
    assert(m.insert(id, first).insert(id, second) =~= m.insert(id, second));
}

/// Removing an identifier that is absent changes nothing, and a removal never
/// touches the entries of other identifiers.
pub proof fn law_idempotent_delete<V>(m: Map<Seq<char>, V>, id: Seq<char>)
    ensures
        !m.contains_key(id) ==> m.remove(id) == m,
        forall|k: Seq<char>| k != id ==> (#[trigger] m.remove(id).contains_key(k) <==> m.contains_key(k)),
        forall|k: Seq<char>| k != id && m.contains_key(k) ==> #[trigger] m.remove(id)[k] == m[k],
{
    if !m.contains_key(id) {
        assert(m.remove(id) =~= m);
    }
}

/// Writes never evict: every entry already stored stays, however stale. A read
/// at an instant when every stored entry is stale returns nothing and leaves
/// the store empty.
pub proof fn law_eviction_on_read<V: Stamped>(m: Map<Seq<char>, V>, id: Seq<char>, v: V, now: Timestamp)
    ensures
        forall|k: Seq<char>| #[trigger] m.contains_key(k) ==> m.insert(id, v).contains_key(k),
        (forall|k: Seq<char>| #[trigger] m.contains_key(k) ==> is_stale(m[k].spec_stamp(), now)) ==> fresh_part(
            m,
            now,
        ) == Map::<Seq<char>, V>::empty() && fresh_part(m, now).len() == 0,
{
    if forall|k: Seq<char>| #[trigger] m.contains_key(k) ==> is_stale(m[k].spec_stamp(), now) {
        assert(fresh_part(m, now) =~= Map::<Seq<char>, V>::empty());
    }
}

} // verus!

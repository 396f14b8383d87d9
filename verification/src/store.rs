//! The per-player state store: a mapping from player identifier to a small
//! mutable statistics record, owned exclusively by the store.
//!
//! The store is viewed as a `Map<u64, PlayerData>`; an entry exists for a
//! player exactly between the processing of its connect event and the
//! processing of its disconnect event.

use vstd::prelude::*;

verus! {

use crate::position::Position;

/// Statistics kept for one connected player.
#[derive(Clone, Copy, Debug)]
pub struct PlayerData {
    pub join_time: u64,
    pub last_position: Option<Position>,
    pub message_count: u32,
    pub jump_count: u32,
}

impl PlayerData {
    /// The record installed when a player connects at time `now`.
    pub open spec fn spec_fresh(now: u64) -> PlayerData {
        PlayerData { join_time: now, last_position: None, message_count: 0, jump_count: 0 }
    }

    /// Build the record for a player that has just connected.
    pub fn fresh(now: u64) -> (r: PlayerData)
        ensures
            r == PlayerData::spec_fresh(now),
    {
        PlayerData { join_time: now, last_position: None, message_count: 0, jump_count: 0 }
    }
}

/// Whether some entry of `s` carries the key `k`.
pub open spec fn seq_has_key(s: Seq<(u64, PlayerData)>, k: u64) -> bool {
    exists|i: int| 0 <= i < s.len() && (#[trigger] s[i]).0 == k
}

/// Whether the keys of `s` are pairwise distinct.
pub open spec fn seq_keys_unique(s: Seq<(u64, PlayerData)>) -> bool {
    forall|i: int, j: int|
        0 <= i < j < s.len() ==> (#[trigger] s[i]).0 != (#[trigger] s[j]).0
}

/// The position of the entry of `s` that carries `k`.
pub open spec fn seq_index_of(s: Seq<(u64, PlayerData)>, k: u64) -> int {
    choose|i: int| 0 <= i < s.len() && (#[trigger] s[i]).0 == k
}

/// The mapping that a sequence of keyed entries denotes.
pub open spec fn seq_view(s: Seq<(u64, PlayerData)>) -> Map<u64, PlayerData> {
    Map::new(|k: u64| seq_has_key(s, k), |k: u64| s[seq_index_of(s, k)].1)
}

/// With unique keys, the entry at position `i` is the one the view reports
/// for its key.
proof fn lemma_seq_view_at(s: Seq<(u64, PlayerData)>, i: int)
    requires
        seq_keys_unique(s),
        0 <= i < s.len(),
    ensures
        seq_view(s).contains_key(s[i].0),
        seq_view(s)[s[i].0] == s[i].1,
{
    let k = s[i].0;
    assert(seq_has_key(s, k));
    let j = seq_index_of(s, k);
    assert(0 <= j < s.len() && s[j].0 == k);
    if i != j {
        assert(s[i].0 != s[j].0);
    }
}

/// Appending an entry under a fresh key inserts it into the view.
proof fn lemma_seq_view_push(s: Seq<(u64, PlayerData)>, k: u64, d: PlayerData)
    requires
        seq_keys_unique(s),
        !seq_has_key(s, k),
    ensures
        seq_keys_unique(s.push((k, d))),
        seq_view(s.push((k, d))) == seq_view(s).insert(k, d),
{
    let t = s.push((k, d));
    assert forall|i: int, j: int| 0 <= i < j < t.len() implies (#[trigger] t[i]).0 != (
    #[trigger] t[j]).0 by {
        if j == s.len() as int {
            assert(t[i] == s[i]);
            if t[i].0 == k {
                assert(seq_has_key(s, k));
            }
        } else {
            assert(t[i] == s[i] && t[j] == s[j]);
        }
    }
    assert forall|q: u64| #[trigger] seq_has_key(t, q) implies seq_view(t)[q] == seq_view(
        s,
    ).insert(k, d)[q] by {
        let i = choose|i: int| 0 <= i < t.len() && (#[trigger] t[i]).0 == q;
        lemma_seq_view_at(t, i);
        if q == k {
            assert(t[s.len() as int] == (k, d));
            if i != s.len() as int {
                assert(t[i] == s[i]);
                assert(seq_has_key(s, k));
            }
            assert(seq_view(t)[q] == d);
        } else {
            assert(i != s.len() as int);
            assert(t[i] == s[i]);
            lemma_seq_view_at(s, i);
        }
    }
    assert forall|q: u64| seq_has_key(s, q) || q == k implies #[trigger] seq_has_key(t, q) by {
        if q == k {
            assert(t[s.len() as int].0 == k);
        } else {
            let i = choose|i: int| 0 <= i < s.len() && (#[trigger] s[i]).0 == q;
            assert(t[i].0 == q);
        }
    }
    assert forall|q: u64| #[trigger] seq_has_key(t, q) implies seq_has_key(s, q) || q == k by {
        let i = choose|i: int| 0 <= i < t.len() && (#[trigger] t[i]).0 == q;
        if i != s.len() as int {
            assert(t[i] == s[i]);
        }
    }
    assert(seq_view(t) =~= seq_view(s).insert(k, d));
}

/// Swap-removing position `i` removes exactly its key from the view.
proof fn lemma_seq_view_swap_remove(s: Seq<(u64, PlayerData)>, i: int)
    requires
        seq_keys_unique(s),
        0 <= i < s.len(),
    ensures
        seq_keys_unique(s.update(i, s.last()).drop_last()),
        seq_view(s.update(i, s.last()).drop_last()) == seq_view(s).remove(s[i].0),
{
    let k = s[i].0;
    let t = s.update(i, s.last()).drop_last();
    assert(t.len() == s.len() - 1);
    assert forall|j: int| 0 <= j < t.len() implies #[trigger] t[j] == if j == i {
        s[s.len() - 1]
    } else {
        s[j]
    } by {}
    assert forall|p: int, q: int| 0 <= p < q < t.len() implies (#[trigger] t[p]).0 != (
    #[trigger] t[q]).0 by {
        let p0 = if p == i { s.len() - 1 } else { p };
        let q0 = if q == i { s.len() - 1 } else { q };
        assert(t[p] == s[p0] && t[q] == s[q0]);
        assert(p0 != q0);
    }
    assert forall|q: u64| #[trigger] seq_has_key(t, q) implies seq_has_key(s, q) && q != k by {
        let j = choose|j: int| 0 <= j < t.len() && (#[trigger] t[j]).0 == q;
        let j0 = if j == i { s.len() - 1 } else { j };
        assert(t[j] == s[j0]);
        assert(s[j0].0 == q);
        if q == k {
            assert(j0 != i);
            assert(s[j0].0 != s[i].0);
        }
    }
    assert forall|q: u64| seq_has_key(s, q) && q != k implies #[trigger] seq_has_key(t, q) by {
        let j = choose|j: int| 0 <= j < s.len() && (#[trigger] s[j]).0 == q;
        assert(j != i);
        if j == s.len() - 1 {
            assert(i < s.len() - 1);
            assert(t[i] == s[s.len() - 1]);
        } else {
            assert(t[j] == s[j]);
        }
    }
    assert forall|q: u64| #[trigger] seq_has_key(t, q) implies seq_view(t)[q] == seq_view(s)[q] by {
        let j = choose|j: int| 0 <= j < t.len() && (#[trigger] t[j]).0 == q;
        let j0 = if j == i { s.len() - 1 } else { j };
        assert(t[j] == s[j0]);
        lemma_seq_view_at(t, j);
        lemma_seq_view_at(s, j0);
    }
    assert(seq_view(t) =~= seq_view(s).remove(k));
}

/// The sum of the message counters over the entries.
pub open spec fn sum_messages(s: Seq<(u64, PlayerData)>) -> int
    decreases s.len(),
{
    if s.len() == 0 {
        0
    } else {
        sum_messages(s.drop_last()) + s.last().1.message_count
    }
}

/// The sum of the jump counters over the entries.
pub open spec fn sum_jumps(s: Seq<(u64, PlayerData)>) -> int
    decreases s.len(),
{
    if s.len() == 0 {
        0
    } else {
        sum_jumps(s.drop_last()) + s.last().1.jump_count
    }
}

/// A mapping from player identifier to statistics record, with exclusive
/// mutation through `&mut` access.
pub struct StateStore {
    entries: Vec<(u64, PlayerData)>,
}

impl View for StateStore {
    type V = Map<u64, PlayerData>;

    closed spec fn view(&self) -> Map<u64, PlayerData> {
        seq_view(self.entries@)
    }
}

impl StateStore {
    /// The entries in the store's own order.
    pub closed spec fn entries_seq(self) -> Seq<(u64, PlayerData)> {
        self.entries@
    }

    /// The store keeps at most one entry per player.
    pub closed spec fn wf(self) -> bool {
        seq_keys_unique(self.entries@)
    }

    /// The view is exactly the mapping the entries denote.
    pub proof fn lemma_view_is_entries(self)
        ensures
            self@ == seq_view(self.entries_seq()),
    {
    }

    /// An empty store.
    pub fn new() -> (r: StateStore)
        ensures
            r.wf(),
            r@ == Map::<u64, PlayerData>::empty(),
            r.entries_seq() == Seq::<(u64, PlayerData)>::empty(),
    {
        let r = StateStore { entries: Vec::new() };
        proof {
            assert(r@ =~= Map::<u64, PlayerData>::empty());
        }
        r
    }

    /// The position of the entry for `id`, if there is one.
    fn index_of(&self, id: u64) -> (r: Option<usize>)
        requires
            self.wf(),
        ensures
            match r {
                Some(i) => i < self.entries_seq().len() && self.entries_seq()[i as int].0 == id,
                None => !seq_has_key(self.entries_seq(), id),
            },
    {
        let mut i: usize = 0;
        while i < self.entries.len()
            invariant
                i <= self.entries@.len(),
                forall|j: int| 0 <= j < i ==> (#[trigger] self.entries@[j]).0 != id,
            decreases self.entries@.len() - i,
        {
            if self.entries[i].0 == id {
                return Some(i);
            }
            i = i + 1;
        }
        None
    }

    /// The record for `id`, if the player is present.
    pub fn get(&self, id: u64) -> (r: Option<PlayerData>)
        requires
            self.wf(),
        ensures
            match r {
                Some(d) => self@.contains_key(id) && self@[id] == d,
                None => !self@.contains_key(id),
            },
    {
        match self.index_of(id) {
            Some(i) => {
                proof {
                    lemma_seq_view_at(self.entries@, i as int);
                }
                Some(self.entries[i].1)
            },
            None => None,
        }
    }

    /// Install `rec` for `id`, replacing any previous record.
    pub fn insert(&mut self, id: u64, rec: PlayerData)
        requires
            old(self).wf(),
        ensures
            final(self).wf(),
            final(self)@ == old(self)@.insert(id, rec),
    {
        let _ = self.remove(id);
        proof {
            lemma_seq_view_push(self.entries@, id, rec);
        }
        self.entries.push((id, rec));
        proof {
            assert(self@ =~= old(self)@.insert(id, rec));
        }
    }

    /// Take the record for `id` out of the store, if there is one.
    pub fn remove(&mut self, id: u64) -> (r: Option<PlayerData>)
        requires
            old(self).wf(),
        ensures
            final(self).wf(),
            final(self)@ == old(self)@.remove(id),
            !seq_has_key(final(self).entries_seq(), id),
            match r {
                Some(d) => old(self)@.contains_key(id) && old(self)@[id] == d,
                None => !old(self)@.contains_key(id),
            },
    {
        match self.index_of(id) {
            Some(i) => {
                proof {
                    lemma_seq_view_at(self.entries@, i as int);
                    lemma_seq_view_swap_remove(self.entries@, i as int);
                }
                let (_, d) = self.entries.swap_remove(i);
                proof {
                    assert(!seq_has_key(self.entries@, id)) by {
                        if seq_has_key(self.entries@, id) {
                            assert(seq_view(self.entries@).contains_key(id));
                        }
                    }
                }
                Some(d)
            },
            None => {
                proof {
                    assert(old(self)@ =~= old(self)@.remove(id));
                }
                None
            },
        }
    }

    /// The record for `id`, installing a fresh one (joined at `now`) first if
    /// the player is absent.
    pub fn upsert(&mut self, id: u64, now: u64) -> (r: PlayerData)
        requires
            old(self).wf(),
        ensures
            final(self).wf(),
            old(self)@.contains_key(id) ==> final(self)@ == old(self)@ && r == old(self)@[id],
            !old(self)@.contains_key(id) ==> final(self)@ == old(self)@.insert(
                id,
                PlayerData::spec_fresh(now),
            ) && r == PlayerData::spec_fresh(now),
    {
        match self.index_of(id) {
            Some(i) => {
                proof {
                    lemma_seq_view_at(self.entries@, i as int);
                }
                self.entries[i].1
            },
            None => {
                let d = PlayerData::fresh(now);
                proof {
                    lemma_seq_view_push(self.entries@, id, d);
                }
                self.entries.push((id, d));
                proof {
                    assert(self@ =~= old(self)@.insert(id, PlayerData::spec_fresh(now)));
                }
                d
            },
        }
    }

    /// Apply `f` to the record for `id`; a no-op if the player is absent.
    pub fn mutate<F: FnOnce(PlayerData) -> PlayerData>(&mut self, id: u64, f: F) -> (changed: bool)
        requires
            old(self).wf(),
            old(self)@.contains_key(id) ==> f.requires((old(self)@[id],)),
        ensures
            final(self).wf(),
            old(self)@.contains_key(id) ==> changed && exists|d2: PlayerData|
                call_ensures(f, (old(self)@[id],), d2) && final(self)@ == old(self)@.insert(id, d2),
            !old(self)@.contains_key(id) ==> !changed && final(self)@ == old(self)@,
    {
        match self.index_of(id) {
            Some(i) => {
                proof {
                    lemma_seq_view_at(self.entries@, i as int);
                    lemma_seq_view_swap_remove(self.entries@, i as int);
                }
                let (_, d) = self.entries.swap_remove(i);
                proof {
                    assert(!seq_has_key(self.entries@, id)) by {
                        if seq_has_key(self.entries@, id) {
                            assert(seq_view(self.entries@).contains_key(id));
                        }
                    }
                }
                let d2 = f(d);
                proof {
                    lemma_seq_view_push(self.entries@, id, d2);
                }
                self.entries.push((id, d2));
                proof {
                    assert(self@ =~= old(self)@.insert(id, d2));
                }
                true
            },
            None => false,
        }
    }

    /// How many players are currently tracked.
    pub fn len(&self) -> (r: usize)
        requires
            self.wf(),
        ensures
            r == self@.len(),
            r == self.entries_seq().len(),
    {
        proof {
            self.lemma_view_len();
        }
        self.entries.len()
    }

    /// With unique keys, the view has exactly one element per entry.
    pub proof fn lemma_view_len(self)
        requires
            self.wf(),
        ensures
            self@.len() == self.entries_seq().len(),
            self@.dom().finite(),
    {
        let s = self.entries@;
        let keys = Seq::new(s.len(), |i: int| s[i].0);
        assert forall|i: int, j: int|
            0 <= i < keys.len() && 0 <= j < keys.len() && i != j implies keys[i] != keys[j] by {
            if i < j {
                assert(s[i].0 != s[j].0);
            } else {
                assert(s[j].0 != s[i].0);
            }
        }
        assert(keys.no_duplicates());
        keys.unique_seq_to_set();
        assert forall|k: u64| self@.dom().contains(k) implies keys.to_set().contains(k) by {
            let i = choose|i: int| 0 <= i < s.len() && (#[trigger] s[i]).0 == k;
            assert(keys[i] == k);
        }
        assert forall|k: u64| keys.to_set().contains(k) implies self@.dom().contains(k) by {
            let i = choose|i: int| 0 <= i < keys.len() && keys[i] == k;
            assert(s[i].0 == k);
        }
        assert(self@.dom() =~= keys.to_set());
    }

    /// The total message and jump counts over all tracked players, each
    /// saturating at `u64::MAX`.
    pub fn totals(&self) -> (r: (u64, u64))
        requires
            self.wf(),
        ensures
            r.0 as int == if sum_messages(self.entries_seq()) <= u64::MAX as int {
                sum_messages(self.entries_seq())
            } else {
                u64::MAX as int
            },
            r.1 as int == if sum_jumps(self.entries_seq()) <= u64::MAX as int {
                sum_jumps(self.entries_seq())
            } else {
                u64::MAX as int
            },
    {
        let mut msgs: u64 = 0;
        let mut jumps: u64 = 0;
        let mut i: usize = 0;
        while i < self.entries.len()
            invariant
                i <= self.entries@.len(),
                msgs as int == if sum_messages(self.entries@.take(i as int)) <= u64::MAX as int {
                    sum_messages(self.entries@.take(i as int))
                } else {
                    u64::MAX as int
                },
                jumps as int == if sum_jumps(self.entries@.take(i as int)) <= u64::MAX as int {
                    sum_jumps(self.entries@.take(i as int))
                } else {
                    u64::MAX as int
                },
            decreases self.entries@.len() - i,
        {
            proof {
                assert(self.entries@.take(i as int + 1).drop_last() =~= self.entries@.take(
                    i as int,
                ));
                assert(self.entries@.take(i as int + 1).last() == self.entries@[i as int]);
                assert(sum_messages(self.entries@.take(i as int)) >= 0) by {
                    lemma_sum_messages_nonneg(self.entries@.take(i as int));
                }
                assert(sum_jumps(self.entries@.take(i as int)) >= 0) by {
                    lemma_sum_jumps_nonneg(self.entries@.take(i as int));
                }
            }
            msgs = msgs.saturating_add(self.entries[i].1.message_count as u64);
            jumps = jumps.saturating_add(self.entries[i].1.jump_count as u64);
            i = i + 1;
        }
        proof {
            assert(self.entries@.take(self.entries@.len() as int) =~= self.entries@);
        }
        (msgs, jumps)
    }
}

/// The message total is never negative.
proof fn lemma_sum_messages_nonneg(s: Seq<(u64, PlayerData)>)
    ensures
        sum_messages(s) >= 0,
    decreases s.len(),
{
    if s.len() > 0 {
        lemma_sum_messages_nonneg(s.drop_last());
    }
}

/// The jump total is never negative.
proof fn lemma_sum_jumps_nonneg(s: Seq<(u64, PlayerData)>)
    ensures
        sum_jumps(s) >= 0,
    decreases s.len(),
{
    if s.len() > 0 {
        lemma_sum_jumps_nonneg(s.drop_last());
    }
}

} // verus!

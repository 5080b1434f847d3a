//! Bookkeeping of which players hold which chunks of a voxject: a player
//! locks a chunk to receive it; a chunk that is not loaded is generated, and
//! the players that asked for it while it was being generated receive it
//! once it is done; a loaded chunk is unloaded when its last lock is
//! released.

use crate::coordinates::{around, inner, lemma_around_distinct, neighbourhood, ChunkCoordinates, CoordinateMap};
use vstd::prelude::*;

verus! {

broadcast use {
    vstd::seq_lib::group_seq_properties,
    vstd::seq::Seq::lemma_push_to_set_commute,
    vstd::seq::Seq::lemma_filter_push,
};

/// What locking a chunk requires of the caller.
#[derive(Clone, Copy, Debug, PartialEq, Eq, Structural)]
pub enum LockOutcome {
    /// The chunk is being generated; the player will receive it when it is
    /// done.
    Queued,
    /// The chunk is loaded; send it to the player now.
    SyncNow,
    /// The chunk is neither loaded nor being generated; start generating it.
    Generate,
}

/// The chunks of a voxject that are being generated, with the players
/// waiting for each in the order they asked, and the chunks that are loaded,
/// with the players that hold each.
pub struct ChunkLocks {
    pending: CoordinateMap<Vec<u64>>,
    loaded: CoordinateMap<Vec<u64>>,
}

/// Whether `player` occurs in `players`.
fn contains_player(players: &Vec<u64>, player: u64) -> (found: bool)
    ensures
        found == players@.contains(player),
{
    let mut i: usize = 0;
    while i < players.len()
        invariant
            i <= players@.len(),
            forall|j: int| 0 <= j < i ==> players@[j] != player,
        decreases players.len() - i,
    {
        if players[i] == player {
            return true;
        }
        i = i + 1;
    }
    false
}

/// Whether `player` is connected, by the list of connected players.
pub open spec fn is_connected(connected: Seq<u64>) -> spec_fn(u64) -> bool {
    |player: u64| connected.contains(player)
}

impl ChunkLocks {
    /// The chunks being generated, each with the players waiting for it in
    /// the order they asked.
    pub closed spec fn pending(&self) -> Map<ChunkCoordinates, Seq<u64>> {
        self.pending.view().map_values(|players: Vec<u64>| players@)
    }

    /// The loaded chunks, each with the players that hold it.
    pub closed spec fn loaded(&self) -> Map<ChunkCoordinates, Set<u64>> {
        self.loaded.view().map_values(|players: Vec<u64>| players@.to_set())
    }

    /// The representation is consistent, and no chunk is both loaded and
    /// being generated.
    pub closed spec fn wf(&self) -> bool {
        &&& self.pending.wf()
        &&& self.loaded.wf()
        &&& forall|key: ChunkCoordinates| #[trigger] self.loaded.view().contains_key(key)
            ==> self.loaded.view()[key]@.no_duplicates()
        &&& self.pending.view().dom().disjoint(self.loaded.view().dom())
    }

    /// `player` is waiting for the chunk at `coordinates` to be generated.
    pub open spec fn waits_for(&self, player: u64, coordinates: ChunkCoordinates) -> bool {
        self.pending().contains_key(coordinates) && self.pending()[coordinates].contains(player)
    }

    /// `player` holds the loaded chunk at `coordinates`.
    pub open spec fn holds(&self, player: u64, coordinates: ChunkCoordinates) -> bool {
        self.loaded().contains_key(coordinates) && self.loaded()[coordinates].contains(player)
    }

    /// No chunk is both loaded and being generated.
    pub proof fn lemma_disjoint(&self)
        requires
            self.wf(),
        ensures
            self.pending().dom().disjoint(self.loaded().dom()),
    {
    }

    /// Nothing loaded and nothing being generated.
    pub fn new() -> (locks: ChunkLocks)
        ensures
            locks.wf(),
            locks.pending() == Map::<ChunkCoordinates, Seq<u64>>::empty(),
            locks.loaded() == Map::<ChunkCoordinates, Set<u64>>::empty(),
    {
        let locks = ChunkLocks { pending: CoordinateMap::new(), loaded: CoordinateMap::new() };
        assert(locks.pending() =~= Map::<ChunkCoordinates, Seq<u64>>::empty());
        assert(locks.loaded() =~= Map::<ChunkCoordinates, Set<u64>>::empty());
        locks
    }

    /// `player` locks the chunk at `coordinates`. If the chunk is being
    /// generated, the player joins the end of its queue; if it is loaded, the
    /// player holds it and is sent it now; otherwise generation starts with
    /// the player as the only one waiting.
    pub fn lock_and_load_chunk(&mut self, player: u64, coordinates: ChunkCoordinates) -> (outcome: LockOutcome)
        requires
            old(self).wf(),
        ensures
            final(self).wf(),
            old(self).pending().contains_key(coordinates) ==> {
                &&& outcome == LockOutcome::Queued
                &&& final(self).pending() == old(self).pending().insert(
                    coordinates,
                    old(self).pending()[coordinates].push(player),
                )
                &&& final(self).loaded() == old(self).loaded()
            },
            old(self).loaded().contains_key(coordinates) ==> {
                &&& outcome == LockOutcome::SyncNow
                &&& final(self).loaded() == old(self).loaded().insert(
                    coordinates,
                    old(self).loaded()[coordinates].insert(player),
                )
                &&& final(self).pending() == old(self).pending()
            },
            !old(self).pending().contains_key(coordinates) && !old(self).loaded().contains_key(coordinates) ==> {
                &&& outcome == LockOutcome::Generate
                &&& final(self).pending() == old(self).pending().insert(coordinates, seq![player])
                &&& final(self).loaded() == old(self).loaded()
            },
            final(self).waits_for(player, coordinates) || final(self).holds(player, coordinates),
    {
        proof { self.lemma_disjoint(); }
        if let Some(waiting) = self.pending.get(&coordinates) {
            let mut waiting = waiting.clone();
            assert(waiting@ == old(self).pending.view()[coordinates]@);
            waiting.push(player);
            let ghost new_waiting = waiting@;
            self.pending.insert(coordinates, waiting);
            assert(self.pending() =~= old(self).pending().insert(coordinates, new_waiting));
            return LockOutcome::Queued;
        }
        if let Some(holders) = self.loaded.get(&coordinates) {
            let mut holders = holders.clone();
            assert(holders@ == old(self).loaded.view()[coordinates]@);
            if !contains_player(&holders, player) {
                holders.push(player);
            }
            let ghost new_holders = holders@;
            assert(new_holders.to_set() =~= old(self).loaded()[coordinates].insert(player));
            assert(new_holders.no_duplicates());
            self.loaded.insert(coordinates, holders);
            assert(self.loaded() =~= old(self).loaded().insert(coordinates, new_holders.to_set()));
            return LockOutcome::SyncNow;
        }
        let mut waiting: Vec<u64> = Vec::new();
        waiting.push(player);
        let ghost new_waiting = waiting@;
        assert(new_waiting == seq![player]);
        self.pending.insert(coordinates, waiting);
        assert(self.pending() =~= old(self).pending().insert(coordinates, seq![player]));
        LockOutcome::Generate
    }

    /// `player` releases the chunk at `coordinates`. A loaded chunk that no
    /// player holds any more is unloaded; whether that happened is returned.
    /// Releasing a chunk that is not loaded changes nothing.
    pub fn release_chunk(&mut self, player: u64, coordinates: ChunkCoordinates) -> (unloaded: bool)
        requires
            old(self).wf(),
        ensures
            final(self).wf(),
            final(self).pending() == old(self).pending(),
            !old(self).loaded().contains_key(coordinates) ==> !unloaded && final(self).loaded() == old(self).loaded(),
            old(self).loaded().contains_key(coordinates) ==> {
                let remaining = old(self).loaded()[coordinates].remove(player);
                &&& unloaded == remaining.is_empty()
                &&& unloaded ==> final(self).loaded() == old(self).loaded().remove(coordinates)
                &&& !unloaded ==> final(self).loaded() == old(self).loaded().insert(coordinates, remaining)
            },
            !final(self).holds(player, coordinates),
    {
        let holders = match self.loaded.get(&coordinates) {
            None => return false,
            Some(holders) => holders.clone(),
        };
        assert(holders@ == old(self).loaded.view()[coordinates]@);
        let mut remaining: Vec<u64> = Vec::new();
        let mut i: usize = 0;
        while i < holders.len()
            invariant
                i <= holders@.len(),
                holders@.no_duplicates(),
                remaining@.no_duplicates(),
                remaining@.to_set() == holders@.take(i as int).to_set().remove(player),
                forall|j: int| 0 <= j < remaining@.len() ==> holders@.take(i as int).contains(#[trigger] remaining@[j]),
            decreases holders.len() - i,
        {
            let ghost before = remaining@;
            assert(holders@.take(i + 1) == holders@.take(i as int).push(holders@[i as int]));
            if holders[i] != player {
                assert(!holders@.take(i as int).contains(holders@[i as int]));
                remaining.push(holders[i]);
            }
            assert(remaining@.to_set() =~= holders@.take(i + 1).to_set().remove(player));
            i = i + 1;
        }
        assert(holders@.take(holders@.len() as int) == holders@);
        if remaining.len() == 0 {
            assert(remaining@.to_set() =~= Set::<u64>::empty());
            let _ = self.loaded.remove(&coordinates);
            assert(self.loaded() =~= old(self).loaded().remove(coordinates));
            true
        } else {
            assert(remaining@.to_set().contains(remaining@[0]));
            let ghost new_holders = remaining@;
            self.loaded.insert(coordinates, remaining);
            assert(self.loaded() =~= old(self).loaded().insert(coordinates, new_holders.to_set()));
            false
        }
    }

    /// The chunk at `coordinates` finished generating. If players are
    /// waiting for it, it becomes loaded, held by those of them that are
    /// still connected, and those are returned in the order they asked (to
    /// be sent the chunk). If no player is waiting, the chunk is discarded.
    pub fn complete_chunk(&mut self, coordinates: ChunkCoordinates, connected: &Vec<u64>) -> (synced: Option<Vec<u64>>)
        requires
            old(self).wf(),
        ensures
            final(self).wf(),
            !old(self).pending().contains_key(coordinates) ==> {
                &&& synced is None
                &&& final(self).pending() == old(self).pending()
                &&& final(self).loaded() == old(self).loaded()
            },
            old(self).pending().contains_key(coordinates) ==> {
                let sent = old(self).pending()[coordinates].filter(is_connected(connected@));
                &&& synced matches Some(players) && players@ == sent
                &&& final(self).pending() == old(self).pending().remove(coordinates)
                &&& final(self).loaded() == old(self).loaded().insert(coordinates, sent.to_set())
                &&& forall|player: u64| old(self).waits_for(player, coordinates) ==>
                    (final(self).holds(player, coordinates) <==> connected@.contains(player))
            },
    {
        proof { self.lemma_disjoint(); }
        let waiting = match self.pending.remove(&coordinates) {
            None => return None,
            Some(waiting) => waiting,
        };
        let ghost keep = is_connected(connected@);
        let mut sent: Vec<u64> = Vec::new();
        let mut holders: Vec<u64> = Vec::new();
        let mut i: usize = 0;
        while i < waiting.len()
            invariant
                i <= waiting@.len(),
                keep == is_connected(connected@),
                sent@ == waiting@.take(i as int).filter(keep),
                holders@.no_duplicates(),
                holders@.to_set() == sent@.to_set(),
            decreases waiting.len() - i,
        {
            let player = waiting[i];
            assert(waiting@.take(i + 1).drop_last() == waiting@.take(i as int));
            reveal_with_fuel(Seq::filter, 1);
            if contains_player(connected, player) {
                sent.push(player);
                if !contains_player(&holders, player) {
                    holders.push(player);
                }
            }
            assert(holders@.to_set() =~= sent@.to_set());
            i = i + 1;
        }
        assert(waiting@.take(waiting@.len() as int) == waiting@);
        let ghost new_holders = holders@;
        self.loaded.insert(coordinates, holders);
        assert(self.pending() =~= old(self).pending().remove(coordinates));
        assert(self.loaded() =~= old(self).loaded().insert(coordinates, new_holders.to_set()));
        Some(sent)
    }
}

/// How many tick locks hold a chunk. The chunk ticks while at least one
/// does: the first lock starts its ticking and the last release stops it.
pub struct TickLockCount {
    count: usize,
}

impl TickLockCount {
    /// The number of tick locks held.
    pub closed spec fn count(&self) -> nat {
        self.count as nat
    }

    /// No tick locks.
    pub fn new() -> (counter: TickLockCount)
        ensures
            counter.count() == 0,
    {
        TickLockCount { count: 0 }
    }

    /// One more tick lock; whether it is the first, so that the chunk starts
    /// ticking.
    pub fn acquire(&mut self) -> (first: bool)
        requires
            old(self).count() < usize::MAX,
        ensures
            final(self).count() == old(self).count() + 1,
            first == (old(self).count() == 0),
    {
        let previous = self.count;
        self.count = previous + 1;
        previous == 0
    }

    /// One tick lock fewer; whether it was the last, so that the chunk stops
    /// ticking.
    pub fn release(&mut self) -> (last: bool)
        requires
            old(self).count() > 0,
        ensures
            final(self).count() == old(self).count() - 1,
            last == (old(self).count() == 1),
    {
        let previous = self.count;
        self.count = previous - 1;
        previous == 1
    }
}

/// A tick lock that is acquired and then released leaves the count as it
/// was, and the release is the last exactly when the acquire was the first.
pub proof fn lemma_acquire_release(count: nat)
    requires
        count < usize::MAX,
    ensures
        (count + 1) - 1 == count,
        ((count + 1) == 1) == (count == 0),
{
}

/// The number of tick locks on `c` by the counts `m`: none when `c` is not
/// in the map.
pub open spec fn count_of(m: Map<ChunkCoordinates, nat>, c: ChunkCoordinates) -> nat {
    if m.contains_key(c) { m[c] } else { 0 }
}

/// The counts after each chunk of `chunks` gains one tick lock.
pub open spec fn locked(m: Map<ChunkCoordinates, nat>, chunks: Seq<ChunkCoordinates>) -> Map<ChunkCoordinates, nat> {
    Map::new(
        |c: ChunkCoordinates| m.contains_key(c) || chunks.contains(c),
        |c: ChunkCoordinates| count_of(m, c) + if chunks.contains(c) { 1nat } else { 0nat },
    )
}

/// The counts after each chunk of `chunks` loses one tick lock; a chunk
/// whose last lock goes leaves the map.
pub open spec fn released(m: Map<ChunkCoordinates, nat>, chunks: Seq<ChunkCoordinates>) -> Map<ChunkCoordinates, nat> {
    Map::new(
        |c: ChunkCoordinates| m.contains_key(c) && !(chunks.contains(c) && m[c] == 1),
        |c: ChunkCoordinates| if chunks.contains(c) { (m[c] - 1) as nat } else { m[c] },
    )
}

/// The tick locks on the chunks of a sector: how many locks hold each
/// chunk. A tick lock holds the 27 chunks around a player's chunk; a chunk
/// starts ticking when its first lock is taken and stops when its last lock
/// is released.
pub struct TickLocks {
    counts: CoordinateMap<usize>,
}

impl TickLocks {
    /// The number of locks on each chunk that has any.
    pub closed spec fn counts(&self) -> Map<ChunkCoordinates, nat> {
        self.counts.view().map_values(|n: usize| n as nat)
    }

    /// The representation is consistent, and a chunk in the map has a lock.
    pub closed spec fn wf(&self) -> bool {
        &&& self.counts.wf()
        &&& forall|c: ChunkCoordinates| #[trigger] self.counts.view().contains_key(c) ==> self.counts.view()[c] > 0
    }

    /// No locks.
    pub fn new() -> (locks: TickLocks)
        ensures
            locks.wf(),
            locks.counts() == Map::<ChunkCoordinates, nat>::empty(),
    {
        let locks = TickLocks { counts: CoordinateMap::new() };
        assert(locks.counts() =~= Map::<ChunkCoordinates, nat>::empty());
        locks
    }

    /// Takes a tick lock on each of `chunks` (distinct chunks, such as the 27
    /// around a player's chunk). Returns the chunks that had no lock, in the
    /// order given: they start ticking.
    pub fn lock(&mut self, chunks: &Vec<ChunkCoordinates>) -> (started: Vec<ChunkCoordinates>)
        requires
            old(self).wf(),
            chunks@.no_duplicates(),
            forall|c: ChunkCoordinates| chunks@.contains(c) ==> count_of(old(self).counts(), c) < usize::MAX,
        ensures
            final(self).wf(),
            final(self).counts() == locked(old(self).counts(), chunks@),
            started@ == chunks@.filter(|c: ChunkCoordinates| !old(self).counts().contains_key(c)),
    {
        let ghost before = self.counts();
        let ghost fresh = |c: ChunkCoordinates| !before.contains_key(c);
        let mut started: Vec<ChunkCoordinates> = Vec::new();
        let mut i: usize = 0;
        while i < chunks.len()
            invariant
                i <= chunks@.len(),
                self.wf(),
                chunks@.no_duplicates(),
                forall|c: ChunkCoordinates| chunks@.contains(c) ==> count_of(before, c) < usize::MAX,
                fresh == (|c: ChunkCoordinates| !before.contains_key(c)),
                self.counts() == locked(before, chunks@.take(i as int)),
                started@ == chunks@.take(i as int).filter(fresh),
            decreases chunks.len() - i,
        {
            let c = chunks[i];
            let ghost prefix = chunks@.take(i as int);
            let ghost current = self.counts();
            assert(chunks@.take(i + 1) == prefix.push(c));
            assert(!prefix.contains(c)) by {
                if prefix.contains(c) {
                    let j = choose|j: int| 0 <= j < prefix.len() && prefix[j] == c;
                    assert(chunks@[j] == chunks@[i as int]);
                }
            }
            assert(chunks@.contains(c)) by { assert(chunks@[i as int] == c); }
            assert(count_of(current, c) == count_of(before, c));
            proof { reveal(Seq::filter); }
            assert(prefix.push(c).drop_last() == prefix);
            let ghost raw = self.counts.view();
            match self.counts.get(&c) {
                Some(n) => {
                    let n = *n;
                    assert(current[c] == n as nat);
                    self.counts.insert(c, n + 1);
                },
                None => {
                    self.counts.insert(c, 1);
                    started.push(c);
                },
            }
            assert(self.counts() =~= current.insert(c, count_of(before, c) + 1)) by {
                assert(self.counts.view() == raw.insert(c, self.counts.view()[c]));
            }
            assert(current.insert(c, count_of(before, c) + 1) =~= locked(before, prefix.push(c))) by {
                assert forall|x: ChunkCoordinates| #[trigger] prefix.push(c).contains(x) <==> (prefix.contains(x) || x == c) by {
                    if prefix.push(c).contains(x) && x != c {
                        let j = choose|j: int| 0 <= j < prefix.len() + 1 && prefix.push(c)[j] == x;
                        assert(prefix[j] == x);
                    }
                    if x == c {
                        assert(prefix.push(c)[prefix.len() as int] == c);
                    }
                    if prefix.contains(x) {
                        let j = choose|j: int| 0 <= j < prefix.len() && prefix[j] == x;
                        assert(prefix.push(c)[j] == x);
                    }
                }
            }
            i = i + 1;
        }
        assert(chunks@.take(chunks@.len() as int) == chunks@);
        started
    }

    /// Releases a tick lock on each of `chunks` (distinct chunks, each
    /// locked). Returns the chunks whose last lock this was, in the order
    /// given: they stop ticking.
    pub fn release(&mut self, chunks: &Vec<ChunkCoordinates>) -> (stopped: Vec<ChunkCoordinates>)
        requires
            old(self).wf(),
            chunks@.no_duplicates(),
            forall|c: ChunkCoordinates| chunks@.contains(c) ==> old(self).counts().contains_key(c),
        ensures
            final(self).wf(),
            final(self).counts() == released(old(self).counts(), chunks@),
            stopped@ == chunks@.filter(|c: ChunkCoordinates| old(self).counts()[c] == 1),
    {
        let ghost before = self.counts();
        let ghost last = |c: ChunkCoordinates| before[c] == 1;
        let mut stopped: Vec<ChunkCoordinates> = Vec::new();
        let mut i: usize = 0;
        while i < chunks.len()
            invariant
                i <= chunks@.len(),
                self.wf(),
                chunks@.no_duplicates(),
                forall|c: ChunkCoordinates| chunks@.contains(c) ==> before.contains_key(c),
                last == (|c: ChunkCoordinates| before[c] == 1),
                self.counts() == released(before, chunks@.take(i as int)),
                stopped@ == chunks@.take(i as int).filter(last),
            decreases chunks.len() - i,
        {
            let c = chunks[i];
            let ghost prefix = chunks@.take(i as int);
            assert(chunks@.take(i + 1) == prefix.push(c));
            assert(!prefix.contains(c)) by {
                if prefix.contains(c) {
                    let j = choose|j: int| 0 <= j < prefix.len() && prefix[j] == c;
                    assert(chunks@[j] == chunks@[i as int]);
                }
            }
            assert(chunks@.contains(c)) by { assert(chunks@[i as int] == c); }
            assert(self.counts().contains_key(c) && self.counts()[c] == before[c]);
            proof { reveal(Seq::filter); }
            assert(prefix.push(c).drop_last() == prefix);
            let n = match self.counts.get(&c) {
                Some(n) => *n,
                None => 0,
            };
            let ghost current = self.counts();
            let ghost raw = self.counts.view();
            assert(n as nat == before[c]);
            if n == 1 {
                let _ = self.counts.remove(&c);
                stopped.push(c);
                assert(self.counts() =~= current.remove(c));
            } else {
                self.counts.insert(c, n - 1);
                assert(self.counts() =~= current.insert(c, (n - 1) as nat));
            }
            assert forall|x: ChunkCoordinates| #[trigger] prefix.push(c).contains(x) <==> (prefix.contains(x) || x == c) by {
                if prefix.push(c).contains(x) && x != c {
                    let j = choose|j: int| 0 <= j < prefix.len() + 1 && prefix.push(c)[j] == x;
                    assert(prefix[j] == x);
                }
                if x == c {
                    assert(prefix.push(c)[prefix.len() as int] == c);
                }
                if prefix.contains(x) {
                    let j = choose|j: int| 0 <= j < prefix.len() && prefix[j] == x;
                    assert(prefix.push(c)[j] == x);
                }
            }
            assert(self.counts() =~= released(before, prefix.push(c)));
            i = i + 1;
        }
        assert(chunks@.take(chunks@.len() as int) == chunks@);
        stopped
    }
}

impl TickLocks {
    /// A tick lock around a player's chunk `center`: each of the 27 chunks
    /// around it gains a lock. Returns those that had none, which start
    /// ticking.
    pub fn lock_around(&mut self, center: ChunkCoordinates) -> (started: Vec<ChunkCoordinates>)
        requires
            old(self).wf(),
            inner(center),
            forall|c: ChunkCoordinates| around(center).contains(c) ==> count_of(old(self).counts(), c) < usize::MAX,
        ensures
            final(self).wf(),
            final(self).counts() == locked(old(self).counts(), around(center)),
            started@ == around(center).filter(|c: ChunkCoordinates| !old(self).counts().contains_key(c)),
    {
        let chunks = neighbourhood(center);
        proof { lemma_around_distinct(center); }
        self.lock(&chunks)
    }

    /// Releases the tick lock around `center` taken by [`Self::lock_around`].
    /// Returns the chunks whose last lock this was, which stop ticking.
    pub fn release_around(&mut self, center: ChunkCoordinates) -> (stopped: Vec<ChunkCoordinates>)
        requires
            old(self).wf(),
            inner(center),
            forall|c: ChunkCoordinates| around(center).contains(c) ==> old(self).counts().contains_key(c),
        ensures
            final(self).wf(),
            final(self).counts() == released(old(self).counts(), around(center)),
            stopped@ == around(center).filter(|c: ChunkCoordinates| old(self).counts()[c] == 1),
    {
        let chunks = neighbourhood(center);
        proof { lemma_around_distinct(center); }
        self.release(&chunks)
    }

    /// Every count in the map is at least one.
    pub proof fn lemma_counts_positive(&self)
        requires
            self.wf(),
        ensures
            forall|c: ChunkCoordinates| #[trigger] self.counts().contains_key(c) ==> self.counts()[c] > 0,
    {
    }
}

proof fn lemma_filter_agree(s: Seq<ChunkCoordinates>, p: spec_fn(ChunkCoordinates) -> bool, q: spec_fn(ChunkCoordinates) -> bool)
    requires
        forall|i: int| 0 <= i < s.len() ==> p(s[i]) == q(s[i]),
    ensures
        s.filter(p) == s.filter(q),
    decreases s.len(),
{
    reveal(Seq::filter);
    if s.len() > 0 {
        lemma_filter_agree(s.drop_last(), p, q);
        assert(p(s[s.len() - 1]) == q(s[s.len() - 1]));
    }
}

/// Releasing a tick lock on the chunks just locked gives back the counts as
/// they were, and the chunks that stop ticking are the ones that started.
pub proof fn lemma_lock_release(m: Map<ChunkCoordinates, nat>, chunks: Seq<ChunkCoordinates>)
    requires
        forall|c: ChunkCoordinates| #[trigger] m.contains_key(c) ==> m[c] > 0,
    ensures
        released(locked(m, chunks), chunks) == m,
        chunks.filter(|c: ChunkCoordinates| locked(m, chunks)[c] == 1)
            == chunks.filter(|c: ChunkCoordinates| !m.contains_key(c)),
{
    assert(released(locked(m, chunks), chunks) =~= m);
    let after = locked(m, chunks);
    assert forall|i: int| 0 <= i < chunks.len() implies
        (after[chunks[i]] == 1) == !m.contains_key(chunks[i]) by {
        assert(chunks.contains(chunks[i]));
    }
    lemma_filter_agree(chunks, |c: ChunkCoordinates| after[c] == 1, |c: ChunkCoordinates| !m.contains_key(c));
}

/// Which of the held chunk locks to keep, and which wanted chunks to lock
/// anew. A held lock is kept when its chunk is wanted and no earlier held
/// lock is for the same chunk; the wanted chunks that no held lock is for
/// are added, in the order they are wanted.
pub open spec fn kept_lock(held: Seq<ChunkCoordinates>, wanted: Seq<ChunkCoordinates>, i: int) -> bool {
    wanted.contains(held[i]) && !held.take(i).contains(held[i])
}

/// Updates a player's chunk locks to the chunks it now wants (`wanted`
/// holds no chunk twice): gives, for each held lock, whether it is kept,
/// and the chunks to lock anew.
pub fn update_locks(held: &Vec<ChunkCoordinates>, wanted: &Vec<ChunkCoordinates>) -> (update: (Vec<bool>, Vec<ChunkCoordinates>))
    requires
        wanted@.no_duplicates(),
    ensures
        update.0@.len() == held@.len(),
        forall|i: int| 0 <= i < held@.len() ==> #[trigger] update.0@[i] == kept_lock(held@, wanted@, i),
        update.1@ == wanted@.filter(|c: ChunkCoordinates| !held@.contains(c)),
{
    let mut keep: Vec<bool> = Vec::new();
    let mut i: usize = 0;
    while i < held.len()
        invariant
            i <= held@.len(),
            keep@.len() == i,
            forall|j: int| 0 <= j < i ==> #[trigger] keep@[j] == kept_lock(held@, wanted@, j),
        decreases held.len() - i,
    {
        let c = held[i];
        let mut wanted_it = false;
        let mut w: usize = 0;
        while w < wanted.len()
            invariant
                w <= wanted@.len(),
                wanted_it == wanted@.take(w as int).contains(c),
            decreases wanted.len() - w,
        {
            assert(wanted@.take(w + 1) == wanted@.take(w as int).push(wanted@[w as int]));
            if wanted[w] == c {
                wanted_it = true;
            }
            w = w + 1;
        }
        assert(wanted@.take(wanted@.len() as int) == wanted@);
        let mut earlier = false;
        let mut h: usize = 0;
        while h < i
            invariant
                h <= i,
                i < held@.len(),
                c == held@[i as int],
                earlier == held@.take(h as int).contains(c),
            decreases i - h,
        {
            assert(held@.take(h + 1) == held@.take(h as int).push(held@[h as int]));
            if held[h] == c {
                earlier = true;
            }
            h = h + 1;
        }
        keep.push(wanted_it && !earlier);
        i = i + 1;
    }
    let ghost not_held = |c: ChunkCoordinates| !held@.contains(c);
    let mut add: Vec<ChunkCoordinates> = Vec::new();
    let mut w: usize = 0;
    while w < wanted.len()
        invariant
            w <= wanted@.len(),
            not_held == (|c: ChunkCoordinates| !held@.contains(c)),
            add@ == wanted@.take(w as int).filter(not_held),
        decreases wanted.len() - w,
    {
        let c = wanted[w];
        assert(wanted@.take(w + 1).drop_last() == wanted@.take(w as int));
        reveal_with_fuel(Seq::filter, 1);
        let mut found = false;
        let mut h: usize = 0;
        while h < held.len()
            invariant
                h <= held@.len(),
                found == held@.take(h as int).contains(c),
            decreases held.len() - h,
        {
            assert(held@.take(h + 1) == held@.take(h as int).push(held@[h as int]));
            if held[h] == c {
                found = true;
            }
            h = h + 1;
        }
        assert(held@.take(held@.len() as int) == held@);
        if !found {
            add.push(c);
        }
        w = w + 1;
    }
    assert(wanted@.take(wanted@.len() as int) == wanted@);
    (keep, add)
}

/// After an update, the player holds a lock for exactly the chunks it
/// wants: those of kept locks and those locked anew.
pub proof fn lemma_update_locks_covers_wanted(
    held: Seq<ChunkCoordinates>,
    wanted: Seq<ChunkCoordinates>,
    keep: Seq<bool>,
    add: Seq<ChunkCoordinates>,
)
    requires
        wanted.no_duplicates(),
        keep.len() == held.len(),
        forall|i: int| 0 <= i < held.len() ==> #[trigger] keep[i] == kept_lock(held, wanted, i),
        add == wanted.filter(|c: ChunkCoordinates| !held.contains(c)),
    ensures
        forall|c: ChunkCoordinates|
            wanted.contains(c) <==> (add.contains(c) || exists|i: int| 0 <= i < held.len() && keep[i] && held[i] == c),
        forall|i: int, j: int| 0 <= i < j < held.len() && keep[i] && keep[j] ==> held[i] != held[j],
{
    broadcast use vstd::seq_lib::group_filter_ensures;
    let pred = |c: ChunkCoordinates| !held.contains(c);
    assert forall|c: ChunkCoordinates|
        wanted.contains(c) <==> (add.contains(c) || exists|i: int| 0 <= i < held.len() && keep[i] && held[i] == c) by {
        if wanted.contains(c) {
            if held.contains(c) {
                let i0 = choose|i: int| 0 <= i < held.len() && held[i] == c;
                lemma_first_occurrence(held, c, i0);
                let i = choose|i: int| 0 <= i <= i0 && held[i] == c && forall|j: int| 0 <= j < i ==> held[j] != c;
                assert(!held.take(i).contains(c));
                assert(keep[i]);
                assert(0 <= i < held.len() && keep[i] && held[i] == c);
            } else {
                let k = choose|k: int| 0 <= k < wanted.len() && wanted[k] == c;
                assert(pred(wanted[k]));
                assert(add.contains(c));
            }
        }
        if add.contains(c) {
            wanted.lemma_filter_contains_rev(pred, c);
        }
        if exists|i: int| 0 <= i < held.len() && keep[i] && held[i] == c {
            let i = choose|i: int| 0 <= i < held.len() && keep[i] && held[i] == c;
            assert(kept_lock(held, wanted, i));
        }
    }
    assert forall|i: int, j: int| 0 <= i < j < held.len() && keep[i] && keep[j] implies held[i] != held[j] by {
        assert(kept_lock(held, wanted, j));
        if held[i] == held[j] {
            assert(held.take(j)[i] == held[i]);
        }
    }
}

proof fn lemma_first_occurrence(s: Seq<ChunkCoordinates>, c: ChunkCoordinates, i0: int)
    requires
        0 <= i0 < s.len(),
        s[i0] == c,
    ensures
        exists|i: int| 0 <= i <= i0 && s[i] == c && forall|j: int| 0 <= j < i ==> s[j] != c,
    decreases i0,
{
    if exists|j: int| 0 <= j < i0 && s[j] == c {
        let j = choose|j: int| 0 <= j < i0 && s[j] == c;
        lemma_first_occurrence(s, c, j);
    } else {
        assert(forall|j: int| 0 <= j < i0 ==> s[j] != c);
    }
}

} // verus!

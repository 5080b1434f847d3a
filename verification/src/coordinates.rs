//! Chunk coordinates, and a map keyed by them.

use vstd::prelude::*;

verus! {

/// The coordinates of a chunk: the voxject it belongs to, its position in
/// chunks at its level, and its level (each level up halves the resolution).
#[derive(Clone, Copy, Debug, PartialEq, Eq, Structural, Hash)]
pub struct ChunkCoordinates {
    pub voxject: u64,
    pub x: i32,
    pub y: i32,
    pub z: i32,
    pub level: u8,
}

/// The coordinates `(dx, dy, dz)` chunks away at the same level of the same
/// voxject.
pub open spec fn offset(c: ChunkCoordinates, dx: int, dy: int, dz: int) -> ChunkCoordinates {
    ChunkCoordinates { x: (c.x + dx) as i32, y: (c.y + dy) as i32, z: (c.z + dz) as i32, ..c }
}

/// Coordinates whose neighbours one chunk away on every axis are
/// representable.
pub open spec fn inner(c: ChunkCoordinates) -> bool {
    &&& i32::MIN < c.x < i32::MAX
    &&& i32::MIN < c.y < i32::MAX
    &&& i32::MIN < c.z < i32::MAX
}

impl ChunkCoordinates {
    /// The coordinates `(dx, dy, dz)` chunks away; each step is -1, 0 or 1.
    pub fn offset(&self, dx: i32, dy: i32, dz: i32) -> (moved: ChunkCoordinates)
        requires
            inner(*self),
            -1 <= dx <= 1,
            -1 <= dy <= 1,
            -1 <= dz <= 1,
        ensures
            moved == offset(*self, dx as int, dy as int, dz as int),
    {
        ChunkCoordinates { x: self.x + dx, y: self.y + dy, z: self.z + dz, ..*self }
    }
}

/// The highest level: chunks there have no level above.
pub const TOP_LEVEL: u8 = 30;

/// The chunk one level up that covers `c`: each coordinate halved, rounded
/// down, at the next level.
pub open spec fn upleveled(c: ChunkCoordinates) -> ChunkCoordinates {
    ChunkCoordinates {
        x: (c.x / 2) as i32,
        y: (c.y / 2) as i32,
        z: (c.z / 2) as i32,
        level: (c.level + 1) as u8,
        ..c
    }
}

/// Whether a coordinate is odd, so that its chunk covers the upper half of
/// the chunk one level up on that axis.
pub open spec fn is_odd(v: i32) -> bool {
    v % 2 == 1
}

fn halved(v: i32) -> (half: i32)
    ensures
        half == v / 2,
{
    let half = v >> 1;
    assert(half == v / 2) by (bit_vector)
        requires half == v >> 1;
    half
}

fn odd(v: i32) -> (result: bool)
    ensures
        result == is_odd(v),
{
    let bit = v & 1;
    assert(bit == 1 <==> v % 2 == 1) by (bit_vector)
        requires bit == v & 1;
    bit == 1
}

impl ChunkCoordinates {
    /// The chunk one level up that covers this one.
    pub fn upleveled(&self) -> (up: ChunkCoordinates)
        requires
            self.level < 255,
        ensures
            up == upleveled(*self),
    {
        ChunkCoordinates {
            voxject: self.voxject,
            x: halved(self.x),
            y: halved(self.y),
            z: halved(self.z),
            level: self.level + 1,
        }
    }
}

/// The eight chunks a chunk's sample grid reaches into, in the order of
/// [`crate::chunk::dependency_offset`]: the chunk itself, then `(0, 0, 1)`,
/// `(0, 1, 0)`, …, `(1, 1, 1)` away.
pub fn dependency_coordinates(c: ChunkCoordinates) -> (dependencies: [ChunkCoordinates; 8])
    requires
        inner(c),
    ensures
        forall|k: int| 0 <= k < 8 ==> #[trigger] dependencies@[k] == offset(c, k / 4, (k / 2) % 2, k % 2),
        dependencies@ == dependencies_of(c),
{
    let dependencies = [
        c.offset(0, 0, 0),
        c.offset(0, 0, 1),
        c.offset(0, 1, 0),
        c.offset(0, 1, 1),
        c.offset(1, 0, 0),
        c.offset(1, 0, 1),
        c.offset(1, 1, 0),
        c.offset(1, 1, 1),
    ];
    assert forall|k: int| 0 <= k < 8 implies #[trigger] dependencies@[k] == offset(c, k / 4, (k / 2) % 2, k % 2) by {
        assert(c == offset(c, 0, 0, 0));
    }
    assert(dependencies@ =~= dependencies_of(c));
    dependencies
}

/// The eight chunks a chunk's sample grid reaches into, in the order of
/// [`dependency_coordinates`].
pub open spec fn dependencies_of(c: ChunkCoordinates) -> Seq<ChunkCoordinates> {
    Seq::new(8, |k: int| offset(c, k / 4, (k / 2) % 2, k % 2))
}

/// What building the mesh of `c` consults one level up: nothing at the top
/// level; otherwise the chunks one level up that cover the eight chunks its
/// grid reaches into (in the same order), the chunk one level up that
/// covers `c`, and whether each of `c`'s coordinates is odd (which half of
/// that chunk `c` covers).
pub fn level_above(c: ChunkCoordinates) -> (above: Option<([ChunkCoordinates; 8], ChunkCoordinates, (bool, bool, bool))>)
    requires
        inner(c),
        c.level <= TOP_LEVEL,
    ensures
        above is None <==> c.level == TOP_LEVEL,
        above matches Some((keys, up, parity)) ==> {
            &&& keys@ == dependencies_of(c).map_values(|d: ChunkCoordinates| upleveled(d))
            &&& up == upleveled(c)
            &&& parity == (is_odd(c.x), is_odd(c.y), is_odd(c.z))
        },
{
    if c.level == TOP_LEVEL {
        return None;
    }
    let dependencies = dependency_coordinates(c);
    let keys = [
        dependencies[0].upleveled(),
        dependencies[1].upleveled(),
        dependencies[2].upleveled(),
        dependencies[3].upleveled(),
        dependencies[4].upleveled(),
        dependencies[5].upleveled(),
        dependencies[6].upleveled(),
        dependencies[7].upleveled(),
    ];
    assert(keys@ =~= dependencies_of(c).map_values(|d: ChunkCoordinates| upleveled(d)));
    Some((keys, c.upleveled(), (odd(c.x), odd(c.y), odd(c.z))))
}

/// The 27 chunks around `c`, itself included, one chunk away at most on
/// every axis; `x` varies slowest and `z` fastest.
pub open spec fn around(c: ChunkCoordinates) -> Seq<ChunkCoordinates> {
    Seq::new(27, |k: int| offset(c, k / 9 - 1, (k / 3) % 3 - 1, k % 3 - 1))
}

proof fn lemma_base_three_digits(i: int, j: int)
    requires
        0 <= i < 27,
        0 <= j < 27,
        i != j,
    ensures
        i / 9 != j / 9 || (i / 3) % 3 != (j / 3) % 3 || i % 3 != j % 3,
{
    assert(i == 9 * (i / 9) + 3 * ((i / 3) % 3) + i % 3) by (nonlinear_arith)
        requires 0 <= i < 27;
    assert(j == 9 * (j / 9) + 3 * ((j / 3) % 3) + j % 3) by (nonlinear_arith)
        requires 0 <= j < 27;
}

/// No chunk occurs twice around a chunk.
pub proof fn lemma_around_distinct(c: ChunkCoordinates)
    requires
        inner(c),
    ensures
        around(c).no_duplicates(),
{
    assert forall|i: int, j: int| 0 <= i < 27 && 0 <= j < 27 && i != j implies around(c)[i] != around(c)[j] by {
        lemma_base_three_digits(i, j);
        let (a, b) = (around(c)[i], around(c)[j]);
        assert(a.x == c.x + i / 9 - 1 && b.x == c.x + j / 9 - 1);
        assert(a.y == c.y + (i / 3) % 3 - 1 && b.y == c.y + (j / 3) % 3 - 1);
        assert(a.z == c.z + i % 3 - 1 && b.z == c.z + j % 3 - 1);
    }
}

/// The 27 chunks around a chunk, itself included, one chunk away at most on
/// every axis; `x` varies slowest and `z` fastest.
pub fn neighbourhood(c: ChunkCoordinates) -> (chunks: Vec<ChunkCoordinates>)
    requires
        inner(c),
    ensures
        chunks@.len() == 27,
        forall|k: int| 0 <= k < 27 ==> #[trigger] chunks@[k] == offset(c, k / 9 - 1, (k / 3) % 3 - 1, k % 3 - 1),
        chunks@ == around(c),
{
    let mut chunks: Vec<ChunkCoordinates> = Vec::new();
    let mut dx: i32 = -1;
    while dx <= 1
        invariant
            -1 <= dx <= 2,
            inner(c),
            chunks@.len() == 9 * (dx + 1),
            forall|k: int| 0 <= k < chunks@.len() ==> #[trigger] chunks@[k] == offset(c, k / 9 - 1, (k / 3) % 3 - 1, k % 3 - 1),
        decreases 2 - dx,
    {
        let mut dy: i32 = -1;
        while dy <= 1
            invariant
                -1 <= dx <= 1,
                -1 <= dy <= 2,
                inner(c),
                chunks@.len() == 9 * (dx + 1) + 3 * (dy + 1),
                forall|k: int| 0 <= k < chunks@.len() ==> #[trigger] chunks@[k] == offset(c, k / 9 - 1, (k / 3) % 3 - 1, k % 3 - 1),
            decreases 2 - dy,
        {
            let mut dz: i32 = -1;
            while dz <= 1
                invariant
                    -1 <= dx <= 1,
                    -1 <= dy <= 1,
                    -1 <= dz <= 2,
                    inner(c),
                    chunks@.len() == 9 * (dx + 1) + 3 * (dy + 1) + (dz + 1),
                    forall|k: int| 0 <= k < chunks@.len() ==> #[trigger] chunks@[k] == offset(c, k / 9 - 1, (k / 3) % 3 - 1, k % 3 - 1),
                decreases 2 - dz,
            {
                let ghost k = chunks@.len() as int;
                chunks.push(c.offset(dx, dy, dz));
                assert(k / 9 - 1 == dx && (k / 3) % 3 - 1 == dy && k % 3 - 1 == dz);
                dz = dz + 1;
            }
            dy = dy + 1;
        }
        dx = dx + 1;
    }
    assert(chunks@ =~= around(c));
    chunks
}

/// A map from chunk coordinates to values, kept as a list of entries with
/// distinct keys. A hashed map needs a key whose hashing the verifier can
/// rely on; chunk coordinates derive their hash, and they are too wide
/// (168 bits) to pack into an integer key, so the map is a list whose view
/// is a `Map`.
pub struct CoordinateMap<V> {
    entries: Vec<(ChunkCoordinates, V)>,
}

impl<V> CoordinateMap<V> {
    /// No key occurs twice among the entries.
    pub closed spec fn wf(&self) -> bool {
        forall|i: int, j: int|
            0 <= i < j < self.entries@.len() ==> #[trigger] self.entries@[i].0 != #[trigger] self.entries@[j].0
    }

    spec fn has_key_at(&self, key: ChunkCoordinates, i: int) -> bool {
        0 <= i < self.entries@.len() && self.entries@[i].0 == key
    }

    /// The map's contents.
    pub closed spec fn view(&self) -> Map<ChunkCoordinates, V> {
        Map::new(
            |key: ChunkCoordinates| exists|i: int| self.has_key_at(key, i),
            |key: ChunkCoordinates| self.entries@[choose|i: int| self.has_key_at(key, i)].1,
        )
    }

    proof fn lemma_entry_in_view(&self, i: int)
        requires
            self.wf(),
            0 <= i < self.entries@.len(),
        ensures
            self.view().contains_key(self.entries@[i].0),
            self.view()[self.entries@[i].0] == self.entries@[i].1,
    {
        let key = self.entries@[i].0;
        assert(self.has_key_at(key, i));
        let j = choose|j: int| self.has_key_at(key, j);
        if i != j {
            if i < j {
                assert(self.entries@[i].0 != self.entries@[j].0);
            } else {
                assert(self.entries@[j].0 != self.entries@[i].0);
            }
        }
    }

    /// An empty map.
    pub fn new() -> (map: CoordinateMap<V>)
        ensures
            map.wf(),
            map.view() == Map::<ChunkCoordinates, V>::empty(),
    {
        let map = CoordinateMap { entries: Vec::new() };
        assert(map.view() =~= Map::<ChunkCoordinates, V>::empty());
        map
    }

    /// The number of keys.
    pub fn len(&self) -> (length: usize)
        requires
            self.wf(),
        ensures
            length == self.view().len(),
    {
        proof { self.lemma_len(); }
        self.entries.len()
    }

    proof fn lemma_len(&self)
        requires
            self.wf(),
        ensures
            self.view().dom().finite(),
            self.view().len() == self.entries@.len(),
        decreases self.entries@.len(),
    {
        let keys = Seq::new(self.entries@.len(), |i: int| self.entries@[i].0);
        assert(self.view().dom() =~= keys.to_set()) by {
            assert forall|key: ChunkCoordinates| self.view().dom().contains(key) implies keys.to_set().contains(key) by {
                let i = choose|i: int| self.has_key_at(key, i);
                assert(keys[i] == key);
            }
            assert forall|key: ChunkCoordinates| keys.to_set().contains(key) implies self.view().dom().contains(key) by {
                let i = choose|i: int| 0 <= i < keys.len() && keys[i] == key;
                assert(self.has_key_at(key, i));
            }
        }
        assert(keys.no_duplicates()) by {
            assert forall|i: int, j: int| 0 <= i < keys.len() && 0 <= j < keys.len() && i != j implies keys[i] != keys[j] by {
                if i < j {
                    assert(self.entries@[i].0 != self.entries@[j].0);
                } else {
                    assert(self.entries@[j].0 != self.entries@[i].0);
                }
            }
        }
        keys.unique_seq_to_set();
    }

    /// The position of `key` among the entries, if it is a key.
    fn find(&self, key: &ChunkCoordinates) -> (found: Option<usize>)
        requires
            self.wf(),
        ensures
            match found {
                Some(i) => i < self.entries@.len() && self.entries@[i as int].0 == *key
                    && self.view().contains_key(*key) && self.view()[*key] == self.entries@[i as int].1,
                None => !self.view().contains_key(*key),
            },
    {
        let mut i: usize = 0;
        while i < self.entries.len()
            invariant
                i <= self.entries@.len(),
                self.wf(),
                forall|j: int| 0 <= j < i ==> self.entries@[j].0 != *key,
            decreases self.entries.len() - i,
        {
            if self.entries[i].0 == *key {
                proof { self.lemma_entry_in_view(i as int); }
                return Some(i);
            }
            i = i + 1;
        }
        None
    }

    /// Whether `key` is a key.
    pub fn contains_key(&self, key: &ChunkCoordinates) -> (contains: bool)
        requires
            self.wf(),
        ensures
            contains == self.view().contains_key(*key),
    {
        self.find(key).is_some()
    }

    /// The value of `key`, if it is a key.
    pub fn get(&self, key: &ChunkCoordinates) -> (value: Option<&V>)
        requires
            self.wf(),
        ensures
            match value {
                Some(v) => self.view().contains_key(*key) && self.view()[*key] == *v,
                None => !self.view().contains_key(*key),
            },
    {
        match self.find(key) {
            Some(i) => Some(&self.entries[i].1),
            None => None,
        }
    }

    /// Removes `key` and gives back its value, if it was a key.
    pub fn remove(&mut self, key: &ChunkCoordinates) -> (removed: Option<V>)
        requires
            old(self).wf(),
        ensures
            final(self).wf(),
            final(self).view() == old(self).view().remove(*key),
            match removed {
                Some(v) => old(self).view().contains_key(*key) && old(self).view()[*key] == v,
                None => !old(self).view().contains_key(*key),
            },
    {
        match self.find(key) {
            None => {
                assert(self.view() =~= old(self).view().remove(*key));
                None
            },
            Some(i) => {
                let ghost before = self.entries@;
                let entry = self.entries.remove(i);
                proof {
                    assert forall|a: int, b: int| 0 <= a < b < self.entries@.len() implies
                        #[trigger] self.entries@[a].0 != #[trigger] self.entries@[b].0 by {
                        let a0 = if a < i { a } else { a + 1 };
                        let b0 = if b < i { b } else { b + 1 };
                        assert(self.entries@[a] == before[a0]);
                        assert(self.entries@[b] == before[b0]);
                        assert(before[a0].0 != before[b0].0);
                    }
                    assert forall|k: ChunkCoordinates| #![auto] self.view().contains_key(k) <==> old(self).view().remove(*key).contains_key(k) by {
                        if self.view().contains_key(k) {
                            let j = choose|j: int| self.has_key_at(k, j);
                            let j0 = if j < i { j } else { j + 1 };
                            assert(old(self).has_key_at(k, j0));
                            assert(k != *key) by {
                                if k == *key {
                                    if j0 < i {
                                        assert(before[j0].0 != before[i as int].0);
                                    } else {
                                        assert(before[i as int].0 != before[j0].0);
                                    }
                                }
                            }
                        }
                        if old(self).view().remove(*key).contains_key(k) {
                            let j0 = choose|j: int| old(self).has_key_at(k, j);
                            assert(j0 != i);
                            let j = if j0 < i { j0 } else { j0 - 1 };
                            assert(self.has_key_at(k, j));
                        }
                    }
                    assert forall|k: ChunkCoordinates| #[trigger] self.view().contains_key(k) implies
                        self.view()[k] == old(self).view()[k] by {
                        let j = choose|j: int| self.has_key_at(k, j);
                        let j0 = if j < i { j } else { j + 1 };
                        self.lemma_entry_in_view(j);
                        old(self).lemma_entry_in_view(j0);
                    }
                    assert(self.view() =~= old(self).view().remove(*key));
                }
                Some(entry.1)
            },
        }
    }

    /// Sets the value of `key`, replacing any value it had.
    pub fn insert(&mut self, key: ChunkCoordinates, value: V)
        requires
            old(self).wf(),
        ensures
            final(self).wf(),
            final(self).view() == old(self).view().insert(key, value),
    {
        let _ = self.remove(&key);
        let ghost before = self.entries@;
        let ghost middle = *self;
        self.entries.push((key, value));
        proof {
            assert forall|a: int, b: int| 0 <= a < b < self.entries@.len() implies
                #[trigger] self.entries@[a].0 != #[trigger] self.entries@[b].0 by {
                if b == before.len() {
                    assert(middle.entries@[a] == self.entries@[a]);
                    if self.entries@[a].0 == key {
                        middle.lemma_entry_in_view(a);
                    }
                } else {
                    assert(before[a].0 != before[b].0);
                }
            }
            assert forall|k: ChunkCoordinates| #![auto] self.view().contains_key(k) <==> middle.view().insert(key, value).contains_key(k) by {
                if self.view().contains_key(k) && k != key {
                    let j = choose|j: int| self.has_key_at(k, j);
                    assert(j < before.len());
                    assert(middle.has_key_at(k, j));
                }
                if middle.view().contains_key(k) {
                    let j = choose|j: int| middle.has_key_at(k, j);
                    assert(self.has_key_at(k, j));
                }
                if k == key {
                    assert(self.has_key_at(k, before.len() as int));
                }
            }
            assert forall|k: ChunkCoordinates| #[trigger] self.view().contains_key(k) implies
                self.view()[k] == middle.view().insert(key, value)[k] by {
                let j = choose|j: int| self.has_key_at(k, j);
                self.lemma_entry_in_view(j);
                if k == key {
                    self.lemma_entry_in_view(before.len() as int);
                } else {
                    assert(j < before.len());
                    middle.lemma_entry_in_view(j);
                }
            }
            assert(self.view() =~= middle.view().insert(key, value));
            assert(middle.view().insert(key, value) =~= old(self).view().insert(key, value));
        }
    }

    /// The keys, in the order they are kept.
    pub fn keys(&self) -> (keys: Vec<ChunkCoordinates>)
        requires
            self.wf(),
        ensures
            keys@.no_duplicates(),
            keys@.to_set() == self.view().dom(),
    {
        let mut keys: Vec<ChunkCoordinates> = Vec::new();
        let mut i: usize = 0;
        while i < self.entries.len()
            invariant
                i <= self.entries@.len(),
                self.wf(),
                keys@.len() == i,
                forall|j: int| 0 <= j < i ==> #[trigger] keys@[j] == self.entries@[j].0,
            decreases self.entries.len() - i,
        {
            keys.push(self.entries[i].0);
            i = i + 1;
        }
        proof {
            assert forall|a: int, b: int| 0 <= a < keys@.len() && 0 <= b < keys@.len() && a != b implies keys@[a] != keys@[b] by {
                if a < b {
                    assert(self.entries@[a].0 != self.entries@[b].0);
                } else {
                    assert(self.entries@[b].0 != self.entries@[a].0);
                }
            }
            assert forall|k: ChunkCoordinates| keys@.to_set().contains(k) <==> self.view().dom().contains(k) by {
                if keys@.to_set().contains(k) {
                    let j = choose|j: int| 0 <= j < keys@.len() && keys@[j] == k;
                    assert(self.has_key_at(k, j));
                }
                if self.view().dom().contains(k) {
                    let j = choose|j: int| self.has_key_at(k, j);
                    assert(keys@[j] == k);
                }
            }
            assert(keys@.to_set() =~= self.view().dom());
        }
        keys
    }
}

} // verus!

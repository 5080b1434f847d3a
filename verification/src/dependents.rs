//! Which chunks' meshes depend on which chunks. A chunk's mesh is built from
//! the eight chunks its sample grid reaches into, and, while some of those
//! are missing, from the chunks one level up; when a chunk arrives or goes,
//! the chunks that depend on it are rebuilt.

use crate::chunk::{plan_gather, sample_plan, GatherPlan, UpleveledChunks, SAMPLE_VOLUME};
use crate::coordinates::{
    dependencies_of, dependency_coordinates, inner, is_odd, level_above, upleveled, ChunkCoordinates, CoordinateMap, TOP_LEVEL,
};
use vstd::prelude::*;

verus! {

broadcast use {
    vstd::seq_lib::group_seq_properties,
    vstd::seq::Seq::lemma_push_to_set_commute,
};

/// `dependent` now depends on `key`.
pub open spec fn add_dependent(
    map: Map<ChunkCoordinates, Set<ChunkCoordinates>>,
    key: ChunkCoordinates,
    dependent: ChunkCoordinates,
) -> Map<ChunkCoordinates, Set<ChunkCoordinates>> {
    map.insert(key, if map.contains_key(key) { map[key].insert(dependent) } else { set![dependent] })
}

/// `dependent` depends on each of `keys`.
pub open spec fn add_dependent_all(
    map: Map<ChunkCoordinates, Set<ChunkCoordinates>>,
    keys: Seq<ChunkCoordinates>,
    dependent: ChunkCoordinates,
) -> Map<ChunkCoordinates, Set<ChunkCoordinates>>
    decreases keys.len(),
{
    if keys.len() == 0 {
        map
    } else {
        add_dependent(add_dependent_all(map, keys.drop_last(), dependent), keys.last(), dependent)
    }
}

/// The dependency of `dependent` on the upleveled chunk `key` is added when
/// `needed` and removed otherwise; a chunk nothing depends on any more is
/// dropped from the map, and no dependency is recorded for a chunk the map
/// does not hold unless it is needed.
pub open spec fn adjust_dependent(
    map: Map<ChunkCoordinates, Set<ChunkCoordinates>>,
    key: ChunkCoordinates,
    dependent: ChunkCoordinates,
    needed: bool,
) -> Map<ChunkCoordinates, Set<ChunkCoordinates>> {
    if map.contains_key(key) {
        let dependents = if needed { map[key].insert(dependent) } else { map[key].remove(dependent) };
        if dependents.is_empty() {
            map.remove(key)
        } else {
            map.insert(key, dependents)
        }
    } else if needed {
        map.insert(key, set![dependent])
    } else {
        map
    }
}

/// [`adjust_dependent`] for each of `keys` in turn.
pub open spec fn adjust_dependent_all(
    map: Map<ChunkCoordinates, Set<ChunkCoordinates>>,
    keys: Seq<ChunkCoordinates>,
    dependent: ChunkCoordinates,
    needed: bool,
) -> Map<ChunkCoordinates, Set<ChunkCoordinates>>
    decreases keys.len(),
{
    if keys.len() == 0 {
        map
    } else {
        adjust_dependent(adjust_dependent_all(map, keys.drop_last(), dependent, needed), keys.last(), dependent, needed)
    }
}

/// For each chunk, the chunks whose meshes depend on it.
pub struct DependentChunks {
    map: CoordinateMap<Vec<ChunkCoordinates>>,
}

/// Whether `c` occurs in `chunks`.
fn contains_chunk(chunks: &Vec<ChunkCoordinates>, c: ChunkCoordinates) -> (found: bool)
    ensures
        found == chunks@.contains(c),
{
    let mut i: usize = 0;
    while i < chunks.len()
        invariant
            i <= chunks@.len(),
            forall|j: int| 0 <= j < i ==> chunks@[j] != c,
        decreases chunks.len() - i,
    {
        if chunks[i] == c {
            return true;
        }
        i = i + 1;
    }
    false
}

/// `chunks` without `c`.
fn without_chunk(chunks: &Vec<ChunkCoordinates>, c: ChunkCoordinates) -> (rest: Vec<ChunkCoordinates>)
    requires
        chunks@.no_duplicates(),
    ensures
        rest@.no_duplicates(),
        rest@.to_set() == chunks@.to_set().remove(c),
{
    let mut rest: Vec<ChunkCoordinates> = Vec::new();
    let mut i: usize = 0;
    while i < chunks.len()
        invariant
            i <= chunks@.len(),
            chunks@.no_duplicates(),
            rest@.no_duplicates(),
            rest@.to_set() == chunks@.take(i as int).to_set().remove(c),
        decreases chunks.len() - i,
    {
        assert(chunks@.take(i + 1) == chunks@.take(i as int).push(chunks@[i as int]));
        if chunks[i] != c {
            assert(!chunks@.take(i as int).contains(chunks@[i as int]));
            assert(!rest@.contains(chunks@[i as int])) by {
                if rest@.contains(chunks@[i as int]) {
                    assert(rest@.to_set().contains(chunks@[i as int]));
                }
            }
            rest.push(chunks[i]);
        }
        assert(rest@.to_set() =~= chunks@.take(i + 1).to_set().remove(c));
        i = i + 1;
    }
    assert(chunks@.take(chunks@.len() as int) == chunks@);
    rest
}

impl DependentChunks {
    /// For each chunk, the chunks whose meshes depend on it.
    pub closed spec fn view(&self) -> Map<ChunkCoordinates, Set<ChunkCoordinates>> {
        self.map.view().map_values(|chunks: Vec<ChunkCoordinates>| chunks@.to_set())
    }

    /// The representation is consistent, and every chunk in the map has a
    /// dependent.
    pub closed spec fn wf(&self) -> bool {
        &&& self.map.wf()
        &&& forall|key: ChunkCoordinates| #[trigger] self.map.view().contains_key(key) ==> {
            &&& self.map.view()[key]@.no_duplicates()
            &&& self.map.view()[key]@.len() > 0
        }
    }

    /// Every chunk in the map has at least one dependent.
    pub proof fn lemma_no_empty_entries(&self)
        requires
            self.wf(),
        ensures
            forall|key: ChunkCoordinates| #[trigger] self.view().contains_key(key) ==> !self.view()[key].is_empty(),
    {
        assert forall|key: ChunkCoordinates| #[trigger] self.view().contains_key(key) implies !self.view()[key].is_empty() by {
            let chunks = self.map.view()[key]@;
            assert(chunks.to_set().contains(chunks[0]));
        }
    }

    /// No dependencies.
    pub fn new() -> (dependents: DependentChunks)
        ensures
            dependents.wf(),
            dependents@ == Map::<ChunkCoordinates, Set<ChunkCoordinates>>::empty(),
    {
        let dependents = DependentChunks { map: CoordinateMap::new() };
        assert(dependents@ =~= Map::<ChunkCoordinates, Set<ChunkCoordinates>>::empty());
        dependents
    }

    /// The chunks that depend on `key`, none if it is not in the map.
    pub fn dependents(&self, key: &ChunkCoordinates) -> (chunks: Vec<ChunkCoordinates>)
        requires
            self.wf(),
        ensures
            chunks@.no_duplicates(),
            self@.contains_key(*key) ==> chunks@.to_set() == self@[*key],
            !self@.contains_key(*key) ==> chunks@.len() == 0,
    {
        match self.map.get(key) {
            Some(chunks) => {
                let copy = chunks.clone();
                assert(copy@ == chunks@);
                copy
            },
            None => Vec::new(),
        }
    }

    fn add(&mut self, key: ChunkCoordinates, dependent: ChunkCoordinates)
        requires
            old(self).wf(),
        ensures
            final(self).wf(),
            final(self)@ == add_dependent(old(self)@, key, dependent),
    {
        let mut chunks = match self.map.get(&key) {
            Some(chunks) => {
                let copy = chunks.clone();
                assert(copy@ == chunks@);
                copy
            },
            None => Vec::new(),
        };
        let ghost before = chunks@;
        if !contains_chunk(&chunks, dependent) {
            chunks.push(dependent);
        }
        let ghost after = chunks@;
        assert(after.to_set() =~= before.to_set().insert(dependent));
        assert(after.len() > 0);
        self.map.insert(key, chunks);
        proof {
            if old(self)@.contains_key(key) {
                assert(after.to_set() == old(self)@[key].insert(dependent));
            } else {
                assert(before.len() == 0);
                assert(after.to_set() =~= set![dependent]);
            }
        }
        assert(self@ =~= add_dependent(old(self)@, key, dependent));
    }

    fn adjust(&mut self, key: ChunkCoordinates, dependent: ChunkCoordinates, needed: bool)
        requires
            old(self).wf(),
        ensures
            final(self).wf(),
            final(self)@ == adjust_dependent(old(self)@, key, dependent, needed),
    {
        let chunks = match self.map.get(&key) {
            Some(chunks) => {
                let copy = chunks.clone();
                assert(copy@ == chunks@);
                copy
            },
            None => {
                if needed {
                    let mut chunks: Vec<ChunkCoordinates> = Vec::new();
                    chunks.push(dependent);
                    let ghost after = chunks@;
                    assert(after.to_set() =~= set![dependent]);
                    self.map.insert(key, chunks);
                    assert(self@ =~= adjust_dependent(old(self)@, key, dependent, needed));
                }
                return;
            },
        };
        let mut updated = if needed {
            let mut updated = chunks;
            if !contains_chunk(&updated, dependent) {
                updated.push(dependent);
            }
            updated
        } else {
            without_chunk(&chunks, dependent)
        };
        let ghost after = updated@;
        proof {
            if needed {
                assert(after.to_set() =~= old(self)@[key].insert(dependent));
            }
        }
        if updated.len() == 0 {
            assert(after.to_set() =~= Set::<ChunkCoordinates>::empty());
            let _ = self.map.remove(&key);
            assert(self@ =~= adjust_dependent(old(self)@, key, dependent, needed));
        } else {
            assert(after.to_set().contains(after[0]));
            self.map.insert(key, updated);
            assert(self@ =~= adjust_dependent(old(self)@, key, dependent, needed));
        }
    }

    /// Records the dependencies of the chunk `chunk` after an attempt to
    /// build its mesh: it depends on the eight chunks its grid reaches into;
    /// and, unless it is at the top level (`upleveled` is `None`), the
    /// upleveled chunk (the second element) depends on the eight upleveled
    /// chunks (the first) while upleveled data is needed, and stops depending
    /// on them when it is not.
    pub fn record(
        &mut self,
        chunk: ChunkCoordinates,
        dependencies: &[ChunkCoordinates; 8],
        upleveled: Option<([ChunkCoordinates; 8], ChunkCoordinates)>,
        need_upleveled: bool,
    )
        requires
            old(self).wf(),
        ensures
            final(self).wf(),
            final(self)@ == match upleveled {
                None => add_dependent_all(old(self)@, dependencies@, chunk),
                Some((keys, dependent)) => adjust_dependent_all(
                    add_dependent_all(old(self)@, dependencies@, chunk),
                    keys@,
                    dependent,
                    need_upleveled,
                ),
            },
    {
        let mut i: usize = 0;
        while i < 8
            invariant
                i <= 8,
                self.wf(),
                self@ == add_dependent_all(old(self)@, dependencies@.take(i as int), chunk),
            decreases 8 - i,
        {
            assert(dependencies@.take(i + 1).drop_last() == dependencies@.take(i as int));
            self.add(dependencies[i], chunk);
            i = i + 1;
        }
        assert(dependencies@.take(8) == dependencies@);
        let ghost added = self@;
        if let Some((keys, dependent)) = upleveled {
            let mut j: usize = 0;
            while j < 8
                invariant
                    j <= 8,
                    self.wf(),
                    self@ == adjust_dependent_all(added, keys@.take(j as int), dependent, need_upleveled),
                decreases 8 - j,
            {
                assert(keys@.take(j + 1).drop_last() == keys@.take(j as int));
                self.adjust(keys[j], dependent, need_upleveled);
                j = j + 1;
            }
            assert(keys@.take(8) == keys@);
        }
    }
}

/// Once a chunk's dependencies are recorded, it is a dependent of each of
/// the chunks it depends on, so that it is rebuilt when any of them arrives
/// or goes; the other chunks' dependents only gain it.
pub proof fn lemma_dependents_recorded(
    map: Map<ChunkCoordinates, Set<ChunkCoordinates>>,
    keys: Seq<ChunkCoordinates>,
    dependent: ChunkCoordinates,
)
    ensures
        forall|k: int| 0 <= k < keys.len() ==> {
            &&& #[trigger] add_dependent_all(map, keys, dependent).contains_key(keys[k])
            &&& add_dependent_all(map, keys, dependent)[keys[k]].contains(dependent)
        },
        forall|key: ChunkCoordinates| #[trigger] map.contains_key(key) ==> {
            &&& add_dependent_all(map, keys, dependent).contains_key(key)
            &&& map[key].subset_of(add_dependent_all(map, keys, dependent)[key])
        },
    decreases keys.len(),
{
    if keys.len() > 0 {
        let rest = keys.drop_last();
        lemma_dependents_recorded(map, rest, dependent);
        let inner = add_dependent_all(map, rest, dependent);
        assert forall|k: int| 0 <= k < keys.len() implies {
            &&& #[trigger] add_dependent_all(map, keys, dependent).contains_key(keys[k])
            &&& add_dependent_all(map, keys, dependent)[keys[k]].contains(dependent)
        } by {
            if k < keys.len() - 1 {
                assert(keys[k] == rest[k]);
                assert(inner.contains_key(rest[k]));
            }
        }
        assert forall|key: ChunkCoordinates| #[trigger] map.contains_key(key) implies {
            &&& add_dependent_all(map, keys, dependent).contains_key(key)
            &&& map[key].subset_of(add_dependent_all(map, keys, dependent)[key])
        } by {
            assert(inner.contains_key(key));
            assert(map[key].subset_of(inner[key]));
        }
    }
}

/// Once an upleveled dependency is adjusted, the upleveled chunk is a
/// dependent of each of the upleveled chunks exactly when upleveled data is
/// needed.
pub proof fn lemma_upleveled_dependents_adjusted(
    map: Map<ChunkCoordinates, Set<ChunkCoordinates>>,
    keys: Seq<ChunkCoordinates>,
    dependent: ChunkCoordinates,
    needed: bool,
)
    ensures
        forall|k: int| 0 <= k < keys.len() ==> (
            (#[trigger] adjust_dependent_all(map, keys, dependent, needed).contains_key(keys[k])
                && adjust_dependent_all(map, keys, dependent, needed)[keys[k]].contains(dependent))
            <==> needed
        ),
    decreases keys.len(),
{
    if keys.len() > 0 {
        let rest = keys.drop_last();
        lemma_upleveled_dependents_adjusted(map, rest, dependent, needed);
        let inner = adjust_dependent_all(map, rest, dependent, needed);
        let outer = adjust_dependent_all(map, keys, dependent, needed);
        let last = keys.last();
        assert(outer == adjust_dependent(inner, last, dependent, needed));
        assert forall|k: int| 0 <= k < keys.len() implies (
            (#[trigger] outer.contains_key(keys[k]) && outer[keys[k]].contains(dependent)) <==> needed
        ) by {
            if keys[k] == last {
                if inner.contains_key(last) {
                    let updated = if needed { inner[last].insert(dependent) } else { inner[last].remove(dependent) };
                    if needed {
                        assert(updated.contains(dependent));
                        assert(!updated.is_empty());
                    }
                }
            } else {
                assert(keys[k] == rest[k]);
                assert(outer.contains_key(keys[k]) == inner.contains_key(keys[k]));
                if inner.contains_key(keys[k]) {
                    assert(outer[keys[k]] == inner[keys[k]]);
                }
            }
        }
    }
}

/// What the build of `c` knows of the level above: nothing at the top
/// level; otherwise which of the chunks there are loaded and the parity of
/// `c`'s coordinates.
pub open spec fn upleveled_chunks_of(c: ChunkCoordinates, loaded_above: [bool; 8]) -> Option<UpleveledChunks> {
    if c.level == TOP_LEVEL {
        None
    } else {
        Some(UpleveledChunks { loaded: loaded_above, odd_x: is_odd(c.x), odd_y: is_odd(c.y), odd_z: is_odd(c.z) })
    }
}

/// The dependencies after an attempt to build `c`: it depends on the eight
/// chunks its grid reaches into; below the top level, the chunk one level up
/// that covers it depends on the chunks one level up that cover those eight
/// while upleveled data is `needed`, and stops depending on them otherwise.
pub open spec fn build_dependents(
    map: Map<ChunkCoordinates, Set<ChunkCoordinates>>,
    c: ChunkCoordinates,
    needed: bool,
) -> Map<ChunkCoordinates, Set<ChunkCoordinates>> {
    let added = add_dependent_all(map, dependencies_of(c), c);
    if c.level == TOP_LEVEL {
        added
    } else {
        adjust_dependent_all(
            added,
            dependencies_of(c).map_values(|d: ChunkCoordinates| upleveled(d)),
            upleveled(c),
            needed,
        )
    }
}

impl DependentChunks {
    /// An attempt to build the mesh of `c`: plans how its sample grid is
    /// filled, from which of the eight chunks it reaches into are loaded
    /// (`loaded`) and, below the top level, which of the chunks one level up
    /// that cover them are (`loaded_above`); then records what `c` depends
    /// on, so that it is rebuilt when any of those chunks arrives or goes.
    pub fn plan_build(&mut self, c: ChunkCoordinates, loaded: [bool; 8], loaded_above: [bool; 8]) -> (plan: GatherPlan)
        requires
            old(self).wf(),
            inner(c),
            c.level <= TOP_LEVEL,
        ensures
            final(self).wf(),
            plan.sources@.len() <= SAMPLE_VOLUME,
            forall|j: int| 0 <= j < plan.sources@.len() ==>
                sample_plan(loaded@, upleveled_chunks_of(c, loaded_above), j) == Some(#[trigger] plan.sources@[j]),
            plan.sources@.len() < SAMPLE_VOLUME ==>
                sample_plan(loaded@, upleveled_chunks_of(c, loaded_above), plan.sources@.len() as int) is None,
            plan.need_upleveled == (plan.sources@.len() < SAMPLE_VOLUME && c.level != TOP_LEVEL),
            final(self)@ == build_dependents(old(self)@, c, plan.need_upleveled),
    {
        let above = level_above(c);
        let up = match above {
            None => None,
            Some((_, _, (odd_x, odd_y, odd_z))) => Some(UpleveledChunks { loaded: loaded_above, odd_x, odd_y, odd_z }),
        };
        assert(up == upleveled_chunks_of(c, loaded_above));
        let plan = plan_gather(loaded, up);
        let dependencies = dependency_coordinates(c);
        let upleveled_keys = match above {
            None => None,
            Some((keys, covering, _)) => Some((keys, covering)),
        };
        self.record(c, &dependencies, upleveled_keys, plan.need_upleveled);
        plan
    }
}

proof fn lemma_adjust_elsewhere(
    map: Map<ChunkCoordinates, Set<ChunkCoordinates>>,
    keys: Seq<ChunkCoordinates>,
    dependent: ChunkCoordinates,
    needed: bool,
    key: ChunkCoordinates,
)
    requires
        !keys.contains(key),
    ensures
        adjust_dependent_all(map, keys, dependent, needed).contains_key(key) == map.contains_key(key),
        map.contains_key(key) ==> adjust_dependent_all(map, keys, dependent, needed)[key] == map[key],
    decreases keys.len(),
{
    if keys.len() > 0 {
        let rest = keys.drop_last();
        assert(!rest.contains(key)) by {
            if rest.contains(key) {
                let j = choose|j: int| 0 <= j < rest.len() && rest[j] == key;
                assert(keys[j] == key);
            }
        }
        assert(keys.last() != key) by {
            if keys.last() == key {
                assert(keys[keys.len() - 1] == key);
            }
        }
        lemma_adjust_elsewhere(map, rest, dependent, needed, key);
    }
}

/// After an attempt to build `c`, `c` is a dependent of each of the eight
/// chunks its grid reaches into; below the top level, the chunk one level up
/// that covers `c` is a dependent of each chunk one level up that covers
/// those eight exactly when upleveled data is `needed`.
pub proof fn lemma_build_dependents(
    map: Map<ChunkCoordinates, Set<ChunkCoordinates>>,
    c: ChunkCoordinates,
    needed: bool,
)
    requires
        c.level <= TOP_LEVEL,
    ensures
        forall|k: int| 0 <= k < 8 ==> {
            &&& #[trigger] build_dependents(map, c, needed).contains_key(dependencies_of(c)[k])
            &&& build_dependents(map, c, needed)[dependencies_of(c)[k]].contains(c)
        },
        c.level != TOP_LEVEL ==> forall|k: int| 0 <= k < 8 ==> {
            let key = #[trigger] upleveled(dependencies_of(c)[k]);
            (build_dependents(map, c, needed).contains_key(key)
                && build_dependents(map, c, needed)[key].contains(upleveled(c))) <==> needed
        },
{
    let deps = dependencies_of(c);
    let added = add_dependent_all(map, deps, c);
    lemma_dependents_recorded(map, deps, c);
    if c.level != TOP_LEVEL {
        let keys = deps.map_values(|d: ChunkCoordinates| upleveled(d));
        lemma_upleveled_dependents_adjusted(added, keys, upleveled(c), needed);
        assert forall|k: int| 0 <= k < 8 implies {
            &&& #[trigger] build_dependents(map, c, needed).contains_key(deps[k])
            &&& build_dependents(map, c, needed)[deps[k]].contains(c)
        } by {
            assert(deps.len() == 8);
            assert(add_dependent_all(map, deps, c).contains_key(deps[k]));
            assert(added.contains_key(deps[k]) && added[deps[k]].contains(c));
            assert(!keys.contains(deps[k])) by {
                if keys.contains(deps[k]) {
                    let j = choose|j: int| 0 <= j < keys.len() && keys[j] == deps[k];
                    assert(keys[j].level == deps[k].level + 1);
                }
            }
            lemma_adjust_elsewhere(added, keys, upleveled(c), needed, deps[k]);
        }
        assert forall|k: int| 0 <= k < 8 implies {
            let key = #[trigger] upleveled(dependencies_of(c)[k]);
            (build_dependents(map, c, needed).contains_key(key)
                && build_dependents(map, c, needed)[key].contains(upleveled(c))) <==> needed
        } by {
            assert(keys[k] == upleveled(deps[k]));
        }
    }
}

/// Adjusting the dependency of one dependent on chunks one level up leaves
/// every other dependent in place: whatever `keys`, `dependent` and
/// `needed`, a chunk `d` other than `dependent` that depended on `key`
/// still does, and one that did not still does not. `dependent` itself
/// depends on each of `keys` afterwards exactly when `needed`, and a key
/// whose dependents were not touched keeps its entry.
pub proof fn lemma_adjust_keeps_others(
    map: Map<ChunkCoordinates, Set<ChunkCoordinates>>,
    keys: Seq<ChunkCoordinates>,
    dependent: ChunkCoordinates,
    needed: bool,
    key: ChunkCoordinates,
    d: ChunkCoordinates,
)
    requires
        d != dependent,
    ensures
        (map.contains_key(key) && map[key].contains(d)) <==> ({
            let after = adjust_dependent_all(map, keys, dependent, needed);
            after.contains_key(key) && after[key].contains(d)
        }),
    decreases keys.len(),
{
    if keys.len() > 0 {
        let rest = keys.drop_last();
        lemma_adjust_keeps_others(map, rest, dependent, needed, key, d);
        let inner = adjust_dependent_all(map, rest, dependent, needed);
        let last = keys.last();
        if inner.contains_key(last) {
            let updated = if needed { inner[last].insert(dependent) } else { inner[last].remove(dependent) };
            assert(updated.contains(d) == inner[last].contains(d));
            if inner[last].contains(d) {
                assert(!updated.is_empty());
            }
        }
    }
}

/// An attempt to build `c` leaves every other dependent in place: a chunk
/// other than `c` and the chunk one level up that covers it, that depended
/// on some chunk, still does, and one that did not still does not.
pub proof fn lemma_build_keeps_others(
    map: Map<ChunkCoordinates, Set<ChunkCoordinates>>,
    c: ChunkCoordinates,
    needed: bool,
    key: ChunkCoordinates,
    d: ChunkCoordinates,
)
    requires
        d != c,
        d != upleveled(c),
    ensures
        (map.contains_key(key) && map[key].contains(d)) <==> ({
            let after = build_dependents(map, c, needed);
            after.contains_key(key) && after[key].contains(d)
        }),
{
    let added = add_dependent_all(map, dependencies_of(c), c);
    lemma_add_keeps_others(map, dependencies_of(c), c, key, d);
    if c.level != TOP_LEVEL {
        lemma_adjust_keeps_others(
            added,
            dependencies_of(c).map_values(|x: ChunkCoordinates| upleveled(x)),
            upleveled(c),
            needed,
            key,
            d,
        );
    }
}

proof fn lemma_add_keeps_others(
    map: Map<ChunkCoordinates, Set<ChunkCoordinates>>,
    keys: Seq<ChunkCoordinates>,
    dependent: ChunkCoordinates,
    key: ChunkCoordinates,
    d: ChunkCoordinates,
)
    requires
        d != dependent,
    ensures
        (map.contains_key(key) && map[key].contains(d)) <==> ({
            let after = add_dependent_all(map, keys, dependent);
            after.contains_key(key) && after[key].contains(d)
        }),
    decreases keys.len(),
{
    if keys.len() > 0 {
        lemma_add_keeps_others(map, keys.drop_last(), dependent, key, d);
    }
}

/// What a build consults one level up follows each axis on its own: below
/// the top level, the upleveled data is marked odd on an axis exactly when
/// the chunk's coordinate on that axis is odd, and the chunk one level up
/// that covers it has each coordinate halved and rounded down.
pub proof fn lemma_level_above_parity(c: ChunkCoordinates, loaded_above: [bool; 8])
    ensures
        upleveled_chunks_of(c, loaded_above) is None <==> c.level == 30,
        upleveled_chunks_of(c, loaded_above) matches Some(up) ==> {
            &&& up.loaded == loaded_above
            &&& up.odd_x == ((c.x as int) % 2 != 0)
            &&& up.odd_y == ((c.y as int) % 2 != 0)
            &&& up.odd_z == ((c.z as int) % 2 != 0)
        },
        2 * (upleveled(c).x as int) <= c.x as int <= 2 * (upleveled(c).x as int) + 1,
        2 * (upleveled(c).y as int) <= c.y as int <= 2 * (upleveled(c).y as int) + 1,
        2 * (upleveled(c).z as int) <= c.z as int <= 2 * (upleveled(c).z as int) + 1,
        upleveled(c).level == c.level + 1 || c.level == 255,
        upleveled(c).voxject == c.voxject,
{
}

} // verus!

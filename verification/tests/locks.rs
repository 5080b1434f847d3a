use solarscape::coordinates::{dependency_coordinates, level_above, neighbourhood, ChunkCoordinates, CoordinateMap};
use solarscape::dependents::DependentChunks;
use solarscape::locks::{update_locks, ChunkLocks, LockOutcome, TickLockCount, TickLocks};

fn at(x: i32, y: i32, z: i32) -> ChunkCoordinates {
    ChunkCoordinates { voxject: 1, x, y, z, level: 0 }
}

#[test]
fn chunk_lifecycle() {
    let mut locks = ChunkLocks::new();
    let c = at(0, 0, 0);
    assert_eq!(locks.lock_and_load_chunk(1, c), LockOutcome::Generate);
    assert_eq!(locks.lock_and_load_chunk(2, c), LockOutcome::Queued);
    assert_eq!(locks.lock_and_load_chunk(3, c), LockOutcome::Queued);
    assert_eq!(locks.complete_chunk(c, &vec![1, 3]), Some(vec![1, 3]));
    assert_eq!(locks.lock_and_load_chunk(4, c), LockOutcome::SyncNow);
    assert!(!locks.release_chunk(1, c));
    assert!(!locks.release_chunk(2, c));
    assert!(!locks.release_chunk(3, c));
    assert!(locks.release_chunk(4, c));
    assert_eq!(locks.lock_and_load_chunk(5, c), LockOutcome::Generate);
}

#[test]
fn completed_chunk_nobody_waits_for_is_discarded() {
    let mut locks = ChunkLocks::new();
    assert_eq!(locks.complete_chunk(at(1, 2, 3), &vec![1]), None);
    assert!(!locks.release_chunk(1, at(1, 2, 3)));
}

#[test]
fn completed_chunk_without_connected_waiters_is_loaded_unheld() {
    let mut locks = ChunkLocks::new();
    let c = at(0, 1, 0);
    assert_eq!(locks.lock_and_load_chunk(7, c), LockOutcome::Generate);
    assert_eq!(locks.complete_chunk(c, &vec![]), Some(vec![]));
    assert_eq!(locks.lock_and_load_chunk(8, c), LockOutcome::SyncNow);
}

#[test]
fn tick_lock_count() {
    let mut count = TickLockCount::new();
    assert!(count.acquire());
    assert!(!count.acquire());
    assert!(!count.release());
    assert!(count.release());
}

#[test]
fn lock_update_keeps_wanted_and_adds_new() {
    let held = vec![at(0, 0, 0), at(1, 0, 0), at(2, 0, 0)];
    let wanted = vec![at(2, 0, 0), at(3, 0, 0), at(0, 0, 0)];
    let (keep, add) = update_locks(&held, &wanted);
    assert_eq!(keep, vec![true, false, true]);
    assert_eq!(add, vec![at(3, 0, 0)]);
}

#[test]
fn lock_update_drops_duplicate_held_locks() {
    let held = vec![at(0, 0, 0), at(0, 0, 0)];
    let (keep, add) = update_locks(&held, &vec![at(0, 0, 0)]);
    assert_eq!(keep, vec![true, false]);
    assert!(add.is_empty());
}

#[test]
fn neighbourhood_of_a_chunk() {
    let chunks = neighbourhood(at(5, 5, 5));
    assert_eq!(chunks.len(), 27);
    assert_eq!(chunks[0], at(4, 4, 4));
    assert_eq!(chunks[1], at(4, 4, 5));
    assert_eq!(chunks[13], at(5, 5, 5));
    assert_eq!(chunks[26], at(6, 6, 6));
}

#[test]
fn dependencies_of_a_chunk() {
    let deps = dependency_coordinates(at(0, 0, 0));
    assert_eq!(deps[0], at(0, 0, 0));
    assert_eq!(deps[1], at(0, 0, 1));
    assert_eq!(deps[2], at(0, 1, 0));
    assert_eq!(deps[4], at(1, 0, 0));
    assert_eq!(deps[7], at(1, 1, 1));
}

#[test]
fn coordinate_map_operations() {
    let mut map: CoordinateMap<u32> = CoordinateMap::new();
    map.insert(at(0, 0, 0), 1);
    map.insert(at(1, 0, 0), 2);
    map.insert(at(0, 0, 0), 3);
    assert_eq!(map.len(), 2);
    assert_eq!(map.get(&at(0, 0, 0)), Some(&3));
    assert_eq!(map.remove(&at(1, 0, 0)), Some(2));
    assert_eq!(map.remove(&at(1, 0, 0)), None);
    assert!(!map.contains_key(&at(1, 0, 0)));
    assert_eq!(map.keys(), vec![at(0, 0, 0)]);
}

#[test]
fn dependents_are_recorded_and_adjusted() {
    let mut dependents = DependentChunks::new();
    let chunk = at(0, 0, 0);
    let deps = dependency_coordinates(chunk);
    let up = ChunkCoordinates { level: 1, ..chunk };
    let ups = [up; 8];
    dependents.record(chunk, &deps, Some((ups, up)), true);
    assert_eq!(dependents.dependents(&at(1, 1, 1)), vec![chunk]);
    assert_eq!(dependents.dependents(&up), vec![up]);
    dependents.record(chunk, &deps, Some((ups, up)), false);
    assert!(dependents.dependents(&up).is_empty());
    assert_eq!(dependents.dependents(&chunk), vec![chunk]);
    assert!(dependents.dependents(&at(9, 9, 9)).is_empty());
    let other = at(1, 0, 0);
    dependents.record(other, &dependency_coordinates(other), None, true);
    let mut shared = dependents.dependents(&at(1, 0, 0));
    shared.sort_by_key(|c| c.x);
    assert_eq!(shared, vec![chunk, other]);
}

#[test]
fn tick_locks_around_players_start_and_stop_ticking() {
    let mut locks = TickLocks::new();
    let first = locks.lock_around(at(0, 0, 0));
    assert_eq!(first, neighbourhood(at(0, 0, 0)));
    let second = locks.lock_around(at(1, 0, 0));
    assert_eq!(second.len(), 9);
    assert!(second.iter().all(|c| c.x == 2));
    let stopped = locks.release_around(at(0, 0, 0));
    assert_eq!(stopped.len(), 9);
    assert!(stopped.iter().all(|c| c.x == -1));
    let stopped = locks.release_around(at(1, 0, 0));
    assert_eq!(stopped.len(), 27);
    assert_eq!(locks.lock_around(at(5, 5, 5)).len(), 27);
}

#[test]
fn chunks_one_level_up_cover_halved_coordinates() {
    let up = ChunkCoordinates { voxject: 1, x: -3, y: 4, z: 5, level: 2 }.upleveled();
    assert_eq!(up, ChunkCoordinates { voxject: 1, x: -2, y: 2, z: 2, level: 3 });
    let (keys, covering, parity) = level_above(ChunkCoordinates { voxject: 1, x: -3, y: 4, z: 5, level: 2 }).unwrap();
    assert_eq!(covering, up);
    assert_eq!(parity, (true, false, true));
    assert_eq!(keys[7], ChunkCoordinates { voxject: 1, x: -1, y: 2, z: 3, level: 3 });
    assert!(level_above(ChunkCoordinates { voxject: 1, x: 0, y: 0, z: 0, level: 30 }).is_none());
}

#[test]
fn building_a_chunk_plans_and_records_its_dependencies() {
    let mut dependents = DependentChunks::new();
    let chunk = at(2, 2, 2);
    let plan = dependents.plan_build(chunk, [true; 8], [false; 8]);
    assert_eq!(plan.sources.len(), 4913);
    assert!(!plan.need_upleveled);
    for dependency in dependency_coordinates(chunk) {
        assert_eq!(dependents.dependents(&dependency), vec![chunk]);
    }
    let mut missing = [true; 8];
    missing[7] = false;
    let plan = dependents.plan_build(chunk, missing, [false; 8]);
    assert!(plan.need_upleveled);
    let up = chunk.upleveled();
    assert_eq!(dependents.dependents(&at(2, 2, 2).upleveled()), vec![up]);
    let plan = dependents.plan_build(chunk, missing, [true; 8]);
    assert!(!plan.need_upleveled);
    assert_eq!(plan.sources.len(), 4913);
    assert!(dependents.dependents(&at(3, 3, 3).upleveled()).is_empty());
    let top = ChunkCoordinates { voxject: 1, x: 0, y: 0, z: 0, level: 30 };
    let plan = dependents.plan_build(top, missing, [false; 8]);
    assert!(!plan.need_upleveled);
    assert!(plan.sources.len() < 4913);
}

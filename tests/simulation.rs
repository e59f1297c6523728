use evo::entity::{Entity, EntityClass, SpawnPattern};
use evo::map_data::MapData;
use evo::position::Position;
use evo::store::EntityId;
use evo::tick::{tick, tick_in_order, tick_with, Roll};
use evo::world::{spawn_entity, World};

fn flat_world(width: usize, height: usize, elevation: u8) -> World {
    let mut data = MapData::new(width, height);
    for y in 0..height {
        for x in 0..width {
            data.set_tile(x, y, elevation);
        }
    }
    World::new(data)
}

fn rolls(n: usize, offset: usize) -> Vec<Roll> {
    (0..n).map(|_| Roll { offset, lifetime: 0 }).collect()
}

fn id_at(world: &World, x: i16, y: i16) -> Option<EntityId> {
    world.map.get(Position::new(x, y)).unwrap().entity
}

fn entity_at(world: &World, x: i16, y: i16) -> Option<Entity> {
    id_at(world, x, y).and_then(|k| world.entity(k))
}

/// A plant species: lifetime exactly `life`, band [4, 6], given height, and a
/// close spawn pattern with this cost and age window.
fn add_plant(world: &mut World, name: &str, life: u16, height: u8, spawn: Option<(u16, u16, u16)>) -> usize {
    let d = world.create_data(name, EntityClass::Plant);
    let id = d.id;
    let d = d.set_lifetime(life, life + 1).unwrap();
    let d = d.set_altitude(4, 6).unwrap();
    let d = d.set_height(height);
    if let Some((cost, lo, hi)) = spawn {
        d.set_spawn(cost, lo, hi, SpawnPattern::Close).unwrap();
    }
    id
}

#[test]
fn lone_plant_spawns_when_old_enough() {
    // Lifetime exactly 40: a range [40, 40] is refused, [40, 41) is the same.
    let mut probe = flat_world(2, 2, 5);
    assert!(probe.create_data("probe", EntityClass::Plant).set_lifetime(40, 40).is_err());
    let mut world = flat_world(10, 10, 5);
    let species = add_plant(&mut world, "grass", 40, 1, Some((4, 10, 10)));
    spawn_entity(&mut world, species, Position::new(5, 5));
    let parent = id_at(&world, 5, 5).unwrap();
    for _ in 0..9 {
        tick_with(&mut world, &rolls(1, 0));
    }
    let before = world.entity(parent).unwrap();
    assert_eq!(before.age, 9);
    assert_eq!(before.lifetime, 40);
    assert_eq!(world.entity_count(), 1);
    // Offset 0 of the close pattern is one step left: (4, 5).
    tick_with(&mut world, &rolls(1, 0));
    let after = world.entity(parent).unwrap();
    assert_eq!(after.age, 10);
    assert_eq!(after.energy, before.energy + 4 - 4);
    assert_eq!(world.entity_count(), 2);
    let child = entity_at(&world, 4, 5).unwrap();
    assert_eq!(child.age, 0);
    assert_eq!(child.energy, 0);
    assert_eq!(child.lifetime, 40);
    assert_eq!(child.data_id, species);
    let tile = world.map.get(Position::new(4, 5)).unwrap();
    assert!(!tile.booked);
    assert_eq!(tile.entity_height, 1);
}

#[test]
fn out_of_bounds_positions_have_no_tile() {
    let mut world = flat_world(10, 7, 5);
    for (x, y) in [(-1, 0), (0, -1), (10, 0), (0, 7), (10, 7), (i16::MIN, 3), (3, i16::MAX), (-1, 1)] {
        assert!(world.map.get(Position::new(x, y)).is_none());
        assert!(world.map.get_mut(Position::new(x, y)).is_none());
    }
    assert!(world.map.get(Position::new(9, 6)).is_some());
    assert_eq!(world.map.get(Position::new(9, 6)).unwrap().pos, Position::new(9, 6));
}

#[test]
fn tick_ages_every_survivor_by_one() {
    let mut world = flat_world(12, 12, 5);
    let species = add_plant(&mut world, "grass", 30, 1, Some((2, 1, 30)));
    for (x, y) in [(1, 1), (2, 1), (5, 5), (9, 9), (10, 9)] {
        spawn_entity(&mut world, species, Position::new(x, y));
    }
    for _ in 0..5 {
        let ids = world.entity_ids();
        let before: Vec<(EntityId, Entity)> = ids.iter().map(|&k| (k, world.entity(k).unwrap())).collect();
        tick(&mut world);
        for (k, e) in before {
            if let Some(now) = world.entity(k) {
                assert_eq!(now.age, e.age + 1);
                assert_eq!(now.pos, e.pos);
            }
        }
    }
}

#[test]
fn entity_dies_when_age_reaches_lifetime() {
    let mut world = flat_world(6, 6, 5);
    let species = add_plant(&mut world, "short lived", 3, 1, None);
    spawn_entity(&mut world, species, Position::new(2, 2));
    let k = id_at(&world, 2, 2).unwrap();
    tick(&mut world);
    assert_eq!(world.entity(k).unwrap().age, 1);
    tick(&mut world);
    assert_eq!(world.entity(k).unwrap().age, 2);
    tick(&mut world);
    assert!(world.entity(k).is_none());
    assert_eq!(world.entity_count(), 0);
    assert!(world.map.get(Position::new(2, 2)).unwrap().entity.is_none());
}

#[test]
fn isolated_plant_gains_four_per_tick() {
    let mut world = flat_world(8, 8, 5);
    let species = add_plant(&mut world, "grass", 100, 1, None);
    spawn_entity(&mut world, species, Position::new(0, 0));
    let k = id_at(&world, 0, 0).unwrap();
    for t in 1..=5u16 {
        tick(&mut world);
        assert_eq!(world.entity(k).unwrap().energy, 4 * t);
    }
}

#[test]
fn shaded_plant_gains_less() {
    let mut world = flat_world(8, 8, 5);
    let species = add_plant(&mut world, "grass", 100, 1, None);
    spawn_entity(&mut world, species, Position::new(3, 3));
    spawn_entity(&mut world, species, Position::new(4, 3));
    spawn_entity(&mut world, species, Position::new(3, 4));
    let k = id_at(&world, 3, 3).unwrap();
    tick(&mut world);
    // Two equal neighbours shade it: sunlight 1, plus the flat 1.
    assert_eq!(world.entity(k).unwrap().energy, 2);
}

#[test]
fn plant_without_energy_or_light_starves() {
    let mut world = flat_world(3, 3, 5);
    let species = add_plant(&mut world, "moss", 100, 0, None);
    for (x, y) in [(1, 1), (1, 0), (0, 1), (2, 1), (1, 2)] {
        spawn_entity(&mut world, species, Position::new(x, y));
    }
    assert_eq!(world.entity_count(), 5);
    tick(&mut world);
    // The centre has four equal neighbours: 0 + 3 - 4 <= 0. Each arm has one.
    assert!(world.map.get(Position::new(1, 1)).unwrap().entity.is_none());
    assert_eq!(world.entity_count(), 4);
    // An arm sees the centre shade it only if it had its turn first.
    let arm = entity_at(&world, 1, 0).unwrap().energy;
    assert!(arm == 3 || arm == 4);
}

#[test]
fn creature_gains_two_per_tick() {
    let mut world = flat_world(4, 4, 5);
    let d = world.create_data("scorpid", EntityClass::Creature);
    d.set_lifetime(50, 51).unwrap();
    spawn_entity(&mut world, 0, Position::new(1, 1));
    spawn_entity(&mut world, 0, Position::new(2, 1));
    let k = id_at(&world, 1, 1).unwrap();
    tick(&mut world);
    tick(&mut world);
    assert_eq!(world.entity(k).unwrap().energy, 4);
}

#[test]
fn two_spawns_on_one_tile_only_one_commits() {
    let mut world = flat_world(9, 9, 5);
    let species = add_plant(&mut world, "grass", 50, 1, Some((0, 1, 1)));
    spawn_entity(&mut world, species, Position::new(3, 5));
    spawn_entity(&mut world, species, Position::new(5, 5));
    let west = id_at(&world, 3, 5).unwrap();
    // Aim the west parent right (offset 1) and the east one left (offset 0):
    // both at (4, 5).
    let order = world.entity_ids();
    let rolls: Vec<Roll> = order
        .iter()
        .map(|&k| Roll { offset: if k == west { 1 } else { 0 }, lifetime: 0 })
        .collect();
    tick_with(&mut world, &rolls);
    assert_eq!(world.entity_count(), 3);
    let child = entity_at(&world, 4, 5).unwrap();
    assert_eq!(child.age, 0);
    // Both parents had 4 energy after the gain; exactly one paid nothing and
    // the spawn cost is 0, so check the booking instead: one child only.
    let ages: Vec<u16> = world.entity_ids().iter().map(|&k| world.entity(k).unwrap().age).collect();
    assert_eq!(ages.iter().filter(|&&a| a == 0).count(), 1);
    assert!(!world.map.get(Position::new(4, 5)).unwrap().booked);
}

#[test]
fn spawn_exclusivity_charges_one_parent() {
    let mut world = flat_world(9, 9, 5);
    let species = add_plant(&mut world, "grass", 50, 1, Some((3, 1, 1)));
    spawn_entity(&mut world, species, Position::new(3, 5));
    spawn_entity(&mut world, species, Position::new(5, 5));
    let west = id_at(&world, 3, 5).unwrap();
    let east = id_at(&world, 5, 5).unwrap();
    let order = world.entity_ids();
    let rolls: Vec<Roll> = order
        .iter()
        .map(|&k| Roll { offset: if k == west { 1 } else { 0 }, lifetime: 0 })
        .collect();
    tick_with(&mut world, &rolls);
    let energies = [world.entity(west).unwrap().energy, world.entity(east).unwrap().energy];
    // Each gained 4; the one that spawned paid 3.
    let mut sorted = energies;
    sorted.sort();
    assert_eq!(sorted, [1, 4]);
    assert_eq!(world.entity_count(), 3);
}

#[test]
fn tick_on_empty_world_changes_nothing() {
    let mut data = MapData::new(5, 4);
    data.set_tile(2, 3, 7);
    let mut world = World::new(data);
    add_plant(&mut world, "grass", 10, 1, None);
    tick(&mut world);
    tick_with(&mut world, &Vec::new());
    assert_eq!(world.entity_count(), 0);
    for y in 0..4 {
        for x in 0..5 {
            let tile = world.map.get(Position::new(x, y)).unwrap();
            assert_eq!(tile.height, if (x, y) == (2, 3) { 7 } else { 0 });
            assert!(tile.is_free());
        }
    }
}

fn displacement_world(tall_spawns: bool) -> (World, EntityId, EntityId) {
    let mut world = flat_world(9, 9, 5);
    let spawning = Some((0, 1, 1));
    let tall = add_plant(&mut world, "tree", 100, 3, if tall_spawns { spawning } else { None });
    let short = add_plant(&mut world, "grass", 100, 1, if tall_spawns { None } else { spawning });
    spawn_entity(&mut world, tall, Position::new(5, 5));
    spawn_entity(&mut world, short, Position::new(4, 5));
    let t = id_at(&world, 5, 5).unwrap();
    let s = id_at(&world, 4, 5).unwrap();
    (world, t, s)
}

#[test]
fn taller_spawn_displaces_shorter_occupant() {
    let (mut world, tall, short) = displacement_world(true);
    let order = world.entity_ids();
    let rolls: Vec<Roll> = order.iter().map(|_| Roll { offset: 0, lifetime: 0 }).collect();
    tick_with(&mut world, &rolls);
    assert!(world.entity(short).is_none());
    assert!(world.entity(tall).is_some());
    let child_id = id_at(&world, 4, 5).unwrap();
    assert_ne!(child_id, short);
    let child = world.entity(child_id).unwrap();
    assert_eq!(child.height, 3);
    assert_eq!(child.age, 0);
    assert_eq!(world.map.get(Position::new(4, 5)).unwrap().entity_height, 3);
    assert_eq!(world.entity_count(), 2);
}

#[test]
fn taller_occupant_blocks_spawn() {
    let (mut world, tall, short) = displacement_world(false);
    // The short plant aims right (offset 1), at the tall one.
    let rolls: Vec<Roll> = world.entity_ids().iter().map(|_| Roll { offset: 1, lifetime: 0 }).collect();
    tick_with(&mut world, &rolls);
    assert_eq!(world.entity_count(), 2);
    assert_eq!(id_at(&world, 5, 5), Some(tall));
    assert_eq!(id_at(&world, 4, 5), Some(short));
    assert_eq!(world.entity(tall).unwrap().age, 1);
    assert_eq!(world.entity(short).unwrap().age, 1);
}

#[test]
fn spawn_needs_elevation_in_band() {
    let mut data = MapData::new(6, 6);
    for y in 0..6 {
        for x in 0..6 {
            data.set_tile(x, y, 5);
        }
    }
    data.set_tile(1, 2, 9);
    let mut world = World::new(data);
    let species = add_plant(&mut world, "grass", 50, 1, Some((0, 1, 1)));
    spawn_entity(&mut world, species, Position::new(2, 2));
    tick_with(&mut world, &rolls(1, 0));
    assert_eq!(world.entity_count(), 1);
    assert!(world.map.get(Position::new(1, 2)).unwrap().entity.is_none());
}

#[test]
fn spawn_off_the_map_fails() {
    let mut world = flat_world(4, 4, 5);
    let species = add_plant(&mut world, "grass", 50, 1, Some((0, 1, 1)));
    spawn_entity(&mut world, species, Position::new(0, 0));
    tick_with(&mut world, &rolls(1, 0));
    assert_eq!(world.entity_count(), 1);
}

#[test]
fn spawn_entity_skips_occupied_and_outside_tiles() {
    let mut world = flat_world(4, 4, 5);
    let species = add_plant(&mut world, "grass", 50, 1, None);
    spawn_entity(&mut world, species, Position::new(1, 1));
    let first = id_at(&world, 1, 1).unwrap();
    spawn_entity(&mut world, species, Position::new(1, 1));
    spawn_entity(&mut world, species, Position::new(4, 1));
    spawn_entity(&mut world, species, Position::new(-1, 1));
    assert_eq!(world.entity_count(), 1);
    assert_eq!(id_at(&world, 1, 1), Some(first));
    let e = world.entity(first).unwrap();
    assert_eq!(e.pos, Position::new(1, 1));
    assert_eq!(e.lifetime, 50);
    assert_eq!(world.map.get(Position::new(1, 1)).unwrap().entity_height, 1);
}

#[test]
fn spawn_entity_needs_a_lifetime_range() {
    let mut world = flat_world(4, 4, 5);
    world.create_data("unset", EntityClass::Plant);
    spawn_entity(&mut world, 0, Position::new(1, 1));
    assert_eq!(world.entity_count(), 0);
}

#[test]
fn removed_handle_is_not_reused() {
    let mut world = flat_world(4, 4, 5);
    let species = add_plant(&mut world, "mayfly", 1, 1, None);
    spawn_entity(&mut world, species, Position::new(1, 1));
    let old = id_at(&world, 1, 1).unwrap();
    tick(&mut world);
    assert!(world.entity(old).is_none());
    spawn_entity(&mut world, species, Position::new(1, 1));
    let new = id_at(&world, 1, 1).unwrap();
    assert_ne!(old, new);
    assert!(world.entity(old).is_none());
    assert!(world.entity(new).is_some());
}

#[test]
fn first_claim_on_a_tile_wins() {
    for west_first in [true, false] {
        let mut world = flat_world(9, 9, 5);
        let species = add_plant(&mut world, "grass", 50, 1, Some((3, 1, 1)));
        spawn_entity(&mut world, species, Position::new(3, 5));
        spawn_entity(&mut world, species, Position::new(5, 5));
        let west = id_at(&world, 3, 5).unwrap();
        let east = id_at(&world, 5, 5).unwrap();
        let order = if west_first { vec![west, east] } else { vec![east, west] };
        let rolls: Vec<Roll> = order
            .iter()
            .map(|&k| Roll { offset: if k == west { 1 } else { 0 }, lifetime: 0 })
            .collect();
        tick_in_order(&mut world, &order, &rolls);
        let (winner, loser) = if west_first { (west, east) } else { (east, west) };
        assert_eq!(world.entity(winner).unwrap().energy, 1);
        assert_eq!(world.entity(loser).unwrap().energy, 4);
        assert_eq!(world.entity_count(), 3);
        assert_eq!(entity_at(&world, 4, 5).unwrap().age, 0);
    }
}

#[test]
fn child_lifetime_comes_from_its_roll() {
    let mut world = flat_world(6, 6, 5);
    let d = world.create_data("bush", EntityClass::Plant);
    d.set_lifetime(60, 70).unwrap().set_altitude(4, 6).unwrap();
    d.set_spawn(0, 1, 1, SpawnPattern::Close).unwrap();
    spawn_entity(&mut world, 0, Position::new(2, 2));
    let parent = id_at(&world, 2, 2).unwrap();
    // Offset 3 of the close pattern is one step down.
    tick_in_order(&mut world, &vec![parent], &vec![Roll { offset: 7, lifetime: 25 }]);
    let child = entity_at(&world, 2, 3).unwrap();
    assert_eq!(child.lifetime, 65);
}

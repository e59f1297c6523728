use evo::config::{TILE_SIZE, UI_HEIGHT};
use evo::entity::{ConfigError, Entity, EntityClass, EntityData, SpawnPattern};
use evo::map::TileMap;
use evo::map_data::{load_tiled_layer, MapData};
use evo::position::Position;
use evo::session::{FrameAction, FrameInput, Session};
use evo::setup::{add_game_species, define_species, grass, scorpid};
use evo::tick::{get_neighbour_height, sunlight_for, wants_spawn};
use evo::view::{cell_at, screen_position, sheet_position, sprite_for_age};
use evo::world::{spawn_entity, World};

#[test]
fn position_add_and_overflow() {
    assert_eq!(Position::new(3, 4).add(Position::new(-1, 2)), Some(Position::new(2, 6)));
    assert_eq!(Position::new(i16::MAX, 0).add(Position::right()), None);
    assert_eq!(Position::new(0, i16::MIN).add(Position::up()), None);
    assert_eq!(Position::left(), Position::new(-1, 0));
    assert_eq!(Position::down(), Position::new(0, 1));
}

#[test]
fn map_data_stores_cells() {
    let mut d = MapData::new(3, 2);
    assert_eq!(d.get_width(), 3);
    assert_eq!(d.get_height(), 2);
    assert_eq!(d.get_tile(2, 1), 0);
    d.set_tile(2, 1, 9);
    d.set_tile(0, 1, 4);
    assert_eq!(d.get_tile(2, 1), 9);
    assert_eq!(d.get_tile(0, 1), 4);
    assert_eq!(d.get_tile(1, 1), 0);
}

#[test]
fn tiled_layer_subtracts_one() {
    let d = load_tiled_layer(2, 2, &vec![1, 2, 3, 4]).unwrap();
    assert_eq!(d.get_tile(0, 0), 0);
    assert_eq!(d.get_tile(1, 0), 1);
    assert_eq!(d.get_tile(0, 1), 2);
    assert_eq!(d.get_tile(1, 1), 3);
}

#[test]
fn tiled_layer_rejects_short_or_empty_cells() {
    assert!(load_tiled_layer(2, 2, &vec![1, 2, 3]).is_none());
    assert!(load_tiled_layer(2, 2, &vec![1, 0, 3, 4]).is_none());
    assert!(load_tiled_layer(0, 0, &vec![]).is_some());
}

#[test]
fn tile_map_is_laid_out_row_by_row() {
    let mut d = MapData::new(3, 2);
    d.set_tile(1, 1, 6);
    let map = TileMap::new(d);
    let t = map.get(Position::new(1, 1)).unwrap();
    assert_eq!(t.pos, Position::new(1, 1));
    assert_eq!(t.height, 6);
    assert!(t.is_free());
    let mut seen = Vec::new();
    map.for_each(|tile| seen.push((tile.pos.x, tile.pos.y, tile.height)));
    assert_eq!(seen, vec![(0, 0, 0), (1, 0, 0), (2, 0, 0), (0, 1, 0), (1, 1, 6), (2, 1, 0)]);
}

#[test]
fn tile_free_means_not_booked_and_empty() {
    let mut map = TileMap::new(MapData::new(2, 2));
    let tile = map.get_mut(Position::new(0, 0)).unwrap();
    tile.booked = true;
    assert!(!map.get(Position::new(0, 0)).unwrap().is_free());
    assert!(map.get(Position::new(1, 0)).unwrap().is_free());
}

#[test]
fn setters_refuse_reversed_ranges() {
    let mut d = EntityData::new(0, String::from("x"), EntityClass::Plant);
    assert_eq!(d.set_altitude(5, 4).err(), Some(ConfigError::AltitudeRange));
    assert_eq!(d.set_lifetime(7, 7).err(), Some(ConfigError::LifetimeRange));
    assert_eq!(d.set_lifetime(8, 7).err(), Some(ConfigError::LifetimeRange));
    assert_eq!(d.set_spawn(1, 9, 8, SpawnPattern::Close).err(), Some(ConfigError::SpawnAgeRange));
    assert_eq!(d.altitude_min, 0);
    assert_eq!(d.lifetime_max, 0);
    assert_eq!(d.spawn_pattern, None);
    d.set_altitude(4, 6).unwrap().set_height(2).set_sprite(11);
    assert_eq!((d.altitude_min, d.altitude_max, d.height, d.sprite), (4, 6, 2, 11));
    d.set_spawn(14, 20, 30, SpawnPattern::Circle).unwrap();
    assert_eq!((d.spawn_cost, d.spawn_age_min, d.spawn_age_max), (14, 20, 30));
    assert_eq!(d.spawn_pattern, Some(SpawnPattern::Circle));
}

#[test]
fn create_data_numbers_species_in_order() {
    let mut w = World::new(MapData::new(2, 2));
    assert_eq!(w.create_data("a", EntityClass::Plant).id, 0);
    let b = w.create_data("b", EntityClass::Creature);
    assert_eq!(b.id, 1);
    assert_eq!(b.name, "b");
    assert_eq!(b.class, EntityClass::Creature);
    assert_eq!(b.lifetime_max, 0);
    assert_eq!(w.data_store.len(), 2);
}

#[test]
fn newborn_lifetime_follows_the_draw() {
    let mut d = EntityData::new(3, String::from("bush"), EntityClass::Plant);
    d.set_lifetime(60, 70).unwrap().set_height(2);
    let e = Entity::with_draw(&d, Position::new(1, 2), 23);
    assert_eq!(e.lifetime, 63);
    assert_eq!((e.data_id, e.age, e.energy, e.height), (3, 0, 0, 2));
    assert_eq!(e.pos, Position::new(1, 2));
    for _ in 0..50 {
        let r = Entity::new(&d, Position::new(0, 0));
        assert!(r.lifetime >= 60 && r.lifetime < 70);
    }
}

#[test]
fn spawn_patterns_have_fixed_offsets() {
    let close = SpawnPattern::Close.offsets();
    assert_eq!(close, vec![Position::new(-1, 0), Position::new(1, 0), Position::new(0, -1), Position::new(0, 1)]);
    let circle = SpawnPattern::Circle.offsets();
    assert_eq!(circle.len(), 20);
    assert_eq!(circle[8], Position::new(-2, -1));
    assert_eq!(circle[19], Position::new(1, 2));
}

#[test]
fn neighbour_height_and_sunlight() {
    let mut w = World::new(MapData::new(5, 5));
    let d = w.create_data("tree", EntityClass::Plant);
    d.set_lifetime(10, 11).unwrap().set_height(3);
    let d = w.create_data("grass", EntityClass::Plant);
    d.set_lifetime(10, 11).unwrap().set_height(1);
    spawn_entity(&mut w, 1, Position::new(2, 2));
    spawn_entity(&mut w, 0, Position::new(1, 2));
    let k = w.map.get(Position::new(2, 2)).unwrap().entity.unwrap();
    let grass_plant = w.entity(k).unwrap();
    assert_eq!(get_neighbour_height(&w.map, &grass_plant, Position::left()), Some(3));
    assert_eq!(get_neighbour_height(&w.map, &grass_plant, Position::right()), None);
    assert_eq!(sunlight_for(&w.map, &grass_plant), 2);
    let corner = Entity { data_id: 1, pos: Position::new(0, 0), age: 0, lifetime: 5, height: 1, energy: 0 };
    assert_eq!(get_neighbour_height(&w.map, &corner, Position::up()), None);
    assert_eq!(sunlight_for(&w.map, &corner), 3);
}

#[test]
fn spawn_eligibility() {
    let mut d = EntityData::new(0, String::from("g"), EntityClass::Plant);
    d.set_lifetime(5, 50).unwrap();
    let e = Entity { data_id: 0, pos: Position::new(0, 0), age: 10, lifetime: 40, height: 1, energy: 4 };
    assert!(!wants_spawn(&e, &d));
    d.set_spawn(4, 10, 12, SpawnPattern::Close).unwrap();
    assert!(wants_spawn(&e, &d));
    assert!(!wants_spawn(&Entity { energy: 3, ..e }, &d));
    assert!(!wants_spawn(&Entity { age: 13, ..e }, &d));
    assert!(!wants_spawn(&Entity { age: 9, ..e }, &d));
}

#[test]
fn game_species_are_added_in_order() {
    let mut w = World::new(MapData::new(3, 3));
    add_game_species(&mut w);
    assert_eq!(w.data_store.len(), 4);
    let names: Vec<&str> = w.data_store.iter().map(|d| d.name.as_str()).collect();
    assert_eq!(names, vec!["grass", "bush", "tree", "scorpid"]);
    let g = &w.data_store[0];
    assert_eq!((g.lifetime_min, g.lifetime_max, g.height, g.spawn_cost, g.sprite), (40, 600, 1, 4, 28));
    assert_eq!(w.data_store[2].spawn_pattern, Some(SpawnPattern::Circle));
    assert_eq!(w.data_store[3].class, EntityClass::Creature);
    assert_eq!(w.data_store[3].id, 3);
    define_species(&mut w, "more grass", &grass());
    assert_eq!(w.data_store[4].id, 4);
    assert_eq!(scorpid().lifetime, (8, 14));
}

#[test]
fn sprite_grows_with_age() {
    assert_eq!(sprite_for_age(28, 0), 28);
    assert_eq!(sprite_for_age(28, 4), 28);
    assert_eq!(sprite_for_age(28, 5), 29);
    assert_eq!(sprite_for_age(28, 9), 30);
    assert_eq!(sprite_for_age(28, 13), 31);
}

#[test]
fn screen_and_sheet_coordinates() {
    assert_eq!(screen_position(Position::new(3, 2)), (3 * TILE_SIZE, 2 * TILE_SIZE + UI_HEIGHT));
    assert_eq!(screen_position(Position::new(0, 0)), (0, 8));
    assert_eq!(sheet_position(28), (32, 24));
    assert_eq!(sheet_position(7), (56, 0));
    assert_eq!(cell_at(17, 30), Position::new(2, 2));
    assert_eq!(cell_at(0, 3), Position::new(0, 0));
}

#[test]
fn session_steps_and_runs() {
    let mut s = Session::new(2);
    let none = FrameInput { reset: false, step: false, toggle_running: false, toggle_cursor: false };
    assert_eq!(s.update(none), FrameAction { reset: false, ticks: 0 });
    assert_eq!(s.update(FrameInput { step: true, ..none }), FrameAction { reset: false, ticks: 1 });
    assert_eq!(s.turn, 1);
    // Start running: the counter was 1, so this frame ticks at once.
    assert_eq!(s.update(FrameInput { toggle_running: true, ..none }).ticks, 1);
    assert!(s.running);
    assert_eq!(s.turn, 2);
    assert_eq!(s.update(none).ticks, 0);
    assert_eq!(s.update(none).ticks, 1);
    assert_eq!(s.turn, 3);
    let a = s.update(FrameInput { reset: true, toggle_cursor: true, ..none });
    assert_eq!(a, FrameAction { reset: true, ticks: 0 });
    assert_eq!(s.turn, 0);
    assert!(!s.running);
    assert!(!s.show_cursor);
}

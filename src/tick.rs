//! The tick engine: advances every entity by one step (ageing, energy,
//! reproduction) and then commits births and deaths together.
use vstd::prelude::*;
use vstd::set_lib::lemma_len_subset;
use crate::commit::{lemma_born_bound, place_born, placed_exactly, remove_dead};
use crate::entity::{at, newborn, Entity, EntityClass, EntityData};
use crate::map::{Tile, TileMap};
use crate::pass::{done, in_pass, step_entity};
use crate::position::{spec_sum, Position};
use crate::store::{store_keys, store_len, EntityId};
use crate::world::{catalog_ok, lemma_store_bound, occupant_ok, placed_ok, record_ok, World};

verus! {

/// The two random numbers one entity may use in one tick.
#[derive(Clone, Copy, Debug)]
pub struct Roll {
    /// Picks the spawn offset: an index into the pattern, taken modulo its length.
    pub offset: usize,
    /// Draws the lifetime of a child.
    pub lifetime: u16,
}

/// The height of whatever stands on the tile at `pos + delta`; `None` when
/// that tile is outside the map or nothing stands on it.
pub open spec fn neighbour_height(map: TileMap, pos: Position, delta: Position) -> Option<u8> {
    match spec_sum(pos, delta) {
        Some(q) => if map.in_bounds(q) && map.tile_at(q).entity.is_some() {
            Some(map.tile_at(q).entity_height)
        } else {
            None
        },
        None => None,
    }
}

/// The neighbour at `pos + delta` is at least `h` tall, and so shades an
/// entity of height `h` at `pos` from that side.
pub open spec fn shades(map: TileMap, pos: Position, delta: Position, h: u8) -> bool {
    neighbour_height(map, pos, delta) matches Some(nh) && nh >= h
}

/// 1 for true, 0 for false.
pub open spec fn count(b: bool) -> int {
    if b { 1 } else { 0 }
}

/// Sunlight reaching a plant of height `h` at `pos`: 3, less one for each
/// orthogonal neighbour that shades it.
pub open spec fn sunlight(map: TileMap, pos: Position, h: u8) -> int {
    3 - count(shades(map, pos, at(-1i16, 0i16), h)) - count(shades(map, pos, at(1i16, 0i16), h))
        - count(shades(map, pos, at(0i16, -1i16), h)) - count(shades(map, pos, at(0i16, 1i16), h))
}

/// Nothing stands on any orthogonal neighbour of `pos`.
pub open spec fn isolated(map: TileMap, pos: Position) -> bool {
    &&& neighbour_height(map, pos, at(-1i16, 0i16)).is_none()
    &&& neighbour_height(map, pos, at(1i16, 0i16)).is_none()
    &&& neighbour_height(map, pos, at(0i16, -1i16)).is_none()
    &&& neighbour_height(map, pos, at(0i16, 1i16)).is_none()
}

/// `v` capped at the largest energy.
pub open spec fn saturated(v: int) -> u16 {
    if v > u16::MAX { u16::MAX } else { v as u16 }
}

/// Energy after this tick's gain: sunlight for a plant, one for a creature,
/// and one more for either; capped at the largest energy.
pub open spec fn fed_energy(energy: u16, class: EntityClass, sun: int) -> u16 {
    match class {
        EntityClass::Plant => saturated(energy + sun + 1),
        EntityClass::Creature => saturated(energy + 2),
    }
}

/// A plant whose energy plus sunlight is not positive dies.
pub open spec fn starves(energy: u16, class: EntityClass, sun: int) -> bool {
    class == EntityClass::Plant && energy + sun <= 0
}

/// Entity `e` one tick older, after this tick's gain.
pub open spec fn aged_fed(e: Entity, class: EntityClass, sun: int) -> Entity {
    Entity { age: (e.age + 1) as u16, energy: fed_energy(e.energy, class, sun), ..e }
}

/// Entity `e` after paying `cost` for a child.
pub open spec fn paid(e: Entity, cost: u16) -> Entity {
    Entity { energy: (e.energy - cost) as u16, ..e }
}

/// Entity `e` of species `data` tries to spawn: the species has a pattern and
/// a lifetime range to draw from, `e` is within its spawn age window, and has
/// the energy the spawn costs.
pub open spec fn may_spawn(e: Entity, data: EntityData) -> bool {
    &&& data.spawn_pattern.is_some()
    &&& data.can_create()
    &&& data.spawn_age_min <= e.age <= data.spawn_age_max
    &&& e.energy >= data.spawn_cost
}

/// The tile that `e` aims its child at with this roll; `None` when the sum
/// leaves the coordinate range.
pub open spec fn spawn_target(e: Entity, data: EntityData, roll: Roll) -> Option<Position> {
    let offs = data.spawn_pattern.unwrap().spec_offsets();
    spec_sum(e.pos, offs[(roll.offset as int) % offs.len() as int])
}

/// Whether `tile` takes a child of species `data` whose parent is `h` tall:
/// its elevation is in the species' band, it is not booked, and it is empty or
/// holds an entity shorter than the parent.
pub open spec fn accepts(tile: Tile, data: EntityData, h: u8) -> bool {
    &&& data.altitude_min <= tile.height <= data.altitude_max
    &&& !tile.booked
    &&& (tile.entity.is_none() || tile.entity_height < h)
}

/// A tile once booked for a child takes no other child in the same tick.
pub proof fn lemma_booking_exclusive(tile: Tile, first: EntityData, h1: u8, second: EntityData, h2: u8)
    requires
        accepts(tile, first, h1),
    ensures
        !accepts(Tile { entity: None, booked: true, ..tile }, second, h2),
{
}

/// How `before`, of species `data`, may stand after a tick that it
/// survived: one tick older, in the same place, with this tick's gain for some
/// sunlight (full sunlight when it stood `isolated`), and less the spawn cost
/// if it spawned.
pub open spec fn survivor(before: Entity, after: Entity, data: EntityData, isolated: bool) -> bool {
    exists|sun: int| {
        &&& -1 <= sun <= 3
        &&& (isolated ==> sun == 3)
        &&& !starves(before.energy, data.class, sun)
        &&& (after == #[trigger] aged_fed(before, data.class, sun) || (may_spawn(
            aged_fed(before, data.class, sun),
            data,
        ) && after == paid(aged_fed(before, data.class, sun), data.spawn_cost)))
    }
}

/// `b` is a newborn of one of the species in `data`.
pub open spec fn newborn_ok(b: Entity, data: Seq<EntityData>) -> bool {
    &&& b.data_id < data.len()
    &&& b.age == 0
    &&& b.energy == 0
    &&& b.height == data[b.data_id as int].height
    &&& data[b.data_id as int].lifetime_min <= b.lifetime < data[b.data_id as int].lifetime_max
}

/// Child `b` waits for the commit on a booked tile of `map` whose elevation
/// suits its species.
pub open spec fn born_ok(map: TileMap, b: Entity, data: Seq<EntityData>) -> bool {
    &&& map.in_bounds(b.pos)
    &&& map.tile_at(b.pos).booked
    &&& newborn_ok(b, data)
    &&& data[b.data_id as int].altitude_min <= map.tile_at(b.pos).height <= data[b.data_id as int].altitude_max
}

/// The height of the occupant at `entity.pos + delta`, if that tile exists and
/// is occupied.
pub fn get_neighbour_height(map: &TileMap, entity: &Entity, delta: Position) -> (r: Option<u8>)
    requires
        map.wf(),
    ensures
        r == neighbour_height(*map, entity.pos, delta),
{
    match entity.pos.add(delta) {
        Some(q) => match map.get(q) {
            Some(tile) => if tile.entity.is_some() {
                Some(tile.entity_height)
            } else {
                None
            },
            None => None,
        },
        None => None,
    }
}

fn shaded_from(map: &TileMap, entity: &Entity, delta: Position) -> (r: bool)
    requires
        map.wf(),
    ensures
        r == shades(*map, entity.pos, delta, entity.height),
{
    match get_neighbour_height(map, entity, delta) {
        Some(h) => h >= entity.height,
        None => false,
    }
}

/// Sunlight reaching `entity` where it stands.
pub fn sunlight_for(map: &TileMap, entity: &Entity) -> (r: i32)
    requires
        map.wf(),
    ensures
        r == sunlight(*map, entity.pos, entity.height),
        -1 <= r <= 3,
{
    let mut sun: i32 = 3;
    if shaded_from(map, entity, Position::left()) {
        sun = sun - 1;
    }
    if shaded_from(map, entity, Position::right()) {
        sun = sun - 1;
    }
    if shaded_from(map, entity, Position::up()) {
        sun = sun - 1;
    }
    if shaded_from(map, entity, Position::down()) {
        sun = sun - 1;
    }
    sun
}

/// Whether entity `e` of species `data` tries to spawn.
pub fn wants_spawn(e: &Entity, data: &EntityData) -> (r: bool)
    ensures
        r == may_spawn(*e, *data),
{
    data.spawn_pattern.is_some() && data.can_create_exec() && data.spawn_age_min <= e.age
        && e.age <= data.spawn_age_max && e.energy >= data.spawn_cost
}

/// One spawn attempt of `parent`. When the target tile exists and accepts
/// the child, its occupant (if any) joins `dead` and leaves the tile, the tile
/// is booked, and the child joins `born`; otherwise nothing changes.
pub fn try_spawn(
    map: &mut TileMap,
    dead: &mut Vec<EntityId>,
    born: &mut Vec<Entity>,
    data: &EntityData,
    parent: &Entity,
    roll: Roll,
) -> (r: bool)
    requires
        old(map).wf(),
        may_spawn(*parent, *data),
    ensures
        r == (spawn_target(*parent, *data, roll) matches Some(q) && old(map).in_bounds(q) && accepts(
            old(map).tile_at(q),
            *data,
            parent.height,
        )),
        r ==> ({
            let q = spawn_target(*parent, *data, roll).unwrap();
            let tile = old(map).tile_at(q);
            &&& final(map).spec_width() == old(map).spec_width()
            &&& final(map).spec_height() == old(map).spec_height()
            &&& final(map).tiles_view() == old(map).tiles_view().update(
                old(map).index_of(q),
                Tile { entity: None, booked: true, ..tile },
            )
            &&& final(dead)@ == (match tile.entity {
                Some(v) => old(dead)@.push(v),
                None => old(dead)@,
            })
            &&& final(born)@ == old(born)@.push(newborn(*data, q, roll.lifetime))
        }),
        !r ==> {
            &&& *final(map) == *old(map)
            &&& final(dead)@ == old(dead)@
            &&& final(born)@ == old(born)@
        },
{
    let pattern = match data.spawn_pattern {
        Some(p) => p,
        None => return false,
    };
    let offsets = pattern.offsets();
    let offset = offsets[roll.offset % offsets.len()];
    let target = match parent.pos.add(offset) {
        Some(t) => t,
        None => return false,
    };
    let accepted = match map.get(target) {
        Some(tile) => tile.height >= data.altitude_min && tile.height <= data.altitude_max
            && !tile.booked && (tile.entity.is_none() || tile.entity_height < parent.height),
        None => false,
    };
    if !accepted {
        return false;
    }
    match map.get_mut(target) {
        Some(tile) => {
            match tile.entity {
                Some(v) => {
                    dead.push(v);
                    tile.entity = None;
                },
                None => {},
            }
            tile.booked = true;
        },
        None => {},
    }
    born.push(Entity::with_draw(data, target, roll.lifetime));
    true
}

/// The sunlight an entity of this class counts on at its turn (a creature's
/// gain does not depend on it).
pub open spec fn sun_of(map: TileMap, e: Entity, class: EntityClass) -> int {
    if class == EntityClass::Plant { sunlight(map, e.pos, e.height) } else { 3 }
}

/// Entity `k`'s turn, with roll `roll`, takes the first pass from
/// `(map, es, dead, born)` to `(map2, es2, dead2, born2)`:
/// - an entity that is gone or off its tile (displaced earlier) has no turn;
/// - one whose age reaches its lifetime, or a plant that starves, leaves its
///   tile and joins `dead`;
/// - any other ages and gains energy, and if it tries to spawn and its target
///   tile accepts the child, the child joins `born`, the tile is booked, its
///   occupant (if any) leaves it and joins `dead`, and the parent pays.
pub open spec fn turn(
    map: TileMap,
    es: Map<EntityId, Entity>,
    dead: Seq<EntityId>,
    born: Seq<Entity>,
    data: Seq<EntityData>,
    k: EntityId,
    roll: Roll,
    map2: TileMap,
    es2: Map<EntityId, Entity>,
    dead2: Seq<EntityId>,
    born2: Seq<Entity>,
) -> bool {
    let e = es[k];
    let d = data[e.data_id as int];
    let sun = sun_of(map, e, d.class);
    let fed = aged_fed(e, d.class, sun);
    &&& map2.spec_width() == map.spec_width()
    &&& map2.spec_height() == map.spec_height()
    &&& if !es.dom().contains(k) || !(map.in_bounds(e.pos) && map.tile_at(e.pos).entity.is_some()) {
        &&& map2.tiles_view() == map.tiles_view()
        &&& es2 == es
        &&& dead2 == dead
        &&& born2 == born
    } else if e.age + 1 >= e.lifetime || starves(e.energy, d.class, sun) {
        &&& map2.tiles_view() == map.tiles_view().update(
            map.index_of(e.pos),
            Tile { entity: None, ..map.tile_at(e.pos) },
        )
        &&& es2 == es
        &&& dead2 == dead.push(k)
        &&& born2 == born
    } else if may_spawn(fed, d) && (spawn_target(fed, d, roll) matches Some(q) && map.in_bounds(q)
        && accepts(map.tile_at(q), d, fed.height)) {
        let q = spawn_target(fed, d, roll).unwrap();
        let tile = map.tile_at(q);
        &&& map2.tiles_view() == map.tiles_view().update(
            map.index_of(q),
            Tile { entity: None, booked: true, ..tile },
        )
        &&& es2 == es.insert(k, paid(fed, d.spawn_cost))
        &&& dead2 == (match tile.entity {
            Some(v) => dead.push(v),
            None => dead,
        })
        &&& born2 == born.push(newborn(d, q, roll.lifetime))
    } else {
        &&& map2.tiles_view() == map.tiles_view()
        &&& es2 == es.insert(k, fed)
        &&& dead2 == dead
        &&& born2 == born
    }
}

/// What one tick makes of world `before`: a consistent world on the same
/// terrain and catalog, in which
/// - an entity whose age reaches its lifetime is gone;
/// - an entity that is still there is a survivor of its old state (one tick
///   older, same place, this tick's energy);
/// - every entity that was not there before is a newborn of a catalog
///   species, on a tile within that species' elevation band;
/// - a world without entities is left exactly as it was.
pub open spec fn tick_outcome(before: World, after: World) -> bool {
    &&& after.wf()
    &&& after.data_store == before.data_store
    &&& after.map.same_terrain(&before.map)
    &&& forall|k: EntityId| #[trigger] before.live().dom().contains(k) ==> {
        &&& (before.live()[k].age + 1 >= before.live()[k].lifetime ==> !after.live().dom().contains(k))
        &&& (after.live().dom().contains(k) ==> survivor(
            before.live()[k],
            after.live()[k],
            before.data_store@[before.live()[k].data_id as int],
            isolated(before.map, before.live()[k].pos),
        ))
    }
    &&& forall|k: EntityId| #[trigger] after.live().dom().contains(k) && !before.live().dom().contains(k) ==> {
        &&& newborn_ok(after.live()[k], after.data_store@)
        &&& after.data_store@[after.live()[k].data_id as int].altitude_min <= after.map.tile_at(after.live()[k].pos).height
        &&& after.map.tile_at(after.live()[k].pos).height <= after.data_store@[after.live()[k].data_id as int].altitude_max
    }
    &&& before.live().len() == 0 ==> after.live() == before.live() && after.map == before.map
}

/// A state of the first pass: the map, the entities, the dead and the children.
pub type PassState = (TileMap, Map<EntityId, Entity>, Seq<EntityId>, Seq<Entity>);

/// The `i`-th state of `run` becomes the next by the turn of `order[i]` with
/// `rolls[i]`.
pub open spec fn step_of(
    run: Seq<PassState>,
    data: Seq<EntityData>,
    order: Seq<EntityId>,
    rolls: Seq<Roll>,
    i: int,
) -> bool {
    turn(
        run[i].0,
        run[i].1,
        run[i].2,
        run[i].3,
        data,
        order[i],
        rolls[i],
        run[i + 1].0,
        run[i + 1].1,
        run[i + 1].2,
        run[i + 1].3,
    )
}

/// `order` lists the handles of `es`, each once.
pub open spec fn is_order_of(order: Seq<EntityId>, es: Map<EntityId, Entity>) -> bool {
    &&& order.no_duplicates()
    &&& forall|k: EntityId| order.contains(k) <==> es.dom().contains(k)
}

/// The end of a tick from the last first-pass state: the children stand on
/// their tiles under fresh handles, then the dead leave the store.
pub open spec fn committed(last: PassState, after: World) -> bool {
    exists|ids: Seq<EntityId>, es_mid: Map<EntityId, Entity>| {
        &&& placed_exactly(last.0, last.1, last.3, ids, after.map, es_mid)
        &&& forall|k: EntityId| #[trigger] after.live().dom().contains(k) <==> (es_mid.dom().contains(k)
            && !last.2.contains(k))
        &&& forall|k: EntityId| #[trigger] after.live().dom().contains(k) ==> after.live()[k] == es_mid[k]
    }
}

/// The tick from `before` to `after` in which entity `order[i]` has its turn
/// `i`-th, with `rolls[i]`: the first pass runs the turns from `before` with
/// empty lists, and its last state is committed.
pub open spec fn tick_exact(before: World, after: World, order: Seq<EntityId>, rolls: Seq<Roll>) -> bool {
    &&& after.data_store == before.data_store
    &&& exists|run: Seq<PassState>| {
        &&& #[trigger] run.len() == order.len() + 1
        &&& run[0] == (before.map, before.live(), Seq::<EntityId>::empty(), Seq::<Entity>::empty())
        &&& forall|i: int| 0 <= i < order.len() ==> #[trigger] step_of(run, before.data_store@, order, rolls, i)
        &&& committed(run.last(), after)
    }
}

/// Advances the world by one step in which entity `order[i]` has its turn
/// `i`-th, with `rolls[i]`. First every entity has its turn; births and
/// deaths wait in two lists. Then the children are placed, and only after that
/// are the dead removed, so that no child's handle can equal the handle of an
/// entity that dies in the same tick.
pub fn tick_in_order(world: &mut World, order: &Vec<EntityId>, rolls: &Vec<Roll>)
    requires
        old(world).wf(),
        is_order_of(order@, old(world).live()),
        rolls@.len() >= order@.len(),
    ensures
        tick_outcome(*old(world), *final(world)),
        tick_exact(*old(world), *final(world), order@, rolls@),
{
    let ghost w0 = *world;
    let keys = order;
    proof {
        keys@.unique_seq_to_set();
        assert(keys@.to_set() =~= w0.live().dom());
        lemma_store_bound(w0.map, w0.live());
        assert forall|p: Position| #[trigger] w0.map.in_bounds(p) implies {
            &&& w0.map.tile_at(p).pos == w0.map.tile_at(p).pos
            &&& w0.map.tile_at(p).height == w0.map.tile_at(p).height
        } by {}
        assert(w0.map.same_terrain(&w0.map));
    }
    let mut dead: Vec<EntityId> = Vec::new();
    let mut born: Vec<Entity> = Vec::new();
    let ghost mut run: Seq<PassState> = seq![(world.map, world.live(), dead@, born@)];
    proof {
        assert(dead@ == Seq::<EntityId>::empty());
        assert(born@ == Seq::<Entity>::empty());
    }
    let mut i: usize = 0;
    while i < keys.len()
        invariant
            w0.wf(),
            keys@.no_duplicates(),
            forall|k: EntityId| keys@.contains(k) <==> w0.live().dom().contains(k),
            keys@.len() == w0.live().len(),
            rolls@.len() >= keys@.len(),
            i <= keys@.len(),
            world.data_store == w0.data_store,
            in_pass(w0.map, w0.live(), world.map, world.live(), dead@, born@, world.data_store@),
            forall|j: int| 0 <= j < i ==> done(w0.map, w0.live(), world.live(), dead@, world.data_store@, #[trigger] keys@[j]),
            forall|j: int| i <= j < keys@.len() ==> world.live()[#[trigger] keys@[j]] == w0.live()[keys@[j]],
            i == 0 ==> world.map == w0.map && dead@.len() == 0 && born@.len() == 0 && world.live() == w0.live(),
            run.len() == i + 1,
            run[0] == (w0.map, w0.live(), Seq::<EntityId>::empty(), Seq::<Entity>::empty()),
            run[i as int] == (world.map, world.live(), dead@, born@),
            forall|j: int| 0 <= j < i ==> #[trigger] step_of(run, w0.data_store@, keys@, rolls@, j),
        decreases keys@.len() - i,
    {
        let ghost es_before = world.live();
        let ghost dead_before = dead@;
        let k = keys[i];
        assert(keys@.contains(k));
        step_entity(
            &mut world.map,
            &mut world.entities,
            &mut dead,
            &mut born,
            &world.data_store,
            k,
            rolls[i],
            Ghost(w0.map),
            Ghost(w0.live()),
        );
        proof {
            let run0 = run;
            run = run.push((world.map, world.live(), dead@, born@));
            assert forall|j: int| 0 <= j < i + 1 implies #[trigger] step_of(run, w0.data_store@, keys@, rolls@, j) by {
                assert(run[j] == run0[j]);
                if j < i {
                    assert(run[j + 1] == run0[j + 1]);
                    assert(step_of(run0, w0.data_store@, keys@, rolls@, j));
                }
            }
            assert forall|j: int| 0 <= j < i + 1 implies done(w0.map, w0.live(), world.live(), dead@, world.data_store@, #[trigger] keys@[j]) by {
                if j < i {
                    assert(keys@[j] != k);
                    assert(done(w0.map, w0.live(), es_before, dead_before, world.data_store@, keys@[j]));
                }
            }
            assert forall|j: int| i + 1 <= j < keys@.len() implies world.live()[#[trigger] keys@[j]] == w0.live()[keys@[j]] by {
                assert(keys@[j] != k);
            }
        }
        i = i + 1;
    }
    let ghost w1 = *world;
    proof {
        lemma_born_bound(world.map, born@, world.data_store@);
        assert(world.live().dom() == w0.live().dom());
    }
    let ids = place_born(world, &born, Ghost(dead@));
    let ghost w2 = *world;
    remove_dead(&mut world.entities, &dead);
    proof {
        let w = *world;
        TileMap::lemma_same_terrain_trans(w.map, w1.map, w0.map);
        assert(w.live().dom().subset_of(w2.live().dom()));
        lemma_len_subset(w.live().dom(), w2.live().dom());
        assert forall|p: Position| #[trigger] w.map.in_bounds(p) implies {
            &&& occupant_ok(w.map, w.live(), Seq::empty(), p)
            &&& !w.map.tile_at(p).booked
        } by {
            if let Some(k) = w.map.tile_at(p).entity {
                assert(w2.live().dom().contains(k));
                if w1.live().dom().contains(k) {
                    assert(!dead@.contains(k));
                } else {
                    if dead@.contains(k) {
                        let j = choose|j: int| 0 <= j < dead@.len() && dead@[j] == k;
                        assert(w1.live().dom().contains(dead@[j]));
                    }
                }
                assert(w.live().dom().contains(k));
            }
        }
        assert forall|k: EntityId| #[trigger] w.live().dom().contains(k) implies {
            &&& placed_ok(w.map, w.live(), Seq::empty(), k)
            &&& record_ok(w.live()[k], w.data_store@.len())
        } by {
            assert(w2.live().dom().contains(k));
            if w1.live().dom().contains(k) {
                assert(!dead@.contains(k));
                assert(w2.live()[k] == w1.live()[k]);
            }
        }
        assert forall|k: EntityId| #[trigger] w0.live().dom().contains(k) implies {
            &&& (w0.live()[k].age + 1 >= w0.live()[k].lifetime ==> !w.live().dom().contains(k))
            &&& (w.live().dom().contains(k) ==> survivor(
                w0.live()[k],
                w.live()[k],
                w0.data_store@[w0.live()[k].data_id as int],
                isolated(w0.map, w0.live()[k].pos),
            ))
        } by {
            let j = choose|j: int| 0 <= j < keys@.len() && keys@[j] == k;
            assert(done(w0.map, w0.live(), w1.live(), dead@, w1.data_store@, keys@[j]));
            assert(w1.live().dom().contains(k));
            if w.live().dom().contains(k) {
                assert(w2.live()[k] == w1.live()[k]);
            }
        }
        assert forall|k: EntityId| #[trigger] w.live().dom().contains(k) && !w0.live().dom().contains(k) implies {
            &&& newborn_ok(w.live()[k], w.data_store@)
            &&& w.data_store@[w.live()[k].data_id as int].altitude_min <= w.map.tile_at(w.live()[k].pos).height
            &&& w.map.tile_at(w.live()[k].pos).height <= w.data_store@[w.live()[k].data_id as int].altitude_max
        } by {
            assert(w2.live().dom().contains(k));
            assert(!w1.live().dom().contains(k));
        }
        assert(run.last() == (w1.map, w1.live(), dead@, born@));
        assert(committed(run.last(), w)) by {
            let last = run.last();
            assert(last.0 == w1.map && last.1 == w1.live() && last.2 == dead@ && last.3 == born@);
            assert(w2.map == w.map);
            assert(placed_exactly(last.0, last.1, last.3, ids@, w.map, w2.live()));
            assert(forall|k: EntityId| #[trigger] w.live().dom().contains(k) <==> (w2.live().dom().contains(k)
                && !last.2.contains(k)));
            assert(forall|k: EntityId| #[trigger] w.live().dom().contains(k) ==> w.live()[k] == w2.live()[k]);
        }
        if w0.live().len() == 0 {
            assert(keys@.len() == 0);
            assert(w.live() =~= w0.live());
        }
    }
}

/// Advances the world by one step, the entities taking their turns in the
/// store's own order, entity `i` of that order with `rolls[i]`.
pub fn tick_with(world: &mut World, rolls: &Vec<Roll>)
    requires
        old(world).wf(),
        rolls@.len() >= old(world).live().len(),
    ensures
        tick_outcome(*old(world), *final(world)),
        exists|order: Seq<EntityId>| {
            &&& #[trigger] is_order_of(order, old(world).live())
            &&& tick_exact(*old(world), *final(world), order, rolls@)
        },
{
    let order = store_keys(&world.entities);
    proof {
        order@.unique_seq_to_set();
        assert(order@.to_set() =~= world.live().dom());
    }
    tick_in_order(world, &order, rolls);
}

/// Advances the world by one step, drawing every entity's random numbers
/// from the rand crate.
pub fn tick(world: &mut World)
    requires
        old(world).wf(),
    ensures
        tick_outcome(*old(world), *final(world)),
        exists|order: Seq<EntityId>, rolls: Seq<Roll>| {
            &&& is_order_of(order, old(world).live())
            &&& rolls.len() >= order.len()
            &&& #[trigger] tick_exact(*old(world), *final(world), order, rolls)
        },
{
    let n: usize = store_len(&world.entities);
    let mut rolls: Vec<Roll> = Vec::new();
    let mut i: usize = 0;
    while i < n
        invariant
            i <= n,
            rolls@.len() == i,
        decreases n - i,
    {
        rolls.push(Roll { offset: rand::random::<usize>(), lifetime: rand::random::<u16>() });
        i = i + 1;
    }
    tick_with(world, &rolls);
    proof {
        let order = choose|order: Seq<EntityId>| {
            &&& #[trigger] is_order_of(order, old(world).live())
            &&& tick_exact(*old(world), *final(world), order, rolls@)
        };
        order.unique_seq_to_set();
        assert(order.to_set() =~= old(world).live().dom());
    }
}

/// After a tick every entity is either gone or exactly one tick older, in
/// the same place, of the same species, with the same lifetime and height.
pub proof fn lemma_tick_ages_or_removes(before: World, after: World, k: EntityId)
    requires
        tick_outcome(before, after),
        before.live().dom().contains(k),
    ensures
        !after.live().dom().contains(k) || {
            &&& after.live()[k].age == before.live()[k].age + 1
            &&& after.live()[k].pos == before.live()[k].pos
            &&& after.live()[k].data_id == before.live()[k].data_id
            &&& after.live()[k].lifetime == before.live()[k].lifetime
            &&& after.live()[k].height == before.live()[k].height
        },
{
    if after.live().dom().contains(k) {
        let data = before.data_store@[before.live()[k].data_id as int];
        let sun = choose|sun: int| {
            &&& -1 <= sun <= 3
            &&& (isolated(before.map, before.live()[k].pos) ==> sun == 3)
            &&& !starves(before.live()[k].energy, data.class, sun)
            &&& (after.live()[k] == #[trigger] aged_fed(before.live()[k], data.class, sun) || (may_spawn(
                aged_fed(before.live()[k], data.class, sun),
                data,
            ) && after.live()[k] == paid(aged_fed(before.live()[k], data.class, sun), data.spawn_cost)))
        };
    }
}

/// An entity whose age reaches its lifetime in a tick is removed in that
/// tick, so every entity after a tick is younger than its lifetime; an entity
/// of lifetime `L` starting at age 0 is gone by the tick that brings it to `L`.
pub proof fn lemma_tick_lifetime(before: World, after: World, k: EntityId)
    requires
        tick_outcome(before, after),
        before.live().dom().contains(k),
    ensures
        before.live()[k].age + 1 >= before.live()[k].lifetime ==> !after.live().dom().contains(k),
        after.live().dom().contains(k) ==> after.live()[k].age < after.live()[k].lifetime,
{
    lemma_tick_ages_or_removes(before, after, k);
}

/// A plant without occupied orthogonal neighbours gets full sunlight: its
/// energy grows by 3 and then by the flat 1 (capped at the largest energy),
/// and falls by the spawn cost only when it spawned.
pub proof fn lemma_isolated_plant_energy(before: Entity, after: Entity, data: EntityData)
    requires
        data.class == EntityClass::Plant,
        survivor(before, after, data, true),
    ensures
        after.energy == saturated(before.energy + 4) || (may_spawn(
            aged_fed(before, data.class, 3),
            data,
        ) && after.energy == saturated(before.energy + 4) - data.spawn_cost),
{
    let sun = choose|sun: int| {
        &&& -1 <= sun <= 3
        &&& (true ==> sun == 3)
        &&& !starves(before.energy, data.class, sun)
        &&& (after == #[trigger] aged_fed(before, data.class, sun) || (may_spawn(
            aged_fed(before, data.class, sun),
            data,
        ) && after == paid(aged_fed(before, data.class, sun), data.spawn_cost)))
    };
    assert(sun == 3);
}

/// A spawn may displace a shorter occupant of a suitable tile, and never an
/// occupant as tall as the parent or taller.
pub proof fn lemma_displacement(tile: Tile, data: EntityData, h: u8)
    requires
        data.altitude_min <= tile.height <= data.altitude_max,
        !tile.booked,
        tile.entity.is_some(),
    ensures
        accepts(tile, data, h) <==> tile.entity_height < h,
{
}

/// A tick of a world without entities leaves it as it was: still no
/// entities, and the same map, elevations included.
pub proof fn lemma_empty_tick_is_noop(before: World, after: World)
    requires
        tick_outcome(before, after),
        before.live().len() == 0,
    ensures
        after.live().len() == 0,
        after.map == before.map,
{
}

} // verus!

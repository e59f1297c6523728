//! The first pass of a tick: each entity's turn, and the invariant that
//! holds between turns.
use vstd::prelude::*;
use crate::entity::{at, lemma_drawn_lifetime_range, newborn, Entity, EntityClass, EntityData};
use crate::map::{Tile, TileMap};
use crate::position::{spec_sum, Position};
use crate::store::{entities_of, store_get, store_set, EntityId, EntityStore};
use crate::tick::{
    accepts, aged_fed, born_ok, isolated, may_spawn, neighbour_height, paid, spawn_target, starves, sunlight_for,
    survivor, try_spawn, turn, wants_spawn, Roll,
};
use crate::world::{catalog_ok, occupant_ok, placed_ok, record_ok};

verus! {

/// The state in the middle of a tick's first pass, which started from map
/// `m0` and entities `es0`: the store has the same handles, those in `dead`
/// have left their tiles, and each child in `born` holds a booked tile.
pub open spec fn in_pass(
    m0: TileMap,
    es0: Map<EntityId, Entity>,
    map: TileMap,
    es: Map<EntityId, Entity>,
    dead: Seq<EntityId>,
    born: Seq<Entity>,
    data: Seq<EntityData>,
) -> bool {
    &&& map.wf()
    &&& map.same_terrain(&m0)
    &&& es.dom() == es0.dom()
    &&& es.dom().finite()
    &&& catalog_ok(data)
    &&& dead.no_duplicates()
    &&& forall|i: int| 0 <= i < dead.len() ==> es.dom().contains(#[trigger] dead[i])
    &&& forall|p: Position| #[trigger] map.in_bounds(p) ==> {
        &&& occupant_ok(map, es, dead, p)
        &&& (map.tile_at(p).entity.is_some() ==> m0.tile_at(p).entity.is_some())
        &&& (map.tile_at(p).booked ==> exists|j: int| 0 <= j < born.len() && (#[trigger] born[j]).pos == p)
    }
    &&& forall|k: EntityId| #[trigger] es.dom().contains(k) ==> {
        &&& placed_ok(map, es, dead, k)
        &&& record_ok(es[k], data.len())
        &&& es[k].pos == es0[k].pos
        &&& es[k].height == es0[k].height
        &&& es[k].data_id == es0[k].data_id
        &&& es[k].lifetime == es0[k].lifetime
    }
    &&& forall|j: int| 0 <= j < born.len() ==> born_ok(map, #[trigger] born[j], data)
    &&& forall|i: int, j: int| 0 <= i < j < born.len() ==> born[i].pos != born[j].pos
}

/// Entity `k` has had its turn in the first pass: it is dead if its age
/// reached its lifetime, and otherwise, unless it died, it is a survivor of
/// the state it started the tick in.
pub open spec fn done(
    m0: TileMap,
    es0: Map<EntityId, Entity>,
    es: Map<EntityId, Entity>,
    dead: Seq<EntityId>,
    data: Seq<EntityData>,
    k: EntityId,
) -> bool {
    &&& es0[k].age + 1 >= es0[k].lifetime ==> dead.contains(k)
    &&& !dead.contains(k) ==> survivor(
        es0[k],
        es[k],
        data[es0[k].data_id as int],
        isolated(m0, es0[k].pos),
    )
}

/// Tiles only lose occupants during the first pass, so a position isolated
/// at its start is isolated throughout.
proof fn lemma_isolated_persists(m0: TileMap, map: TileMap, pos: Position)
    requires
        map.same_terrain(&m0),
        forall|p: Position| #[trigger] map.in_bounds(p) ==> (map.tile_at(p).entity.is_some() ==> m0.tile_at(p).entity.is_some()),
        isolated(m0, pos),
    ensures
        isolated(map, pos),
{
    let ds = seq![at(-1i16, 0i16), at(1i16, 0i16), at(0i16, -1i16), at(0i16, 1i16)];
    assert forall|i: int| 0 <= i < 4 implies neighbour_height(map, pos, #[trigger] ds[i]).is_none() by {
        if let Some(q) = spec_sum(pos, ds[i]) {
            if map.in_bounds(q) {
                assert(m0.in_bounds(q));
            }
        }
    }
    assert(neighbour_height(map, pos, ds[0]).is_none());
    assert(neighbour_height(map, pos, ds[1]).is_none());
    assert(neighbour_height(map, pos, ds[2]).is_none());
    assert(neighbour_height(map, pos, ds[3]).is_none());
}

/// Marks `k`, standing at `pos`, dead and takes it off its tile.
fn remove_from_tile(map: &mut TileMap, dead: &mut Vec<EntityId>, k: EntityId, pos: Position)
    requires
        old(map).wf(),
        old(map).in_bounds(pos),
    ensures
        final(dead)@ == old(dead)@.push(k),
        final(map).spec_width() == old(map).spec_width(),
        final(map).spec_height() == old(map).spec_height(),
        final(map).tiles_view() == old(map).tiles_view().update(
            old(map).index_of(pos),
            Tile { entity: None, ..old(map).tile_at(pos) },
        ),
{
    dead.push(k);
    match map.get_mut(pos) {
        Some(tile) => {
            tile.entity = None;
        },
        None => {},
    }
}

/// Taking a live entity off its tile keeps the first pass consistent.
proof fn lemma_kill_in_pass(
    m0: TileMap,
    es0: Map<EntityId, Entity>,
    map: TileMap,
    map2: TileMap,
    es: Map<EntityId, Entity>,
    dead: Seq<EntityId>,
    born: Seq<Entity>,
    data: Seq<EntityData>,
    k: EntityId,
)
    requires
        in_pass(m0, es0, map, es, dead, born, data),
        es.dom().contains(k),
        map.tile_at(es[k].pos).entity == Some(k),
        map2.spec_width() == map.spec_width(),
        map2.spec_height() == map.spec_height(),
        map2.tiles_view() == map.tiles_view().update(
            map.index_of(es[k].pos),
            Tile { entity: None, ..map.tile_at(es[k].pos) },
        ),
    ensures
        in_pass(m0, es0, map2, es, dead.push(k), born, data),
{
    let pos = es[k].pos;
    let dead2 = dead.push(k);
    assert(placed_ok(map, es, dead, k));
    TileMap::lemma_set_tile(map, map2, pos, Tile { entity: None, ..map.tile_at(pos) });
    TileMap::lemma_same_terrain_trans(map2, map, m0);
    assert forall|i: int| 0 <= i < dead2.len() implies es.dom().contains(#[trigger] dead2[i]) by {
        if i < dead.len() {
            assert(dead2[i] == dead[i]);
        }
    }
    assert forall|p: Position| #[trigger] map2.in_bounds(p) implies {
        &&& occupant_ok(map2, es, dead2, p)
        &&& (map2.tile_at(p).entity.is_some() ==> m0.tile_at(p).entity.is_some())
        &&& (map2.tile_at(p).booked ==> exists|j: int| 0 <= j < born.len() && (#[trigger] born[j]).pos == p)
    } by {
        assert(map.in_bounds(p));
        if let Some(v) = map2.tile_at(p).entity {
            assert(p != pos);
            assert(v != k);
        }
    }
    assert forall|k2: EntityId| #[trigger] es.dom().contains(k2) implies placed_ok(map2, es, dead2, k2) by {
        assert(placed_ok(map, es, dead, k2));
        assert(map2.in_bounds(es[k2].pos));
        if k2 == k {
            assert(dead2[dead.len() as int] == k);
        } else {
            if es[k2].pos == pos {
                assert(dead.contains(k2));
            }
            if dead.contains(k2) {
                let i = choose|i: int| 0 <= i < dead.len() && dead[i] == k2;
                assert(dead2[i] == k2);
            }
            if dead2.contains(k2) {
                let i = choose|i: int| 0 <= i < dead2.len() && dead2[i] == k2;
                assert(i < dead.len());
                assert(dead.contains(k2));
            }
        }
    }
    assert forall|j: int| 0 <= j < born.len() implies born_ok(map2, #[trigger] born[j], data) by {
        assert(born_ok(map, born[j], data));
        assert(map2.in_bounds(born[j].pos));
    }
}

/// A successful spawn attempt keeps the first pass consistent, and never
/// displaces the parent itself.
proof fn lemma_spawn_in_pass(
    m0: TileMap,
    es0: Map<EntityId, Entity>,
    map: TileMap,
    map2: TileMap,
    es: Map<EntityId, Entity>,
    dead: Seq<EntityId>,
    dead2: Seq<EntityId>,
    born: Seq<Entity>,
    born2: Seq<Entity>,
    data: Seq<EntityData>,
    k: EntityId,
    parent: Entity,
    q: Position,
    draw: u16,
)
    requires
        in_pass(m0, es0, map, es, dead, born, data),
        es.dom().contains(k),
        map.tile_at(es[k].pos).entity == Some(k),
        parent.height == es[k].height,
        parent.data_id < data.len(),
        map.in_bounds(q),
        accepts(map.tile_at(q), data[parent.data_id as int], parent.height),
        data[parent.data_id as int].can_create(),
        map2.spec_width() == map.spec_width(),
        map2.spec_height() == map.spec_height(),
        map2.tiles_view() == map.tiles_view().update(
            map.index_of(q),
            Tile { entity: None, booked: true, ..map.tile_at(q) },
        ),
        dead2 == (match map.tile_at(q).entity {
            Some(v) => dead.push(v),
            None => dead,
        }),
        born2 == born.push(newborn(data[parent.data_id as int], q, draw)),
    ensures
        in_pass(m0, es0, map2, es, dead2, born2, data),
        !dead2.contains(k),
        map2.tile_at(es[k].pos).entity == Some(k),
{
    let child = newborn(data[parent.data_id as int], q, draw);
    lemma_drawn_lifetime_range(data[parent.data_id as int].lifetime_min, data[parent.data_id as int].lifetime_max, draw);
    let tile = map.tile_at(q);
    let t2 = Tile { entity: None, booked: true, ..tile };
    TileMap::lemma_set_tile(map, map2, q, t2);
    assert(map.tile_at(q).pos == q);
    assert(occupant_ok(map, es, dead, q));
    assert(placed_ok(map, es, dead, k));
    assert(data[parent.data_id as int].id == parent.data_id);
    if let Some(v) = tile.entity {
        assert(v != k);
        assert(!dead.contains(v));
        assert(dead2.no_duplicates()) by {
            assert forall|i: int, j: int| 0 <= i < dead2.len() && 0 <= j < dead2.len() && i != j implies dead2[i] != dead2[j] by {
                if i < dead.len() && j < dead.len() {
                } else if i < dead.len() {
                    assert(dead.contains(dead[i]));
                } else {
                    assert(dead.contains(dead[j]));
                }
            }
        }
        assert forall|i: int| 0 <= i < dead2.len() implies es.dom().contains(#[trigger] dead2[i]) by {
            if i < dead.len() {
                assert(dead2[i] == dead[i]);
            }
        }
    }
    assert forall|x: EntityId| dead.contains(x) implies dead2.contains(x) by {
        if let Some(v) = tile.entity {
            let i = choose|i: int| 0 <= i < dead.len() && dead[i] == x;
            assert(dead2[i] == x);
        }
    }
    assert(!dead2.contains(k)) by {
        if let Some(v) = tile.entity {
            if dead2.contains(k) {
                let i = choose|i: int| 0 <= i < dead2.len() && dead2[i] == k;
                if i < dead.len() {
                    assert(dead.contains(k));
                }
            }
        }
    }
    TileMap::lemma_same_terrain_trans(map2, map, m0);
    assert(es[k].pos != q);
    assert forall|p: Position| #[trigger] map2.in_bounds(p) implies {
        &&& occupant_ok(map2, es, dead2, p)
        &&& (map2.tile_at(p).entity.is_some() ==> m0.tile_at(p).entity.is_some())
        &&& (map2.tile_at(p).booked ==> exists|j: int| 0 <= j < born2.len() && (#[trigger] born2[j]).pos == p)
    } by {
        assert(map.in_bounds(p));
        if p == q {
            assert(born2[born.len() as int].pos == p);
        } else {
            if let Some(v) = map2.tile_at(p).entity {
                assert(es[v].pos == p);
                assert(!dead.contains(v));
                if dead2.contains(v) {
                    let i = choose|i: int| 0 <= i < dead2.len() && dead2[i] == v;
                    if i < dead.len() {
                        assert(dead.contains(v));
                    } else {
                        assert(tile.entity == Some(v));
                        assert(es[v].pos == q);
                    }
                }
            }
            if map2.tile_at(p).booked {
                let j = choose|j: int| 0 <= j < born.len() && (#[trigger] born[j]).pos == p;
                assert(born2[j] == born[j]);
            }
        }
    }
    assert forall|k2: EntityId| #[trigger] es.dom().contains(k2) implies placed_ok(map2, es, dead2, k2) by {
        assert(placed_ok(map, es, dead, k2));
        assert(map2.in_bounds(es[k2].pos));
        if dead.contains(k2) {
            let i = choose|i: int| 0 <= i < dead.len() && dead[i] == k2;
            if let Some(v) = tile.entity {
                assert(dead2[i] == k2);
            }
        }
        if es[k2].pos == q {
            if dead.contains(k2) {
            } else {
                assert(tile.entity == Some(k2));
                assert(dead2 == dead.push(k2));
                assert(dead2[dead.len() as int] == k2);
            }
        } else if !dead.contains(k2) {
            if dead2.contains(k2) {
                let i = choose|i: int| 0 <= i < dead2.len() && dead2[i] == k2;
                if i < dead.len() {
                    assert(dead.contains(k2));
                }
            }
        }
    }
    assert forall|j: int| 0 <= j < born2.len() implies born_ok(map2, #[trigger] born2[j], data) by {
        assert(map2.in_bounds(born2[j].pos));
        if j < born.len() {
            assert(born2[j] == born[j]);
            assert(born_ok(map, born[j], data));
            if born[j].pos == q {
                assert(map.tile_at(q).booked);
            }
        }
    }
    assert forall|i: int, j: int| 0 <= i < j < born2.len() implies born2[i].pos != born2[j].pos by {
        if j == born.len() {
            assert(born_ok(map, born[i], data));
        } else {
            assert(born2[i] == born[i]);
            assert(born2[j] == born[j]);
        }
    }
}

/// One entity's turn in the first pass: it ages, gains energy and may
/// spawn, or dies. An entity that a spawn displaced earlier in the pass has
/// no turn.
pub(crate) fn step_entity(
    map: &mut TileMap,
    store: &mut EntityStore,
    dead: &mut Vec<EntityId>,
    born: &mut Vec<Entity>,
    data_store: &Vec<EntityData>,
    k: EntityId,
    roll: Roll,
    Ghost(m0): Ghost<TileMap>,
    Ghost(es0): Ghost<Map<EntityId, Entity>>,
)
    requires
        in_pass(m0, es0, *old(map), entities_of(*old(store)), old(dead)@, old(born)@, data_store@),
        es0.dom().contains(k),
        entities_of(*old(store))[k] == es0[k],
    ensures
        in_pass(m0, es0, *final(map), entities_of(*final(store)), final(dead)@, final(born)@, data_store@),
        done(m0, es0, entities_of(*final(store)), final(dead)@, data_store@, k),
        forall|k2: EntityId| k2 != k ==> entities_of(*final(store))[k2] == entities_of(*old(store))[k2],
        forall|x: EntityId| old(dead)@.contains(x) ==> final(dead)@.contains(x),
        turn(
            *old(map),
            entities_of(*old(store)),
            old(dead)@,
            old(born)@,
            data_store@,
            k,
            roll,
            *final(map),
            entities_of(*final(store)),
            final(dead)@,
            final(born)@,
        ),
{
    let ghost es = entities_of(*store);
    let ghost dead0 = dead@;
    let e = match store_get(store, k) {
        Some(e) => e,
        None => return,
    };
    assert(placed_ok(*map, es, dead@, k));
    assert(record_ok(es[k], data_store@.len()));
    let standing = match map.get(e.pos) {
        Some(tile) => tile.entity.is_some(),
        None => false,
    };
    if !standing {
        return;
    }
    assert(!dead@.contains(k));
    let data = &data_store[e.data_id];
    let mut next = e;
    next.age = e.age + 1;
    if next.age >= next.lifetime {
        let ghost map1 = *map;
        remove_from_tile(map, dead, k, e.pos);
        proof {
            lemma_kill_in_pass(m0, es0, map1, *map, es, dead0, born@, data_store@, k);
            assert(dead@[dead0.len() as int] == k);
            assert forall|x: EntityId| dead0.contains(x) implies dead@.contains(x) by {
                let i = choose|i: int| 0 <= i < dead0.len() && dead0[i] == x;
                assert(dead@[i] == x);
            }
        }
        return;
    }
    let ghost sun: int = 3;
    match data.class {
        EntityClass::Plant => {
            let light = sunlight_for(map, &e);
            proof {
                sun = light as int;
                if isolated(m0, e.pos) {
                    lemma_isolated_persists(m0, *map, e.pos);
                }
            }
            let energy: i32 = e.energy as i32 + light;
            if energy <= 0 {
                let ghost map1 = *map;
                remove_from_tile(map, dead, k, e.pos);
                proof {
                    lemma_kill_in_pass(m0, es0, map1, *map, es, dead0, born@, data_store@, k);
                    assert(dead@[dead0.len() as int] == k);
                    assert forall|x: EntityId| dead0.contains(x) implies dead@.contains(x) by {
                        let i = choose|i: int| 0 <= i < dead0.len() && dead0[i] == x;
                        assert(dead@[i] == x);
                    }
                }
                return;
            }
            next.energy = if energy >= 65535 { 65535 } else { (energy + 1) as u16 };
        },
        EntityClass::Creature => {
            next.energy = if e.energy >= 65534 { 65535 } else { e.energy + 2 };
        },
    }
    assert(next == aged_fed(e, data.class, sun));
    assert(data_store@[e.data_id as int].id == e.data_id);
    let ghost fed = next;
    if wants_spawn(&next, data) {
        let ghost map1 = *map;
        let ghost born1 = born@;
        let spawned = try_spawn(map, dead, born, data, &next, roll);
        if spawned {
            next.energy = next.energy - data.spawn_cost;
            proof {
                let q = spawn_target(fed, *data, roll).unwrap();
                lemma_spawn_in_pass(
                    m0, es0, map1, *map, es, dead0, dead@, born1, born@, data_store@, k, fed, q, roll.lifetime,
                );
            }
        }
    }
    proof {
        assert forall|x: EntityId| dead0.contains(x) implies dead@.contains(x) by {
            let i = choose|i: int| 0 <= i < dead0.len() && dead0[i] == x;
            assert(dead@[i] == x);
        }
    }
    let ghost map2 = *map;
    let ghost dead2 = dead@;
    store_set(store, k, next);
    proof {
        let es2 = entities_of(*store);
        assert(es2 == es.insert(k, next));
        assert(es2.dom() == es.dom());
        assert forall|p: Position| #[trigger] map2.in_bounds(p) implies occupant_ok(map2, es2, dead2, p) by {
            assert(occupant_ok(map2, es, dead2, p));
        }
        assert forall|k2: EntityId| #[trigger] es2.dom().contains(k2) implies {
            &&& placed_ok(map2, es2, dead2, k2)
            &&& record_ok(es2[k2], data_store@.len())
            &&& es2[k2].pos == es0[k2].pos
            &&& es2[k2].height == es0[k2].height
            &&& es2[k2].data_id == es0[k2].data_id
            &&& es2[k2].lifetime == es0[k2].lifetime
        } by {
            assert(es.dom().contains(k2));
        }
        assert(survivor(es0[k], next, *data, isolated(m0, es0[k].pos)));
    }
}

} // verus!

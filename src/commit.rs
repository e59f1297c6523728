//! The commit of a tick: children take their booked tiles, then the dead
//! leave the store.
use vstd::prelude::*;
use vstd::relations::injective_on;
use vstd::set_lib::{lemma_int_range, lemma_len_subset, lemma_map_size, set_int_range};
use crate::entity::{Entity, EntityData};
use crate::map::{Tile, TileMap, MAX_SIDE};
use crate::position::Position;
use crate::store::{entities_of, store_insert, store_remove, EntityId, EntityStore};
use crate::tick::{born_ok, newborn_ok};
use crate::world::{catalog_ok, occupant_ok, placed_ok, record_ok, World};

verus! {

/// Children wait on distinct tiles, so there are no more of them than tiles.
pub(crate) proof fn lemma_born_bound(map: TileMap, born: Seq<Entity>, data: Seq<EntityData>)
    requires
        map.wf(),
        forall|j: int| 0 <= j < born.len() ==> born_ok(map, #[trigger] born[j], data),
        forall|i: int, j: int| 0 <= i < j < born.len() ==> born[i].pos != born[j].pos,
    ensures
        born.len() <= MAX_SIDE * MAX_SIDE,
{
    let f = |j: int| map.index_of(born[j].pos);
    let x = set_int_range(0, born.len() as int);
    let n = map.tiles_view().len() as int;
    lemma_int_range(0, born.len() as int);
    lemma_int_range(0, n);
    assert(injective_on(f, x)) by {
        assert forall|a: int, b: int| x.contains(a) && x.contains(b) && #[trigger] f(a) == #[trigger] f(b) implies a == b by {
            assert(born_ok(map, born[a], data));
            assert(born_ok(map, born[b], data));
            map.lemma_index_injective(born[a].pos, born[b].pos);
        }
    }
    lemma_map_size(x, x.map(f), f);
    assert(x.map(f).subset_of(set_int_range(0, n))) by {
        assert forall|i: int| #[trigger] x.map(f).contains(i) implies set_int_range(0, n).contains(i) by {
            let j = choose|j: int| x.contains(j) && f(j) == i;
            assert(born_ok(map, born[j], data));
            map.lemma_index_in_range(born[j].pos);
        }
    }
    lemma_len_subset(x.map(f), set_int_range(0, n));
    assert(map.spec_width() * map.spec_height() <= MAX_SIDE * MAX_SIDE) by (nonlinear_arith)
        requires
            map.spec_width() <= MAX_SIDE,
            map.spec_height() <= MAX_SIDE,
    ;
}

/// Removes each handle in `dead` from the store.
pub(crate) fn remove_dead(store: &mut EntityStore, dead: &Vec<EntityId>)
    ensures
        forall|k: EntityId| #[trigger] entities_of(*final(store)).dom().contains(k) <==> (
            entities_of(*old(store)).dom().contains(k) && !dead@.contains(k)),
        forall|k: EntityId| #[trigger] entities_of(*final(store)).dom().contains(k) ==> entities_of(*final(store))[k]
            == entities_of(*old(store))[k],
        dead@.len() == 0 ==> entities_of(*final(store)) == entities_of(*old(store)),
{
    let ghost es = entities_of(*store);
    let mut i: usize = 0;
    while i < dead.len()
        invariant
            i <= dead@.len(),
            forall|k: EntityId| #[trigger] entities_of(*store).dom().contains(k) <==> (es.dom().contains(k)
                && forall|j: int| 0 <= j < i ==> dead@[j] != k),
            forall|k: EntityId| #[trigger] entities_of(*store).dom().contains(k) ==> entities_of(*store)[k] == es[k],
            i == 0 ==> entities_of(*store) == es,
        decreases dead@.len() - i,
    {
        let _gone = store_remove(store, dead[i]);
        i = i + 1;
    }
    proof {
        assert forall|k: EntityId| #[trigger] entities_of(*store).dom().contains(k) <==> (
            es.dom().contains(k) && !dead@.contains(k)) by {
            if dead@.contains(k) {
                let j = choose|j: int| 0 <= j < dead@.len() && dead@[j] == k;
            }
        }
    }
}

/// The first `j` children stand on their tiles under handles `ids`, which
/// were not live before; the store and the map are otherwise as they were.
pub open spec fn placed_so_far(
    map1: TileMap,
    es1: Map<EntityId, Entity>,
    born: Seq<Entity>,
    ids: Seq<EntityId>,
    j: int,
    map: TileMap,
    es: Map<EntityId, Entity>,
) -> bool {
    &&& ids.len() == j
    &&& ids.no_duplicates()
    &&& forall|i: int| 0 <= i < j ==> !es1.dom().contains(#[trigger] ids[i])
    &&& forall|i: int| 0 <= i < j ==> es.dom().contains(#[trigger] ids[i]) && es[ids[i]] == born[i]
    &&& forall|k: EntityId| #[trigger] es.dom().contains(k) <==> (es1.dom().contains(k) || ids.contains(k))
    &&& map.spec_width() == map1.spec_width()
    &&& map.spec_height() == map1.spec_height()
    &&& forall|i: int| 0 <= i < j ==> map.tile_at(#[trigger] born[i].pos) == (Tile {
        entity: Some(ids[i]),
        entity_height: born[i].height,
        booked: false,
        ..map1.tile_at(born[i].pos)
    })
    &&& forall|p: Position| #[trigger] map1.in_bounds(p) && (forall|i: int| 0 <= i < j ==> born[i].pos != p)
        ==> map.tile_at(p) == map1.tile_at(p)
}

/// All children stand on their tiles under fresh handles `ids`.
pub open spec fn placed_exactly(
    map1: TileMap,
    es1: Map<EntityId, Entity>,
    born: Seq<Entity>,
    ids: Seq<EntityId>,
    map: TileMap,
    es: Map<EntityId, Entity>,
) -> bool {
    placed_so_far(map1, es1, born, ids, born.len() as int, map, es)
}

proof fn lemma_placed_all(
    map1: TileMap,
    es1: Map<EntityId, Entity>,
    born: Seq<Entity>,
    ids: Seq<EntityId>,
    map: TileMap,
    es: Map<EntityId, Entity>,
)
    requires
        placed_so_far(map1, es1, born, ids, born.len() as int, map, es),
    ensures
        placed_exactly(map1, es1, born, ids, map, es),
{
}

proof fn lemma_place_one(
    map1: TileMap,
    es1: Map<EntityId, Entity>,
    born: Seq<Entity>,
    ids: Seq<EntityId>,
    j: int,
    map: TileMap,
    es: Map<EntityId, Entity>,
    id: EntityId,
    map2: TileMap,
    es2: Map<EntityId, Entity>,
)
    requires
        0 <= j < born.len(),
        map1.wf(),
        map.wf(),
        map.same_terrain(&map1),
        placed_so_far(map1, es1, born, ids, j, map, es),
        forall|i: int, i2: int| 0 <= i < i2 < born.len() ==> born[i].pos != born[i2].pos,
        forall|i: int| 0 <= i < born.len() ==> map1.in_bounds(#[trigger] born[i].pos),
        !es.dom().contains(id),
        es2 == es.insert(id, born[j]),
        map2.spec_width() == map.spec_width(),
        map2.spec_height() == map.spec_height(),
        forall|q: Position| #[trigger] map2.in_bounds(q) ==> map2.tile_at(q) == (if q == born[j].pos {
            Tile { entity: Some(id), entity_height: born[j].height, booked: false, ..map.tile_at(q) }
        } else {
            map.tile_at(q)
        }),
    ensures
        placed_so_far(map1, es1, born, ids.push(id), j + 1, map2, es2),
{
    let ids2 = ids.push(id);
    let p = born[j].pos;
    assert(map.tile_at(p) == map1.tile_at(p)) by {
        assert(map1.in_bounds(p));
        assert forall|i: int| 0 <= i < j implies born[i].pos != p by {}
    }
    assert(!ids.contains(id)) by {
        if ids.contains(id) {
            let i = choose|i: int| 0 <= i < ids.len() && ids[i] == id;
            assert(es.dom().contains(ids[i]));
        }
    }
    assert(ids2.no_duplicates()) by {
        assert forall|a: int, b: int| 0 <= a < ids2.len() && 0 <= b < ids2.len() && a != b implies ids2[a] != ids2[b] by {
            if a < ids.len() && b < ids.len() {
                assert(ids2[a] == ids[a]);
                assert(ids2[b] == ids[b]);
            } else if a < ids.len() {
                assert(ids.contains(ids[a]));
            } else {
                assert(ids.contains(ids[b]));
            }
        }
    }
    assert(!es1.dom().contains(id)) by {
        if es1.dom().contains(id) {
            assert(es.dom().contains(id));
        }
    }
    assert forall|i: int| 0 <= i < j + 1 implies !es1.dom().contains(#[trigger] ids2[i]) by {
        if i < j {
            assert(ids2[i] == ids[i]);
        }
    }
    assert forall|i: int| 0 <= i < j + 1 implies es2.dom().contains(#[trigger] ids2[i]) && es2[ids2[i]] == born[i] by {
        if i < j {
            assert(ids2[i] == ids[i]);
            assert(es.dom().contains(ids[i]));
            assert(ids[i] != id);
        }
    }
    assert forall|k: EntityId| #[trigger] es2.dom().contains(k) <==> (es1.dom().contains(k) || ids2.contains(k)) by {
        if ids2.contains(k) {
            let i = choose|i: int| 0 <= i < ids2.len() && ids2[i] == k;
            if i < j {
                assert(ids.contains(k));
            }
        }
        if ids.contains(k) {
            let i = choose|i: int| 0 <= i < ids.len() && ids[i] == k;
            assert(ids2[i] == k);
        }
        if k == id {
            assert(ids2[j] == k);
        }
    }
    assert forall|i: int| 0 <= i < j + 1 implies map2.tile_at(#[trigger] born[i].pos) == (Tile {
        entity: Some(ids2[i]),
        entity_height: born[i].height,
        booked: false,
        ..map1.tile_at(born[i].pos)
    }) by {
        assert(map2.in_bounds(born[i].pos));
        if i < j {
            assert(born[i].pos != p);
            assert(ids2[i] == ids[i]);
        }
    }
    assert forall|q: Position| #[trigger] map1.in_bounds(q) && (forall|i: int| 0 <= i < j + 1 ==> born[i].pos != q)
        implies map2.tile_at(q) == map1.tile_at(q) by {
        assert(map2.in_bounds(q));
        assert(born[j].pos != q);
    }
}

/// Places the children: each gets a handle, the tile it booked names it and
/// caches its height, and the booking is cleared.
pub(crate) fn place_born(world: &mut World, born: &Vec<Entity>, Ghost(dead): Ghost<Seq<EntityId>>) -> (ids: Ghost<Seq<EntityId>>)
    requires
        old(world).map.wf(),
        old(world).live().dom().finite(),
        old(world).live().len() <= MAX_SIDE * MAX_SIDE,
        born@.len() <= MAX_SIDE * MAX_SIDE,
        catalog_ok(old(world).data_store@),
        forall|p: Position| #[trigger] old(world).map.in_bounds(p) ==> {
            &&& occupant_ok(old(world).map, old(world).live(), dead, p)
            &&& (old(world).map.tile_at(p).booked ==> exists|j: int| 0 <= j < born@.len() && (#[trigger] born@[j]).pos == p)
        },
        forall|k: EntityId| #[trigger] old(world).live().dom().contains(k) ==> {
            &&& placed_ok(old(world).map, old(world).live(), dead, k)
            &&& record_ok(old(world).live()[k], old(world).data_store@.len())
        },
        forall|j: int| 0 <= j < born@.len() ==> born_ok(old(world).map, #[trigger] born@[j], old(world).data_store@),
        forall|i: int, j: int| 0 <= i < j < born@.len() ==> born@[i].pos != born@[j].pos,
    ensures
        final(world).data_store == old(world).data_store,
        final(world).map.wf(),
        final(world).map.same_terrain(&old(world).map),
        final(world).live().dom().finite(),
        forall|k: EntityId| #[trigger] old(world).live().dom().contains(k) ==> final(world).live().dom().contains(k)
            && final(world).live()[k] == old(world).live()[k],
        forall|k: EntityId| #[trigger] final(world).live().dom().contains(k) && !old(world).live().dom().contains(k) ==> {
            &&& newborn_ok(final(world).live()[k], final(world).data_store@)
            &&& final(world).data_store@[final(world).live()[k].data_id as int].altitude_min <= final(world).map.tile_at(final(world).live()[k].pos).height
            &&& final(world).map.tile_at(final(world).live()[k].pos).height <= final(world).data_store@[final(world).live()[k].data_id as int].altitude_max
            &&& final(world).map.in_bounds(final(world).live()[k].pos)
            &&& final(world).map.tile_at(final(world).live()[k].pos).entity == Some(k)
        },
        forall|k: EntityId| #[trigger] old(world).live().dom().contains(k) ==> {
            &&& final(world).map.in_bounds(old(world).live()[k].pos)
            &&& (!dead.contains(k) ==> final(world).map.tile_at(old(world).live()[k].pos).entity == Some(k))
        },
        forall|p: Position| #[trigger] final(world).map.in_bounds(p) ==> {
            &&& !final(world).map.tile_at(p).booked
            &&& (final(world).map.tile_at(p).entity matches Some(k) ==> {
                &&& final(world).live().dom().contains(k)
                &&& final(world).live()[k].pos == p
                &&& final(world).map.tile_at(p).entity_height == final(world).live()[k].height
                &&& (old(world).live().dom().contains(k) ==> !dead.contains(k))
            })
        },
        born@.len() == 0 ==> *final(world) == *old(world),
        placed_exactly(old(world).map, old(world).live(), born@, ids@, final(world).map, final(world).live()),
{
    let ghost w1 = *world;
    let ghost data = world.data_store@;
    let ghost mut ids: Seq<EntityId> = Seq::empty();
    proof {
        assert forall|i: int| 0 <= i < born@.len() implies w1.map.in_bounds(#[trigger] born@[i].pos) by {
            assert(born_ok(w1.map, born@[i], w1.data_store@));
        }
    }
    let mut j: usize = 0;
    while j < born.len()
        invariant
            j <= born@.len(),
            born@.len() <= MAX_SIDE * MAX_SIDE,
            w1.live().len() <= MAX_SIDE * MAX_SIDE,
            w1.live().dom().finite(),
            world.data_store == w1.data_store,
            data == world.data_store@,
            catalog_ok(data),
            world.map.wf(),
            world.map.same_terrain(&w1.map),
            world.live().dom().finite(),
            world.live().len() == w1.live().len() + j,
            forall|i: int, i2: int| 0 <= i < i2 < born@.len() ==> born@[i].pos != born@[i2].pos,
            forall|k: EntityId| #[trigger] w1.live().dom().contains(k) ==> world.live().dom().contains(k)
                && world.live()[k] == w1.live()[k],
            forall|k: EntityId| #[trigger] world.live().dom().contains(k) && !w1.live().dom().contains(k) ==> {
                &&& newborn_ok(world.live()[k], data)
                &&& data[world.live()[k].data_id as int].altitude_min <= world.map.tile_at(world.live()[k].pos).height
                &&& world.map.tile_at(world.live()[k].pos).height <= data[world.live()[k].data_id as int].altitude_max
                &&& world.map.in_bounds(world.live()[k].pos)
                &&& world.map.tile_at(world.live()[k].pos).entity == Some(k)
            },
            forall|k: EntityId| #[trigger] w1.live().dom().contains(k) ==> {
                &&& world.map.in_bounds(w1.live()[k].pos)
                &&& (!dead.contains(k) ==> world.map.tile_at(w1.live()[k].pos).entity == Some(k))
            },
            forall|p: Position| #[trigger] world.map.in_bounds(p) ==> {
                &&& (world.map.tile_at(p).booked ==> exists|i: int| j <= i < born@.len() && (#[trigger] born@[i]).pos == p)
                &&& (world.map.tile_at(p).entity matches Some(k) ==> {
                    &&& world.live().dom().contains(k)
                    &&& world.live()[k].pos == p
                    &&& world.map.tile_at(p).entity_height == world.live()[k].height
                    &&& !world.map.tile_at(p).booked
                    &&& (w1.live().dom().contains(k) ==> !dead.contains(k))
                })
            },
            forall|i: int| j <= i < born@.len() ==> {
                &&& world.map.in_bounds(#[trigger] born@[i].pos)
                &&& world.map.tile_at(born@[i].pos).booked
                &&& newborn_ok(born@[i], data)
                &&& data[born@[i].data_id as int].altitude_min <= world.map.tile_at(born@[i].pos).height
                &&& world.map.tile_at(born@[i].pos).height <= data[born@[i].data_id as int].altitude_max
            },
            j == 0 ==> *world == w1,
            placed_so_far(w1.map, w1.live(), born@, ids, j as int, world.map, world.live()),
            forall|i: int| 0 <= i < born@.len() ==> w1.map.in_bounds(#[trigger] born@[i].pos),
        decreases born@.len() - j,
    {
        let b = born[j];
        let ghost wa = *world;
        proof {
            assert(world.map.in_bounds(born@[j as int].pos));
            assert(MAX_SIDE * MAX_SIDE + MAX_SIDE * MAX_SIDE < u32::MAX - 1);
        }
        let ghost ids0 = ids;
        let id = store_insert(&mut world.entities, b);
        proof {
            ids = ids.push(id);
        }
        let ghost m1 = world.map;
        let ghost t1 = world.map.tile_at(b.pos);
        match world.map.get_mut(b.pos) {
            Some(tile) => {
                tile.entity = Some(id);
                tile.entity_height = b.height;
                tile.booked = false;
            },
            None => {},
        }
        proof {
            let t2 = Tile { entity: Some(id), entity_height: b.height, booked: false, ..t1 };
            TileMap::lemma_set_tile(m1, world.map, b.pos, t2);
            TileMap::lemma_same_terrain_trans(world.map, m1, w1.map);
            let w = *world;
            assert(!w1.live().dom().contains(id));
            assert forall|k: EntityId| #[trigger] w1.live().dom().contains(k) implies {
                &&& w.map.in_bounds(w1.live()[k].pos)
                &&& (!dead.contains(k) ==> w.map.tile_at(w1.live()[k].pos).entity == Some(k))
            } by {
                assert(wa.map.in_bounds(w1.live()[k].pos));
                assert(w.map.in_bounds(w1.live()[k].pos));
                if !dead.contains(k) {
                    assert(wa.map.tile_at(w1.live()[k].pos).entity == Some(k));
                    assert(!wa.map.tile_at(w1.live()[k].pos).booked);
                    assert(w1.live()[k].pos != b.pos);
                }
            }
            assert forall|k: EntityId| #[trigger] w.live().dom().contains(k) && !w1.live().dom().contains(k) implies {
                &&& newborn_ok(w.live()[k], data)
                &&& data[w.live()[k].data_id as int].altitude_min <= w.map.tile_at(w.live()[k].pos).height
                &&& w.map.tile_at(w.live()[k].pos).height <= data[w.live()[k].data_id as int].altitude_max
                &&& w.map.in_bounds(w.live()[k].pos)
                &&& w.map.tile_at(w.live()[k].pos).entity == Some(k)
            } by {
                if k != id {
                    assert(wa.live().dom().contains(k));
                    assert(wa.map.in_bounds(wa.live()[k].pos));
                    assert(w.map.in_bounds(wa.live()[k].pos));
                    assert(wa.map.tile_at(wa.live()[k].pos).entity == Some(k));
                    assert(!wa.map.tile_at(wa.live()[k].pos).booked);
                    assert(wa.live()[k].pos != b.pos);
                } else {
                    assert(w.live()[k] == b);
                    assert(w.map.in_bounds(b.pos));
                }
            }
            assert forall|p: Position| #[trigger] w.map.in_bounds(p) implies {
                &&& (w.map.tile_at(p).booked ==> exists|i: int| j + 1 <= i < born@.len() && (#[trigger] born@[i]).pos == p)
                &&& (w.map.tile_at(p).entity matches Some(k) ==> {
                    &&& w.live().dom().contains(k)
                    &&& w.live()[k].pos == p
                    &&& w.map.tile_at(p).entity_height == w.live()[k].height
                    &&& !w.map.tile_at(p).booked
                    &&& (w1.live().dom().contains(k) ==> !dead.contains(k))
                })
            } by {
                assert(wa.map.in_bounds(p));
                if p != b.pos {
                    if w.map.tile_at(p).booked {
                        let i = choose|i: int| j <= i < born@.len() && (#[trigger] born@[i]).pos == p;
                        assert(i != j);
                    }
                    if let Some(k) = w.map.tile_at(p).entity {
                        assert(k != id);
                    }
                }
            }
            assert forall|i: int| j + 1 <= i < born@.len() implies {
                &&& w.map.in_bounds(#[trigger] born@[i].pos)
                &&& w.map.tile_at(born@[i].pos).booked
                &&& newborn_ok(born@[i], data)
                &&& data[born@[i].data_id as int].altitude_min <= w.map.tile_at(born@[i].pos).height
                &&& w.map.tile_at(born@[i].pos).height <= data[born@[i].data_id as int].altitude_max
            } by {
                assert(born@[i].pos != born@[j as int].pos);
                assert(wa.map.in_bounds(born@[i].pos));
                assert(w.map.in_bounds(born@[i].pos));
                assert(w.map.tile_at(born@[i].pos) == wa.map.tile_at(born@[i].pos));
            }
            lemma_place_one(w1.map, w1.live(), born@, ids0, j as int, wa.map, wa.live(), id, w.map, w.live());
        }
        j = j + 1;
    }
    proof {
        lemma_placed_all(w1.map, w1.live(), born@, ids, world.map, world.live());
    }
    Ghost(ids)
}

} // verus!

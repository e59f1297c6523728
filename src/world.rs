//! The world: the map, the live entities and the species catalog, with the
//! invariant that ties tiles and entities to each other.
use vstd::prelude::*;
use vstd::set_lib::{lemma_len_subset, lemma_int_range, lemma_map_size, set_int_range};
use vstd::relations::injective_on;
use crate::entity::{newborn, Entity, EntityClass, EntityData};
use crate::map::{Tile, TileMap, MAX_SIDE};
use crate::map_data::MapData;
use crate::position::Position;
use crate::store::{empty_store, entities_of, store_get, store_insert, store_keys, store_len, store_new, EntityId, EntityStore};

verus! {

/// The tile at `p` is consistent with the entities `es`: an occupant it names
/// is live, not in `dead`, stands at `p`, and has its height cached here; a
/// tile with an occupant is not booked.
pub open spec fn occupant_ok(map: TileMap, es: Map<EntityId, Entity>, dead: Seq<EntityId>, p: Position) -> bool {
    map.tile_at(p).entity matches Some(k) ==> {
        &&& es.dom().contains(k)
        &&& !dead.contains(k)
        &&& es[k].pos == p
        &&& map.tile_at(p).entity_height == es[k].height
        &&& !map.tile_at(p).booked
    }
}

/// Entity `k` stands on the map; its tile names it, unless it is in `dead`,
/// in which case its tile names nobody.
pub open spec fn placed_ok(map: TileMap, es: Map<EntityId, Entity>, dead: Seq<EntityId>, k: EntityId) -> bool {
    &&& map.in_bounds(es[k].pos)
    &&& if dead.contains(k) {
        map.tile_at(es[k].pos).entity.is_none()
    } else {
        map.tile_at(es[k].pos).entity == Some(k)
    }
}

/// Entity `e` belongs to one of `n_species` species and can still age.
pub open spec fn record_ok(e: Entity, n_species: nat) -> bool {
    &&& e.data_id < n_species
    &&& e.age < u16::MAX
}

/// The species catalog numbers its species from 0 in order.
pub open spec fn catalog_ok(data: Seq<EntityData>) -> bool {
    forall|i: int| 0 <= i < data.len() ==> #[trigger] data[i].id == i
}

/// Each entity's tile names it, so two entities never share a tile; the
/// store is no larger than the map.
pub proof fn lemma_store_bound(map: TileMap, es: Map<EntityId, Entity>)
    requires
        map.wf(),
        es.dom().finite(),
        forall|k: EntityId| #[trigger] es.dom().contains(k) ==> {
            &&& map.in_bounds(es[k].pos)
            &&& map.tile_at(es[k].pos).entity == Some(k)
        },
    ensures
        es.len() <= map.tiles_view().len(),
        es.len() <= MAX_SIDE * MAX_SIDE,
{
    let f = |k: EntityId| map.index_of(es[k].pos);
    let n = map.tiles_view().len() as int;
    assert(injective_on(f, es.dom())) by {
        assert forall|a: EntityId, b: EntityId|
            es.dom().contains(a) && es.dom().contains(b) && #[trigger] f(a) == #[trigger] f(b) implies a == b by {
            map.lemma_index_injective(es[a].pos, es[b].pos);
        }
    }
    lemma_map_size(es.dom(), es.dom().map(f), f);
    lemma_int_range(0, n);
    assert(es.dom().map(f).subset_of(set_int_range(0, n))) by {
        assert forall|i: int| #[trigger] es.dom().map(f).contains(i) implies set_int_range(0, n).contains(i) by {
            let k = choose|k: EntityId| es.dom().contains(k) && f(k) == i;
            map.lemma_index_in_range(es[k].pos);
        }
    }
    lemma_len_subset(es.dom().map(f), set_int_range(0, n));
    assert(map.spec_width() * map.spec_height() <= MAX_SIDE * MAX_SIDE) by (nonlinear_arith)
        requires
            map.spec_width() <= MAX_SIDE,
            map.spec_height() <= MAX_SIDE,
    ;
}

/// Two live entities never stand on the same tile.
pub proof fn lemma_one_entity_per_tile(w: World, a: EntityId, b: EntityId)
    requires
        w.wf(),
        w.live().dom().contains(a),
        w.live().dom().contains(b),
        a != b,
    ensures
        w.live()[a].pos != w.live()[b].pos,
{
    assert(placed_ok(w.map, w.live(), Seq::empty(), a));
    assert(placed_ok(w.map, w.live(), Seq::empty(), b));
}

pub struct World {
    pub map: TileMap,
    pub entities: EntityStore,
    pub data_store: Vec<EntityData>,
}

impl World {
    /// The live entities by handle.
    pub open spec fn live(&self) -> Map<EntityId, Entity> {
        entities_of(self.entities)
    }

    pub open spec fn wf(&self) -> bool {
        &&& self.map.wf()
        &&& self.live().dom().finite()
        &&& catalog_ok(self.data_store@)
        &&& forall|p: Position| #[trigger] self.map.in_bounds(p) ==> {
            &&& occupant_ok(self.map, self.live(), Seq::empty(), p)
            &&& !self.map.tile_at(p).booked
        }
        &&& forall|k: EntityId| #[trigger] self.live().dom().contains(k) ==> {
            &&& placed_ok(self.map, self.live(), Seq::empty(), k)
            &&& record_ok(self.live()[k], self.data_store@.len())
        }
    }

    /// A world on the given terrain, with no species and no entities.
    pub fn new(map_data: MapData) -> (r: World)
        requires
            map_data.wf(),
            map_data.spec_width() <= MAX_SIDE,
            map_data.spec_height() <= MAX_SIDE,
        ensures
            r.wf(),
            r.live() == empty_store(),
            r.data_store@.len() == 0,
            r.map.spec_width() == map_data.spec_width(),
            r.map.spec_height() == map_data.spec_height(),
            forall|p: Position| #[trigger] r.map.in_bounds(p) ==> {
                &&& r.map.tile_at(p).height == map_data.elevation(p.x as int, p.y as int)
                &&& r.map.tile_at(p).entity.is_none()
            },
    {
        World { map: TileMap::new(map_data), entities: store_new(), data_store: Vec::new() }
    }

    /// Appends a species with every tunable at zero; its id is the number of
    /// species before it. The result is the new record, for the caller to
    /// configure.
    pub fn create_data(&mut self, name: &str, class: EntityClass) -> (r: &mut EntityData)
        ensures
            r.id == old(self).data_store@.len(),
            r.name@ == name@,
            *r == EntityData::new_spec(old(self).data_store@.len(), r.name, class),
            final(self).data_store@ == old(self).data_store@.push(*final(r)),
            final(self).map == old(self).map,
            final(self).entities == old(self).entities,
    {
        let id: usize = self.data_store.len();
        self.data_store.push(EntityData::new(id, name.to_owned(), class));
        &mut self.data_store[id]
    }

    /// The number of live entities.
    pub fn entity_count(&self) -> (r: usize)
        ensures
            r == self.live().len(),
    {
        store_len(&self.entities)
    }

    /// The live entity with this handle, if any.
    pub fn entity(&self, id: EntityId) -> (r: Option<Entity>)
        ensures
            r == (if self.live().dom().contains(id) {
                Some(self.live()[id])
            } else {
                None
            }),
    {
        store_get(&self.entities, id)
    }

    /// The handles of all live entities, each once.
    pub fn entity_ids(&self) -> (r: Vec<EntityId>)
        ensures
            r@.no_duplicates(),
            forall|k: EntityId| r@.contains(k) <==> self.live().dom().contains(k),
    {
        store_keys(&self.entities)
    }
}

/// Places a newborn of species `data_id` at `pos` when the tile exists and
/// nothing stands on it, and the species' lifetime range is not empty;
/// otherwise does nothing.
pub fn spawn_entity(world: &mut World, data_id: usize, pos: Position)
    requires
        old(world).wf(),
        data_id < old(world).data_store@.len(),
    ensures
        final(world).wf(),
        final(world).data_store == old(world).data_store,
        final(world).map.same_terrain(&old(world).map),
        ({
            let placed = old(world).map.in_bounds(pos)
                && old(world).map.tile_at(pos).entity.is_none()
                && old(world).data_store@[data_id as int].can_create();
            if placed {
                exists|k: EntityId, draw: u16| {
                    &&& !old(world).live().dom().contains(k)
                    &&& final(world).live() == old(world).live().insert(
                        k,
                        newborn(old(world).data_store@[data_id as int], pos, draw),
                    )
                    &&& final(world).map.tile_at(pos).entity == Some(k)
                }
            } else {
                final(world).live() == old(world).live() && final(world).map == old(world).map
            }
        }),
{
    let ghost w0 = *world;
    let free = match world.map.get(pos) {
        Some(tile) => tile.entity.is_none(),
        None => false,
    };
    if !free || !world.data_store[data_id].can_create_exec() {
        return;
    }
    let entity = Entity::new(&world.data_store[data_id], pos);
    let ghost draw = choose|draw: u16| entity == newborn(world.data_store@[data_id as int], pos, draw);
    proof {
        lemma_store_bound(world.map, world.live());
        assert(MAX_SIDE * MAX_SIDE < u32::MAX - 1);
    }
    let id = store_insert(&mut world.entities, entity);
    let ghost m0 = world.map;
    let ghost t0 = world.map.tile_at(pos);
    match world.map.get_mut(pos) {
        Some(tile) => {
            tile.entity = Some(id);
            tile.entity_height = entity.height;
        },
        None => {},
    }
    proof {
        let w = *world;
        let t = Tile { entity: Some(id), entity_height: entity.height, ..t0 };
        TileMap::lemma_set_tile(m0, w.map, pos, t);
        assert forall|p: Position| #[trigger] w.map.in_bounds(p) implies {
            &&& occupant_ok(w.map, w.live(), Seq::empty(), p)
            &&& !w.map.tile_at(p).booked
        } by {
            assert(w0.map.in_bounds(p));
        }
        assert forall|k: EntityId| #[trigger] w.live().dom().contains(k) implies {
            &&& placed_ok(w.map, w.live(), Seq::empty(), k)
            &&& record_ok(w.live()[k], w.data_store@.len())
        } by {
            if k != id {
                assert(w0.live().dom().contains(k));
            } else {
                assert(w.data_store@[data_id as int].id == data_id);
                assert(w.live()[k] == entity);
                assert(record_ok(entity, w.data_store@.len()));
                assert(placed_ok(w.map, w.live(), Seq::empty(), k));
            }
        }
        assert(w.live() == w0.live().insert(id, newborn(w0.data_store@[data_id as int], pos, draw)));
        assert(w.map.tile_at(pos).entity == Some(id));
    }
}

} // verus!

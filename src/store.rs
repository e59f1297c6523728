//! The entity store: a `slotmap::SlotMap` whose keys carry a generation, so a
//! key of a removed entity does not find the next occupant of its slot. Everything here is taken on
//! trust from the slotmap crate; each item names the call it relies on.
use vstd::prelude::*;
use crate::entity::Entity;

verus! {

/// slotmap's key type, opaque to the proofs: keys are only compared.
#[verifier::external_type_specification]
#[verifier::external_body]
pub struct ExDefaultKey(slotmap::DefaultKey);

/// Handle of a live entity.
pub type EntityId = slotmap::DefaultKey;

/// The store of live entities. Its contents are known to the proofs only
/// through `entities_of` and the functions below. Verus does not accept a
/// declaration of `SlotMap` itself (its key bound is an outside trait), so the
/// map sits in a field of this struct, which is hidden from the proofs.
#[verifier::external_body]
pub struct EntityStore {
    slots: slotmap::SlotMap<EntityId, Entity>,
}

/// What a store holds: each live key with its entity.
pub uninterp spec fn entities_of(m: EntityStore) -> Map<EntityId, Entity>;

/// The contents of a store that holds nothing.
pub open spec fn empty_store() -> Map<EntityId, Entity> {
    Map::empty()
}

/// Relies on `SlotMap::with_key`: a new slot map is empty.
#[verifier::external_body]
pub(crate) fn store_new() -> (r: EntityStore)
    ensures
        entities_of(r) == empty_store(),
{
    EntityStore { slots: slotmap::SlotMap::with_key() }
}

/// Relies on `SlotMap::insert`: the value is stored under a key that was not
/// live before. It panics only when the map already holds `u32::MAX - 1`
/// elements, which `requires` excludes.
#[verifier::external_body]
pub(crate) fn store_insert(m: &mut EntityStore, e: Entity) -> (k: EntityId)
    requires
        entities_of(*old(m)).len() < u32::MAX - 1,
    ensures
        !entities_of(*old(m)).contains_key(k),
        entities_of(*final(m)) == entities_of(*old(m)).insert(k, e),
{
    m.slots.insert(e)
}

/// Relies on `SlotMap::remove`: a live key leaves the map and hands its value
/// back; any other key changes nothing.
#[verifier::external_body]
pub(crate) fn store_remove(m: &mut EntityStore, k: EntityId) -> (r: Option<Entity>)
    ensures
        entities_of(*final(m)) == entities_of(*old(m)).remove(k),
        r == (if entities_of(*old(m)).contains_key(k) {
            Some(entities_of(*old(m))[k])
        } else {
            None
        }),
{
    m.slots.remove(k)
}

/// Relies on `SlotMap::get`: the value under a live key, `None` for any other.
#[verifier::external_body]
pub(crate) fn store_get(m: &EntityStore, k: EntityId) -> (r: Option<Entity>)
    ensures
        r == (if entities_of(*m).contains_key(k) {
            Some(entities_of(*m)[k])
        } else {
            None
        }),
{
    m.slots.get(k).copied()
}

/// Relies on `SlotMap::get_mut`: writes a new value under a live key; any
/// other key changes nothing.
#[verifier::external_body]
pub(crate) fn store_set(m: &mut EntityStore, k: EntityId, e: Entity)
    ensures
        entities_of(*final(m)) == (if entities_of(*old(m)).contains_key(k) {
            entities_of(*old(m)).insert(k, e)
        } else {
            entities_of(*old(m))
        }),
{
    if let Some(slot) = m.slots.get_mut(k) {
        *slot = e;
    }
}

/// Relies on `SlotMap::len`: the number of live entries.
#[verifier::external_body]
pub(crate) fn store_len(m: &EntityStore) -> (r: usize)
    ensures
        r == entities_of(*m).len(),
{
    m.slots.len()
}

/// Relies on `SlotMap::keys`: every live key, each once, in the map's own
/// order.
#[verifier::external_body]
pub(crate) fn store_keys(m: &EntityStore) -> (r: Vec<EntityId>)
    ensures
        r@.no_duplicates(),
        forall|k: EntityId| r@.contains(k) <==> entities_of(*m).contains_key(k),
{
    m.slots.keys().collect()
}

} // verus!

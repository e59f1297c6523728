//! The species of the game, added to a world's catalog.
use vstd::prelude::*;
use crate::entity::{EntityClass, EntityData, SpawnPattern};
use crate::world::World;

verus! {

/// The tunables of one species, in the order the setters take them.
pub struct SpeciesParams {
    pub class: EntityClass,
    pub lifetime: (u16, u16),
    pub altitude: (u8, u8),
    pub height: u8,
    pub spawn: (u16, u16, u16),
    pub pattern: SpawnPattern,
    pub sprite: u16,
}

impl SpeciesParams {
    pub open spec fn valid(&self) -> bool {
        &&& self.lifetime.0 < self.lifetime.1
        &&& self.altitude.0 <= self.altitude.1
        &&& self.spawn.1 <= self.spawn.2
    }

    /// Whether species record `d` carries exactly these tunables.
    pub open spec fn describes(&self, d: EntityData) -> bool {
        &&& d.class == self.class
        &&& d.lifetime_min == self.lifetime.0
        &&& d.lifetime_max == self.lifetime.1
        &&& d.altitude_min == self.altitude.0
        &&& d.altitude_max == self.altitude.1
        &&& d.height == self.height
        &&& d.spawn_cost == self.spawn.0
        &&& d.spawn_age_min == self.spawn.1
        &&& d.spawn_age_max == self.spawn.2
        &&& d.spawn_pattern == Some(self.pattern)
        &&& d.sprite == self.sprite
    }
}

/// Appends a species named `name` with the tunables `p`.
pub fn define_species(world: &mut World, name: &str, p: &SpeciesParams)
    requires
        old(world).wf(),
        p.valid(),
    ensures
        final(world).wf(),
        final(world).map == old(world).map,
        final(world).entities == old(world).entities,
        final(world).data_store@.len() == old(world).data_store@.len() + 1,
        forall|i: int| 0 <= i < old(world).data_store@.len() ==> final(world).data_store@[i] == old(world).data_store@[i],
        ({
            let d = final(world).data_store@[old(world).data_store@.len() as int];
            &&& d.id == old(world).data_store@.len()
            &&& d.name@ == name@
            &&& p.describes(d)
        }),
{
    let d = world.create_data(name, p.class);
    match d.set_lifetime(p.lifetime.0, p.lifetime.1) {
        Ok(d) => match d.set_altitude(p.altitude.0, p.altitude.1) {
            Ok(d) => {
                let d = d.set_height(p.height);
                match d.set_spawn(p.spawn.0, p.spawn.1, p.spawn.2, p.pattern) {
                    Ok(d) => {
                        d.set_sprite(p.sprite);
                    },
                    Err(_) => {},
                }
            },
            Err(_) => {},
        },
        Err(_) => {},
    }
}

pub open spec fn grass_params() -> SpeciesParams {
    SpeciesParams {
        class: EntityClass::Plant,
        lifetime: (40, 600),
        altitude: (4, 6),
        height: 1,
        spawn: (4, 10, 600),
        pattern: SpawnPattern::Close,
        sprite: 28,
    }
}

pub fn grass() -> (r: SpeciesParams)
    ensures
        r == grass_params(),
        r.valid(),
{
    SpeciesParams {
        class: EntityClass::Plant,
        lifetime: (40, 600),
        altitude: (4, 6),
        height: 1,
        spawn: (4, 10, 600),
        pattern: SpawnPattern::Close,
        sprite: 28,
    }
}

pub open spec fn bush_params() -> SpeciesParams {
    SpeciesParams {
        class: EntityClass::Plant,
        lifetime: (60, 70),
        altitude: (4, 6),
        height: 2,
        spawn: (14, 20, 30),
        pattern: SpawnPattern::Circle,
        sprite: 24,
    }
}

pub fn bush() -> (r: SpeciesParams)
    ensures
        r == bush_params(),
        r.valid(),
{
    SpeciesParams {
        class: EntityClass::Plant,
        lifetime: (60, 70),
        altitude: (4, 6),
        height: 2,
        spawn: (14, 20, 30),
        pattern: SpawnPattern::Circle,
        sprite: 24,
    }
}

pub open spec fn tree_params() -> SpeciesParams {
    SpeciesParams {
        class: EntityClass::Plant,
        lifetime: (80, 1400),
        altitude: (4, 6),
        height: 3,
        spawn: (100, 50, 70),
        pattern: SpawnPattern::Circle,
        sprite: 23,
    }
}

pub fn tree() -> (r: SpeciesParams)
    ensures
        r == tree_params(),
        r.valid(),
{
    SpeciesParams {
        class: EntityClass::Plant,
        lifetime: (80, 1400),
        altitude: (4, 6),
        height: 3,
        spawn: (100, 50, 70),
        pattern: SpawnPattern::Circle,
        sprite: 23,
    }
}

pub open spec fn scorpid_params() -> SpeciesParams {
    SpeciesParams {
        class: EntityClass::Creature,
        lifetime: (8, 14),
        altitude: (4, 6),
        height: 2,
        spawn: (12, 4, 14),
        pattern: SpawnPattern::Close,
        sprite: 44,
    }
}

pub fn scorpid() -> (r: SpeciesParams)
    ensures
        r == scorpid_params(),
        r.valid(),
{
    SpeciesParams {
        class: EntityClass::Creature,
        lifetime: (8, 14),
        altitude: (4, 6),
        height: 2,
        spawn: (12, 4, 14),
        pattern: SpawnPattern::Close,
        sprite: 44,
    }
}

/// Adds the game's species, with ids 0 to 3: grass, bush, tree and scorpid.
pub fn add_game_species(world: &mut World)
    requires
        old(world).wf(),
    ensures
        final(world).wf(),
        final(world).map == old(world).map,
        final(world).entities == old(world).entities,
        final(world).data_store@.len() == old(world).data_store@.len() + 4,
        grass_params().describes(final(world).data_store@[old(world).data_store@.len() as int]),
        bush_params().describes(final(world).data_store@[old(world).data_store@.len() + 1int]),
        tree_params().describes(final(world).data_store@[old(world).data_store@.len() + 2int]),
        scorpid_params().describes(final(world).data_store@[old(world).data_store@.len() + 3int]),
{
    define_species(world, "grass", &grass());
    define_species(world, "bush", &bush());
    define_species(world, "tree", &tree());
    define_species(world, "scorpid", &scorpid());
}

} // verus!

//! Species (the catalog's records) and the individuals that belong to them.
use vstd::prelude::*;
use crate::position::Position;

verus! {

/// What decides how a species gathers energy.
#[derive(Clone, Copy, Debug, PartialEq, Eq, Structural)]
pub enum EntityClass {
    /// Gathers sunlight, less of it when taller neighbours shade it.
    Plant,
    /// Gathers a fixed amount each tick.
    Creature,
}

/// A fixed list of offsets from which a parent picks the tile of its child.
#[derive(Clone, Copy, Debug, PartialEq, Eq, Structural)]
pub enum SpawnPattern {
    /// The four orthogonal neighbours.
    Close,
    /// The eight neighbours and the twelve tiles around them that make a
    /// rough circle of radius two.
    Circle,
}

/// The position (x, y).
pub open spec fn at(x: i16, y: i16) -> Position {
    Position { x, y }
}

impl SpawnPattern {
    /// The offsets of the pattern, in the order in which a draw indexes them.
    pub open spec fn spec_offsets(self) -> Seq<Position> {
        match self {
            SpawnPattern::Close => seq![at(-1i16, 0i16), at(1i16, 0i16), at(0i16, -1i16), at(0i16, 1i16)],
            SpawnPattern::Circle => seq![
                at(-1i16, 0i16), at(1i16, 0i16), at(0i16, -1i16), at(0i16, 1i16),
                at(-1i16, -1i16), at(1i16, -1i16), at(-1i16, 1i16), at(1i16, 1i16),
                at(-2i16, -1i16), at(-2i16, 0i16), at(-2i16, 1i16),
                at(2i16, -1i16), at(2i16, 0i16), at(2i16, 1i16),
                at(-1i16, -2i16), at(0i16, -2i16), at(1i16, -2i16),
                at(-1i16, 2i16), at(0i16, 2i16), at(1i16, 2i16),
            ],
        }
    }

    pub fn offsets(&self) -> (r: Vec<Position>)
        ensures
            r@ == self.spec_offsets(),
            r@.len() > 0,
    {
        match self {
            SpawnPattern::Close => {
                let v = vec![
                    Position::new(-1, 0), Position::new(1, 0), Position::new(0, -1), Position::new(0, 1),
                ];
                assert(v@ =~= self.spec_offsets());
                v
            },
            SpawnPattern::Circle => {
                let v = vec![
                    Position::new(-1, 0), Position::new(1, 0), Position::new(0, -1), Position::new(0, 1),
                    Position::new(-1, -1), Position::new(1, -1), Position::new(-1, 1), Position::new(1, 1),
                    Position::new(-2, -1), Position::new(-2, 0), Position::new(-2, 1),
                    Position::new(2, -1), Position::new(2, 0), Position::new(2, 1),
                    Position::new(-1, -2), Position::new(0, -2), Position::new(1, -2),
                    Position::new(-1, 2), Position::new(0, 2), Position::new(1, 2),
                ];
                assert(v@ =~= self.spec_offsets());
                v
            },
        }
    }
}

/// A range of a species that was given with its bounds the wrong way round.
#[derive(Clone, Copy, Debug, PartialEq, Eq, Structural)]
pub enum ConfigError {
    /// `min > max` for the elevation band.
    AltitudeRange,
    /// `min >= max` for the lifetime range (its upper bound is exclusive).
    LifetimeRange,
    /// `min > max` for the spawn age window.
    SpawnAgeRange,
}

/// The parameters of one species.
#[derive(Debug)]
pub struct EntityData {
    pub id: usize,
    pub name: String,
    pub class: EntityClass,
    /// Elevation band `[altitude_min, altitude_max]` of the tiles it can live on.
    pub altitude_min: u8,
    pub altitude_max: u8,
    /// Lifetimes are drawn from `[lifetime_min, lifetime_max)`.
    pub lifetime_min: u16,
    pub lifetime_max: u16,
    pub height: u8,
    /// Energy a parent needs, and gives up, to spawn.
    pub spawn_cost: u16,
    /// Ages `[spawn_age_min, spawn_age_max]` at which it may spawn.
    pub spawn_age_min: u16,
    pub spawn_age_max: u16,
    pub spawn_pattern: Option<SpawnPattern>,
    pub sprite: u16,
}

impl EntityData {
    /// A species with every tunable at zero and no spawn pattern.
    pub fn new(id: usize, name: String, class: EntityClass) -> (r: EntityData)
        ensures
            r == (EntityData {
                id,
                name,
                class,
                altitude_min: 0,
                altitude_max: 0,
                lifetime_min: 0,
                lifetime_max: 0,
                height: 0,
                spawn_cost: 0,
                spawn_age_min: 0,
                spawn_age_max: 0,
                spawn_pattern: None,
                sprite: 0,
            }),
    {
        EntityData {
            id,
            name,
            class,
            altitude_min: 0,
            altitude_max: 0,
            lifetime_min: 0,
            lifetime_max: 0,
            height: 0,
            spawn_cost: 0,
            spawn_age_min: 0,
            spawn_age_max: 0,
            spawn_pattern: None,
            sprite: 0,
        }
    }

    /// Whether individuals of the species can be made: its lifetime range is
    /// not empty.
    pub open spec fn can_create(&self) -> bool {
        self.lifetime_min < self.lifetime_max
    }

    pub fn can_create_exec(&self) -> (r: bool)
        ensures
            r == self.can_create(),
    {
        self.lifetime_min < self.lifetime_max
    }

    /// A species record with every tunable at zero and no spawn pattern.
    pub open spec fn new_spec(id: nat, name: String, class: EntityClass) -> EntityData {
        EntityData {
            id: id as usize,
            name,
            class,
            altitude_min: 0,
            altitude_max: 0,
            lifetime_min: 0,
            lifetime_max: 0,
            height: 0,
            spawn_cost: 0,
            spawn_age_min: 0,
            spawn_age_max: 0,
            spawn_pattern: None,
            sprite: 0,
        }
    }

    /// Sets the elevation band; refused when `min > max`.
    pub fn set_altitude(&mut self, min: u8, max: u8) -> (r: Result<&mut EntityData, ConfigError>)
        ensures
            match r {
                Ok(d) => {
                    &&& min <= max
                    &&& *d == (EntityData { altitude_min: min, altitude_max: max, ..*old(self) })
                    &&& *final(self) == *final(d)
                },
                Err(e) => {
                    &&& min > max
                    &&& e == ConfigError::AltitudeRange
                    &&& *final(self) == *old(self)
                },
            },
    {
        if min > max {
            return Err(ConfigError::AltitudeRange);
        }
        self.altitude_min = min;
        self.altitude_max = max;
        Ok(self)
    }

    /// Sets the lifetime range `[min, max)`; refused when it is empty.
    pub fn set_lifetime(&mut self, min: u16, max: u16) -> (r: Result<&mut EntityData, ConfigError>)
        ensures
            match r {
                Ok(d) => {
                    &&& min < max
                    &&& *d == (EntityData { lifetime_min: min, lifetime_max: max, ..*old(self) })
                    &&& *final(self) == *final(d)
                },
                Err(e) => {
                    &&& min >= max
                    &&& e == ConfigError::LifetimeRange
                    &&& *final(self) == *old(self)
                },
            },
    {
        if min >= max {
            return Err(ConfigError::LifetimeRange);
        }
        self.lifetime_min = min;
        self.lifetime_max = max;
        Ok(self)
    }

    pub fn set_height(&mut self, height: u8) -> (r: &mut EntityData)
        ensures
            *r == (EntityData { height, ..*old(self) }),
            *final(self) == *final(r),
    {
        self.height = height;
        self
    }

    /// Sets the spawn cost, age window and pattern; refused when
    /// `age_min > age_max`.
    pub fn set_spawn(&mut self, cost: u16, age_min: u16, age_max: u16, pattern: SpawnPattern) -> (r: Result<&mut EntityData, ConfigError>)
        ensures
            match r {
                Ok(d) => {
                    &&& age_min <= age_max
                    &&& *d == (EntityData {
                        spawn_cost: cost,
                        spawn_age_min: age_min,
                        spawn_age_max: age_max,
                        spawn_pattern: Some(pattern),
                        ..*old(self)
                    })
                    &&& *final(self) == *final(d)
                },
                Err(e) => {
                    &&& age_min > age_max
                    &&& e == ConfigError::SpawnAgeRange
                    &&& *final(self) == *old(self)
                },
            },
    {
        if age_min > age_max {
            return Err(ConfigError::SpawnAgeRange);
        }
        self.spawn_cost = cost;
        self.spawn_age_min = age_min;
        self.spawn_age_max = age_max;
        self.spawn_pattern = Some(pattern);
        Ok(self)
    }

    pub fn set_sprite(&mut self, sprite: u16) -> (r: &mut EntityData)
        ensures
            *r == (EntityData { sprite, ..*old(self) }),
            *final(self) == *final(r),
    {
        self.sprite = sprite;
        self
    }
}

/// One live individual.
#[derive(Clone, Copy, Debug)]
pub struct Entity {
    pub data_id: usize,
    pub pos: Position,
    pub age: u16,
    pub lifetime: u16,
    pub height: u8,
    pub energy: u16,
}

/// The lifetime that a draw gives within `[min, max)`.
pub open spec fn drawn_lifetime(min: u16, max: u16, draw: u16) -> u16 {
    (min + (draw as int) % ((max - min) as int)) as u16
}

/// A drawn lifetime lies in `[min, max)`.
pub proof fn lemma_drawn_lifetime_range(min: u16, max: u16, draw: u16)
    requires
        min < max,
    ensures
        min <= drawn_lifetime(min, max, draw) < max,
{
    assert(0 <= (draw as int) % ((max - min) as int) < max - min) by (nonlinear_arith)
        requires
            min < max,
    ;
}

/// A newborn of species `data` at `pos` whose lifetime draw was `draw`.
pub open spec fn newborn(data: EntityData, pos: Position, draw: u16) -> Entity {
    Entity {
        data_id: data.id,
        pos,
        age: 0,
        lifetime: drawn_lifetime(data.lifetime_min, data.lifetime_max, draw),
        height: data.height,
        energy: 0,
    }
}

impl Entity {
    /// A newborn whose lifetime is `lifetime_min + draw % (lifetime_max - lifetime_min)`.
    pub fn with_draw(data: &EntityData, pos: Position, draw: u16) -> (r: Entity)
        requires
            data.can_create(),
        ensures
            r == newborn(*data, pos, draw),
            data.lifetime_min <= r.lifetime < data.lifetime_max,
    {
        let lifetime: u16 = data.lifetime_min + draw % (data.lifetime_max - data.lifetime_min);
        Entity { data_id: data.id, pos, age: 0, lifetime, height: data.height, energy: 0 }
    }

    /// A newborn with a lifetime drawn at random from the species' range.
    pub fn new(data: &EntityData, pos: Position) -> (r: Entity)
        requires
            data.can_create(),
        ensures
            exists|draw: u16| r == newborn(*data, pos, draw),
            data.lifetime_min <= r.lifetime < data.lifetime_max,
    {
        let draw: u16 = rand::random::<u16>();
        Entity::with_draw(data, pos, draw)
    }
}

} // verus!

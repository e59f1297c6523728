//! The spatial grid: a fixed-size map of tiles addressed by position.
use vstd::prelude::*;
use crate::map_data::{grid_index, lemma_grid_index_bounds, lemma_grid_index_injective, MapData};
use crate::position::Position;
use crate::store::EntityId;

verus! {

/// The largest width or height of a map: every coordinate must fit in an `i16`.
pub const MAX_SIDE: usize = 32768;

/// Whether a position lies inside a `w` × `h` grid.
pub open spec fn pos_in(p: Position, w: nat, h: nat) -> bool {
    0 <= p.x < w && 0 <= p.y < h
}

/// One cell of the map.
pub struct Tile {
    pub pos: Position,
    /// Terrain elevation.
    pub height: u8,
    /// The entity standing here, if any.
    pub entity: Option<EntityId>,
    /// The height of that entity, kept here for neighbour queries.
    pub entity_height: u8,
    /// Reserved for a birth that commits at the end of the current tick.
    pub booked: bool,
}

impl Tile {
    pub(crate) fn new(x: i16, y: i16, height: u8) -> (r: Tile)
        ensures
            r == (Tile {
                pos: Position { x, y },
                height,
                entity: None,
                entity_height: 0,
                booked: false,
            }),
    {
        Tile { pos: Position::new(x, y), height, entity: None, entity_height: 0, booked: false }
    }

    /// A tile is free when nothing stands on it and no birth has reserved it.
    pub fn is_free(&self) -> (r: bool)
        ensures
            r == (!self.booked && self.entity.is_none()),
    {
        !self.booked && self.entity.is_none()
    }
}

/// A width × height grid of tiles, stored row by row.
pub struct TileMap {
    tiles: Vec<Tile>,
    width: usize,
    height: usize,
}

impl TileMap {
    /// The tiles, row by row.
    pub closed spec fn tiles_view(&self) -> Seq<Tile> {
        self.tiles@
    }

    pub closed spec fn spec_width(&self) -> nat {
        self.width as nat
    }

    pub closed spec fn spec_height(&self) -> nat {
        self.height as nat
    }

    pub open spec fn in_bounds(&self, p: Position) -> bool {
        pos_in(p, self.spec_width(), self.spec_height())
    }

    pub open spec fn index_of(&self, p: Position) -> int {
        grid_index(p.x as int, p.y as int, self.spec_width() as int)
    }

    /// The tile at an in-bounds position.
    pub open spec fn tile_at(&self, p: Position) -> Tile {
        self.tiles_view()[self.index_of(p)]
    }

    pub open spec fn wf(&self) -> bool {
        &&& self.spec_width() <= MAX_SIDE
        &&& self.spec_height() <= MAX_SIDE
        &&& self.tiles_view().len() == self.spec_width() * self.spec_height()
        &&& forall|p: Position| #[trigger] self.in_bounds(p) ==> self.tile_at(p).pos == p
    }

    /// Same size, and the same terrain and position at every tile.
    pub open spec fn same_terrain(&self, other: &TileMap) -> bool {
        &&& self.spec_width() == other.spec_width()
        &&& self.spec_height() == other.spec_height()
        &&& self.tiles_view().len() == other.tiles_view().len()
        &&& forall|p: Position| #[trigger] self.in_bounds(p) ==> {
            &&& self.tile_at(p).pos == other.tile_at(p).pos
            &&& self.tile_at(p).height == other.tile_at(p).height
        }
    }

    pub proof fn lemma_same_terrain_trans(a: TileMap, b: TileMap, c: TileMap)
        requires
            a.same_terrain(&b),
            b.same_terrain(&c),
        ensures
            a.same_terrain(&c),
    {
        assert forall|p: Position| #[trigger] a.in_bounds(p) implies {
            &&& a.tile_at(p).pos == c.tile_at(p).pos
            &&& a.tile_at(p).height == c.tile_at(p).height
        } by {
            assert(b.in_bounds(p));
        }
    }

    /// An in-bounds position has its tile inside the tile sequence.
    pub proof fn lemma_index_in_range(&self, p: Position)
        requires
            self.wf(),
            self.in_bounds(p),
        ensures
            0 <= p.y * self.spec_width() <= self.index_of(p) < self.tiles_view().len(),
    {
        lemma_grid_index_bounds(
            p.x as int,
            p.y as int,
            self.spec_width() as int,
            self.spec_height() as int,
        );
    }

    /// Distinct in-bounds positions have distinct tiles.
    pub proof fn lemma_index_injective(&self, p: Position, q: Position)
        requires
            self.in_bounds(p),
            self.in_bounds(q),
            self.index_of(p) == self.index_of(q),
        ensures
            p == q,
    {
        lemma_grid_index_injective(
            p.x as int,
            p.y as int,
            q.x as int,
            q.y as int,
            self.spec_width() as int,
        );
    }

    /// Writing tile `t` at `p` (a tile that keeps its position) changes that
    /// tile alone and keeps the map well formed.
    pub proof fn lemma_set_tile(old_map: TileMap, new_map: TileMap, p: Position, t: Tile)
        requires
            old_map.wf(),
            old_map.in_bounds(p),
            t.pos == p,
            new_map.spec_width() == old_map.spec_width(),
            new_map.spec_height() == old_map.spec_height(),
            new_map.tiles_view() == old_map.tiles_view().update(old_map.index_of(p), t),
        ensures
            new_map.wf(),
            forall|q: Position| #[trigger] new_map.in_bounds(q) ==> new_map.tile_at(q) == (if q == p {
                t
            } else {
                old_map.tile_at(q)
            }),
            t.height == old_map.tile_at(p).height ==> new_map.same_terrain(&old_map),
    {
        old_map.lemma_index_in_range(p);
        assert forall|q: Position| #[trigger] new_map.in_bounds(q) implies new_map.tile_at(q) == (if q == p {
            t
        } else {
            old_map.tile_at(q)
        }) by {
            old_map.lemma_index_in_range(q);
            old_map.lemma_index_in_range(p);
            if q != p && old_map.index_of(q) == old_map.index_of(p) {
                old_map.lemma_index_injective(q, p);
            }
        }
        assert forall|q: Position| #[trigger] new_map.in_bounds(q) implies new_map.tile_at(q).pos == q by {
            assert(old_map.in_bounds(q));
        }
        if t.height == old_map.tile_at(p).height {
            assert forall|q: Position| #[trigger] new_map.in_bounds(q) implies {
                &&& new_map.tile_at(q).pos == old_map.tile_at(q).pos
                &&& new_map.tile_at(q).height == old_map.tile_at(q).height
            } by {
                assert(old_map.in_bounds(q));
            }
        }
    }

    /// A map laid out from terrain data: the tile at (x, y) has the elevation
    /// of cell (x, y), no occupant and no booking.
    pub fn new(data: MapData) -> (r: TileMap)
        requires
            data.wf(),
            data.spec_width() <= MAX_SIDE,
            data.spec_height() <= MAX_SIDE,
        ensures
            r.wf(),
            r.spec_width() == data.spec_width(),
            r.spec_height() == data.spec_height(),
            forall|p: Position| #[trigger] r.in_bounds(p) ==> r.tile_at(p) == (Tile {
                pos: p,
                height: data.elevation(p.x as int, p.y as int),
                entity: None,
                entity_height: 0,
                booked: false,
            }),
    {
        let width: usize = data.get_width();
        let height: usize = data.get_height();
        let mut tiles: Vec<Tile> = Vec::new();
        let mut iy: usize = 0;
        while iy < height
            invariant
                width == data.spec_width(),
                height == data.spec_height(),
                data.wf(),
                width <= MAX_SIDE,
                height <= MAX_SIDE,
                iy <= height,
                tiles@.len() == iy * width,
                forall|p: Position|
                    #[trigger] pos_in(p, width as nat, height as nat) && grid_index(p.x as int, p.y as int, width as int) < tiles@.len() ==> tiles@[grid_index(p.x as int, p.y as int, width as int)] == (Tile {
                        pos: p,
                        height: data.elevation(p.x as int, p.y as int),
                        entity: None,
                        entity_height: 0,
                        booked: false,
                    }),
            decreases height - iy,
        {
            let mut ix: usize = 0;
            while ix < width
                invariant
                    width == data.spec_width(),
                    height == data.spec_height(),
                    data.wf(),
                    width <= MAX_SIDE,
                    height <= MAX_SIDE,
                    iy < height,
                    ix <= width,
                    tiles@.len() == iy * width + ix,
                    forall|p: Position|
                        #[trigger] pos_in(p, width as nat, height as nat) && grid_index(p.x as int, p.y as int, width as int) < tiles@.len() ==> tiles@[grid_index(p.x as int, p.y as int, width as int)] == (Tile {
                            pos: p,
                            height: data.elevation(p.x as int, p.y as int),
                            entity: None,
                            entity_height: 0,
                            booked: false,
                        }),
                decreases width - ix,
            {
                let tile = Tile::new(ix as i16, iy as i16, data.get_tile(ix, iy));
                let ghost here = Position { x: ix as i16, y: iy as i16 };
                let ghost before = tiles@;
                tiles.push(tile);
                proof {
                    assert(pos_in(here, width as nat, height as nat));
                    assert(grid_index(here.x as int, here.y as int, width as int) == before.len());
                    assert forall|p: Position|
                        #[trigger] pos_in(p, width as nat, height as nat) && grid_index(p.x as int, p.y as int, width as int) < tiles@.len() implies tiles@[grid_index(p.x as int, p.y as int, width as int)] == (Tile {
                            pos: p,
                            height: data.elevation(p.x as int, p.y as int),
                            entity: None,
                            entity_height: 0,
                            booked: false,
                        }) by {
                        if grid_index(p.x as int, p.y as int, width as int) == before.len() {
                            lemma_grid_index_injective(p.x as int, p.y as int, here.x as int, here.y as int, width as int);
                        }
                    }
                }
                ix = ix + 1;
            }
            assert(tiles@.len() == (iy + 1) * width) by (nonlinear_arith)
                requires
                    tiles@.len() == iy * width + width,
            ;
            iy = iy + 1;
        }
        assert(tiles@.len() == width * height) by (nonlinear_arith)
            requires
                tiles@.len() == iy * width,
                iy == height,
        ;
        let r = TileMap { tiles, width, height };
        proof {
            assert forall|p: Position| #[trigger] r.in_bounds(p) implies r.tile_at(p) == (Tile {
                pos: p,
                height: data.elevation(p.x as int, p.y as int),
                entity: None,
                entity_height: 0,
                booked: false,
            }) by {
                assert(pos_in(p, width as nat, height as nat));
                lemma_grid_index_bounds(p.x as int, p.y as int, width as int, height as int);
            }
        }
        r
    }

    /// The tile at a position; `None` outside the map.
    pub fn get(&self, pos: Position) -> (r: Option<&Tile>)
        requires
            self.wf(),
        ensures
            r == (if self.in_bounds(pos) {
                Some(&self.tile_at(pos))
            } else {
                None
            }),
    {
        if pos.x < 0 || pos.y < 0 || pos.x as usize >= self.width || pos.y as usize >= self.height {
            None
        } else {
            proof {
                self.lemma_index_in_range(pos);
            }
            let _n: usize = self.tiles.len();
            Some(&self.tiles[pos.y as usize * self.width + pos.x as usize])
        }
    }

    /// The tile at a position, for change; `None` outside the map.
    pub fn get_mut(&mut self, pos: Position) -> (r: Option<&mut Tile>)
        requires
            old(self).wf(),
        ensures
            match r {
                Some(t) => {
                    &&& old(self).in_bounds(pos)
                    &&& *t == old(self).tile_at(pos)
                    &&& final(self).spec_width() == old(self).spec_width()
                    &&& final(self).spec_height() == old(self).spec_height()
                    &&& final(self).tiles_view() == old(self).tiles_view().update(
                        old(self).index_of(pos),
                        *final(t),
                    )
                },
                None => {
                    &&& !old(self).in_bounds(pos)
                    &&& *final(self) == *old(self)
                },
            },
    {
        if pos.x < 0 || pos.y < 0 || pos.x as usize >= self.width || pos.y as usize >= self.height {
            None
        } else {
            proof {
                self.lemma_index_in_range(pos);
            }
            let _n: usize = self.tiles.len();
            let i: usize = pos.y as usize * self.width + pos.x as usize;
            Some(&mut self.tiles[i])
        }
    }

    /// Calls `action` on every tile, row by row.
    pub fn for_each<F>(&self, mut action: F)
        where
            F: FnMut(&Tile),
        requires
            forall|t: &Tile| action.requires((t,)),
    {
        let mut i: usize = 0;
        while i < self.tiles.len()
            invariant
                forall|t: &Tile| action.requires((t,)),
            decreases self.tiles.len() - i,
        {
            action(&self.tiles[i]);
            i = i + 1;
        }
    }
}

} // verus!

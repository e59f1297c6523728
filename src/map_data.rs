//! Terrain as it comes from a map source: a width × height grid of elevations.
use vstd::prelude::*;

verus! {

/// The row-major index of cell (x, y) in a grid `w` cells wide.
pub open spec fn grid_index(x: int, y: int, w: int) -> int {
    y * w + x
}

/// A cell inside a `w` × `h` grid has a row-major index below `w * h`.
pub proof fn lemma_grid_index_bounds(x: int, y: int, w: int, h: int)
    requires
        0 <= x < w,
        0 <= y < h,
    ensures
        0 <= y * w <= grid_index(x, y, w) < w * h,
{
    assert(0 <= y * w <= y * w + x < w * h) by (nonlinear_arith)
        requires
            0 <= x < w,
            0 <= y < h,
    ;
}

/// Distinct cells of a grid have distinct row-major indices.
pub proof fn lemma_grid_index_injective(x1: int, y1: int, x2: int, y2: int, w: int)
    requires
        0 <= x1 < w,
        0 <= x2 < w,
        0 <= y1,
        0 <= y2,
        grid_index(x1, y1, w) == grid_index(x2, y2, w),
    ensures
        x1 == x2,
        y1 == y2,
{
    assert(y1 == y2) by (nonlinear_arith)
        requires
            0 <= x1 < w,
            0 <= x2 < w,
            0 <= y1,
            0 <= y2,
            y1 * w + x1 == y2 * w + x2,
    ;
}

/// A width × height grid of terrain elevations.
pub struct MapData {
    width: usize,
    height: usize,
    tiles: Vec<u8>,
}

impl MapData {
    pub closed spec fn spec_width(&self) -> nat {
        self.width as nat
    }

    pub closed spec fn spec_height(&self) -> nat {
        self.height as nat
    }

    /// The elevations, row by row.
    pub closed spec fn elevations(&self) -> Seq<u8> {
        self.tiles@
    }

    pub open spec fn wf(&self) -> bool {
        self.elevations().len() == self.spec_width() * self.spec_height()
    }

    /// The elevation of cell (x, y).
    pub open spec fn elevation(&self, x: int, y: int) -> u8 {
        self.elevations()[grid_index(x, y, self.spec_width() as int)]
    }

    /// A flat grid: every elevation is 0.
    pub fn new(width: usize, height: usize) -> (r: MapData)
        requires
            width * height <= usize::MAX,
        ensures
            r.wf(),
            r.spec_width() == width,
            r.spec_height() == height,
            forall|i: int| 0 <= i < r.elevations().len() ==> r.elevations()[i] == 0,
    {
        let n: usize = width * height;
        let mut tiles: Vec<u8> = Vec::new();
        let mut i: usize = 0;
        while i < n
            invariant
                i <= n,
                tiles@.len() == i,
                forall|j: int| 0 <= j < i ==> tiles@[j] == 0,
            decreases n - i,
        {
            tiles.push(0);
            i = i + 1;
        }
        MapData { width, height, tiles }
    }

    pub fn get_width(&self) -> (r: usize)
        ensures
            r == self.spec_width(),
    {
        self.width
    }

    pub fn get_height(&self) -> (r: usize)
        ensures
            r == self.spec_height(),
    {
        self.height
    }

    /// Sets the elevation of cell (x, y).
    pub fn set_tile(&mut self, x: usize, y: usize, value: u8)
        requires
            old(self).wf(),
            x < old(self).spec_width(),
            y < old(self).spec_height(),
        ensures
            final(self).wf(),
            final(self).spec_width() == old(self).spec_width(),
            final(self).spec_height() == old(self).spec_height(),
            final(self).elevations() == old(self).elevations().update(
                grid_index(x as int, y as int, old(self).spec_width() as int),
                value,
            ),
    {
        proof {
            lemma_grid_index_bounds(x as int, y as int, self.width as int, self.height as int);
        }
        let _len: usize = self.tiles.len();
        let i: usize = y * self.width + x;
        self.tiles.set(i, value);
    }

    /// The elevation of cell (x, y).
    pub fn get_tile(&self, x: usize, y: usize) -> (r: u8)
        requires
            self.wf(),
            x < self.spec_width(),
            y < self.spec_height(),
        ensures
            r == self.elevation(x as int, y as int),
    {
        proof {
            lemma_grid_index_bounds(x as int, y as int, self.width as int, self.height as int);
        }
        let _len: usize = self.tiles.len();
        self.tiles[y * self.width + x]
    }
}

/// Whether a map layer of tile ids can become terrain: it covers the grid and
/// none of the ids that cover it is 0 (an empty cell).
pub open spec fn layer_is_valid(width: nat, height: nat, ids: Seq<u8>) -> bool {
    &&& ids.len() >= width * height
    &&& forall|i: int| 0 <= i < width * height ==> ids[i] != 0
}

/// Terrain from a row-major layer of tile ids, as a map editor writes it: the
/// elevation of a cell is its tile id minus one. `None` when the layer is
/// shorter than the grid or holds an empty cell (id 0) inside it.
pub fn load_tiled_layer(width: usize, height: usize, ids: &Vec<u8>) -> (r: Option<MapData>)
    requires
        width * height <= usize::MAX,
    ensures
        r.is_some() <==> layer_is_valid(width as nat, height as nat, ids@),
        r matches Some(d) ==> {
            &&& d.wf()
            &&& d.spec_width() == width
            &&& d.spec_height() == height
            &&& forall|i: int| 0 <= i < width * height ==> d.elevations()[i] == ids@[i] - 1
        },
{
    let n: usize = width * height;
    if ids.len() < n {
        return None;
    }
    let mut tiles: Vec<u8> = Vec::new();
    let mut i: usize = 0;
    while i < n
        invariant
            i <= n,
            n == width * height,
            ids@.len() >= n,
            tiles@.len() == i,
            forall|j: int| 0 <= j < i ==> ids@[j] != 0 && tiles@[j] == ids@[j] - 1,
        decreases n - i,
    {
        let id: u8 = ids[i];
        if id == 0 {
            return None;
        }
        tiles.push(id - 1);
        i = i + 1;
    }
    Some(MapData { width, height, tiles })
}

} // verus!

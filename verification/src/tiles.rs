//! The decoded tile map, and the seeding of a scene from one of its
//! layers.

use vstd::prelude::*;
use vstd::arithmetic::div_mod::lemma_fundamental_div_mod_converse;
use crate::linear::{vec3_from_ints, vec3_of};
use crate::scene::Scene;
use crate::transform::Transform;

verus! {

#[derive(Debug)]
pub struct TileSet {
    pub image: Vec<u8>,
    pub columns: u32,
    pub tile_count: u32,
    pub image_size: (u32, u32),
}

#[derive(Debug)]
pub struct Object {
    pub name: String,
    pub id: u32,
    pub position: (u32, u32),
    pub size: (u32, u32),
}

#[derive(Debug)]
pub struct TileLayer {
    pub data: Vec<u32>,
    pub id: u32,
    pub name: String,
    pub size: (u32, u32),
}

#[derive(Debug)]
pub enum Layers {
    ObjectGroup { id: u32, name: String, visible: bool, objects: Vec<Object> },
    /// `data` holds one sprite index for each cell, row by row, the top
    /// row first.
    TileLayer { id: u32, name: String, visible: bool, data: Vec<i32> },
}

#[derive(Debug)]
pub struct TileMap {
    /// Width and height, in cells.
    pub size: (u32, u32),
    /// Width and height of a cell.
    pub tile_size: (u32, u32),
    pub layers: Vec<Layers>,
    pub tileset: TileSet,
}

/// The largest number that a vector component holds exactly together
/// with all smaller ones.
pub const EXACT_MAX: u32 = 0x100_0000;

/// The sprite index for the tile number `gid` of a map file: `gid` cut to
/// 32 bits, less one, so that the empty tile 0 becomes -1.
pub fn tile_index(gid: i64) -> (r: i32)
    requires
        gid as i32 != i32::MIN,
    ensures
        r == (gid as i32) - 1,
{
    let cut = #[verifier::truncate]
    (gid as i32);
    cut - 1
}

/// The sprite indices for the tile numbers of one layer of a map file.
pub fn tile_indices(gids: &Vec<i64>) -> (r: Vec<i32>)
    requires
        forall|i: int| 0 <= i < gids.len() ==> #[trigger] gids[i] as i32 != i32::MIN,
    ensures
        r.len() == gids.len(),
        forall|i: int| 0 <= i < gids.len() ==> #[trigger] r[i] == (gids[i] as i32) - 1,
{
    let n = gids.len();
    let mut out: Vec<i32> = Vec::with_capacity(n);
    let mut i: usize = 0;
    while i < n
        invariant
            i <= n,
            n == gids.len(),
            out.len() == i,
            forall|j: int| 0 <= j < gids.len() ==> #[trigger] gids[j] as i32 != i32::MIN,
            forall|j: int| 0 <= j < i ==> #[trigger] out[j] == (gids[j] as i32) - 1,
        decreases n - i,
    {
        out.push(tile_index(gids[i]));
        i += 1;
    }
    out
}

/// The rows of `data` in reverse order: cell `k` of the result is the
/// cell of `data` in the same column, as many rows from the bottom as `k`
/// is from the top.
pub open spec fn reversed_rows(data: Seq<i32>, width: int, height: int) -> Seq<i32> {
    Seq::new(
        (width * height) as nat,
        |k: int| data[(height - 1 - k / width) * width + k % width],
    )
}

proof fn lemma_cell(major: int, minor: int, stride: int)
    requires
        0 <= minor < stride,
        0 <= major,
    ensures
        (major * stride + minor) / stride == major,
        (major * stride + minor) % stride == minor,
        0 <= major * stride,
{
    lemma_fundamental_div_mod_converse(major * stride + minor, stride, major, minor);
    assert(0 <= major * stride) by (nonlinear_arith)
        requires
            0 <= major,
            0 < stride,
    ;
}

proof fn lemma_cell_bound(major: int, minor: int, stride: int, count: int)
    requires
        0 <= minor < stride,
        0 <= major < count,
    ensures
        0 <= major * stride + minor < count * stride,
        major * stride + stride <= count * stride,
{
    assert(major * stride + stride <= count * stride && 0 <= major * stride)
        by (nonlinear_arith)
        requires
            0 <= major < count,
            0 < stride,
    ;
}

/// Reverses the order of the rows of a grid that is `width` cells wide
/// and `height` cells high.
pub fn rows_reversed(data: &Vec<i32>, width: u32, height: u32) -> (r: Vec<i32>)
    requires
        width > 0,
        width * height <= u32::MAX,
        width * height <= data.len(),
    ensures
        r@ == reversed_rows(data@, width as int, height as int),
{
    let w = width as usize;
    let h = height as usize;
    let mut out: Vec<i32> = Vec::new();
    let mut row: usize = 0;
    while row < h
        invariant
            w == width,
            h == height,
            w > 0,
            w * h <= u32::MAX,
            w * h <= data.len(),
            row <= h,
            out.len() == row * w,
            forall|k: int|
                0 <= k < out.len() ==> #[trigger] out[k] == data[(h - 1 - k / (w as int)) * w + k % (
                w as int)],
        decreases h - row,
    {
        let from = h - 1 - row;
        proof {
            lemma_cell_bound(from as int, 0, w as int, h as int);
            lemma_cell_bound(row as int, 0, w as int, h as int);
        }
        let start = from * w;
        let mut col: usize = 0;
        while col < w
            invariant
                w == width,
                h == height,
                w > 0,
                w * h <= u32::MAX,
                w * h <= data.len(),
                row < h,
                from == h - 1 - row,
                start == from * w,
                start + w <= w * h,
                row * w + w <= w * h,
                col <= w,
                out.len() == row * w + col,
                forall|k: int|
                    0 <= k < out.len() ==> #[trigger] out[k] == data[(h - 1 - k / (w as int)) * w
                        + k % (w as int)],
            decreases w - col,
        {
            proof {
                lemma_cell(row as int, col as int, w as int);
            }
            out.push(data[start + col]);
            col += 1;
        }
        proof {
            assert((row + 1) * w == row * w + w) by (nonlinear_arith);
        }
        row += 1;
    }
    proof {
        assert(h * w == w * h) by (nonlinear_arith);
        assert(out@ =~= reversed_rows(data@, width as int, height as int));
    }
    out
}

/// The digit `d` as a character.
pub open spec fn digit(d: int) -> char {
    (48 + d) as char
}

/// The decimal digits of the natural number `n`, without leading zeros.
pub open spec fn digits(n: nat) -> Seq<char>
    decreases n,
{
    if n < 10 {
        seq![digit(n as int)]
    } else {
        digits(n / 10).push(digit((n % 10) as int))
    }
}

/// `n` in decimal, with a minus sign where it is negative.
pub open spec fn decimal_of(n: int) -> Seq<char> {
    if n < 0 {
        seq!['-'] + digits((-n) as nat)
    } else {
        digits(n as nat)
    }
}

/// Formats `n` with `format!("{}", ..)`, which writes an `i32` in decimal.
#[verifier::external_body]
pub(crate) fn decimal(n: i32) -> (s: String)
    ensures
        s@ == decimal_of(n as int),
{
    format!("{}", n)
}

impl TileMap {
    /// The sprite indices of layer `id` with the bottom row first; none
    /// where the layer is no tile layer.
    pub open spec fn tiles(self, id: int) -> Seq<i32> {
        match self.layers[id] {
            Layers::TileLayer { data, .. } => reversed_rows(
                data@,
                self.size.0 as int,
                self.size.1 as int,
            ),
            Layers::ObjectGroup { .. } => Seq::empty(),
        }
    }

    /// Layer `id` exists; the sides of the map and of a cell are numbers
    /// that a vector component holds exactly; the cells and their labels
    /// can be counted in 32 bits; and where it is a tile layer, the map
    /// is at least one cell wide and the layer has a sprite index for
    /// every cell.
    pub open spec fn seedable(self, id: int) -> bool {
        let w = self.size.0 as int;
        let h = self.size.1 as int;
        &&& 0 <= id < self.layers.len()
        &&& w <= EXACT_MAX
        &&& h <= EXACT_MAX
        &&& self.tile_size.0 <= EXACT_MAX
        &&& self.tile_size.1 <= EXACT_MAX
        &&& w * h <= i32::MAX
        &&& h * h + w <= i32::MAX
        &&& match self.layers[id] {
            Layers::TileLayer { data, .. } => w > 0 && w * h <= data.len(),
            Layers::ObjectGroup { .. } => true,
        }
    }

    /// `t` is the entity seeded for the cell in column `x` and row `y` of
    /// layer `id`: placed at twice the cell's size times its column and
    /// row, unturned, of unit scale, labelled with `x + y * height`. Where
    /// the layer has tiles, it shows the tile of its cell, counted from
    /// the bottom row, and is flipped; where it has none, it shows sprite
    /// 0 unflipped.
    pub open spec fn is_cell(self, id: int, x: int, y: int, t: Transform) -> bool {
        let tiles = self.tiles(id);
        &&& t.position == vec3_of(x * self.tile_size.0 * 2, y * self.tile_size.1 * 2, 0)
        &&& t.rotation == vec3_of(0, 0, 0)
        &&& t.scale == vec3_of(1, 1, 1)
        &&& t.label is Some
        &&& t.label->0@ == decimal_of(x + y * self.size.1)
        &&& t.index == if tiles.len() > 0 {
            tiles[x + y * self.size.0]
        } else {
            0
        }
        &&& t.flip_x == if tiles.len() > 0 {
            1i32
        } else {
            0i32
        }
    }

    /// Whether layer `id` can be seeded.
    pub fn can_seed(&self, id: usize) -> (r: bool)
        ensures
            r == self.seedable(id as int),
    {
        if id >= self.layers.len() {
            return false;
        }
        let w = self.size.0 as u64;
        let h = self.size.1 as u64;
        let tw = self.tile_size.0 as u64;
        let th = self.tile_size.1 as u64;
        let limit = EXACT_MAX as u64;
        if w > limit || h > limit || tw > limit || th > limit {
            return false;
        }
        assert(w * h <= 0x100_0000 * 0x100_0000 && h * h <= 0x100_0000 * 0x100_0000)
            by (nonlinear_arith)
            requires
                w <= 0x100_0000,
                h <= 0x100_0000,
        ;
        let most = i32::MAX as u64;
        if w * h > most || h * h + w > most {
            return false;
        }
        match &self.layers[id] {
            Layers::TileLayer { data, .. } => w > 0 && w * h <= data.len() as u64,
            Layers::ObjectGroup { .. } => true,
        }
    }
}

/// The place, among the entities seeded for a layer, of the cell in column
/// `x` and row `y`: column after column, each from the bottom row up.
pub open spec fn cell_place(x: int, y: int, height: int) -> int {
    x * height + y
}

/// Seeds `scene` with one entity for each cell of layer `id` of `map`,
/// column after column. Returns their slots in that order.
pub fn seed_layer(scene: &mut Scene, map: &TileMap, id: usize) -> (ids: Vec<usize>)
    requires
        old(scene).wf(),
        map.seedable(id as int),
    ensures
        final(scene).wf(),
        final(scene).extends(old(scene)),
        final(scene).len() == old(scene).len() + map.size.0 * map.size.1,
        ids.len() == map.size.0 * map.size.1,
        forall|k: int| 0 <= k < ids.len() ==> #[trigger] ids[k] == old(scene).len() + k,
        forall|x: int, y: int|
            0 <= x < map.size.0 && 0 <= y < map.size.1 ==> map.is_cell(
                id as int,
                x,
                y,
                final(scene).node(old(scene).len() + #[trigger] cell_place(x, y, map.size.1 as int)),
            ),
{
    let w = map.size.0;
    let h = map.size.1;
    let tw = map.tile_size.0;
    let th = map.tile_size.1;
    let tiles: Vec<i32> = match &map.layers[id] {
        Layers::TileLayer { data, .. } => rows_reversed(data, w, h),
        Layers::ObjectGroup { .. } => Vec::new(),
    };
    assert(tiles@ == map.tiles(id as int));
    let ghost base = old(scene).len() as int;
    let mut ids: Vec<usize> = Vec::new();
    let mut x: u32 = 0;
    while x < w
        invariant
            w == map.size.0,
            h == map.size.1,
            tw == map.tile_size.0,
            th == map.tile_size.1,
            map.seedable(id as int),
            tiles@ == map.tiles(id as int),
            base == old(scene).len(),
            x <= w,
            scene.wf(),
            scene.extends(old(scene)),
            scene.len() == base + x * h,
            ids.len() == x * h,
            forall|k: int| 0 <= k < ids.len() ==> #[trigger] ids[k] == base + k,
            forall|i: int, j: int|
                0 <= i < x && 0 <= j < h ==> map.is_cell(
                    id as int,
                    i,
                    j,
                    scene.node(base + #[trigger] cell_place(i, j, h as int)),
                ),
        decreases w - x,
    {
        let mut y: u32 = 0;
        while y < h
            invariant
                w == map.size.0,
                h == map.size.1,
                tw == map.tile_size.0,
                th == map.tile_size.1,
                map.seedable(id as int),
                tiles@ == map.tiles(id as int),
                base == old(scene).len(),
                x < w,
                y <= h,
                scene.wf(),
                scene.extends(old(scene)),
                scene.len() == base + x * h + y,
                ids.len() == x * h + y,
                forall|k: int| 0 <= k < ids.len() ==> #[trigger] ids[k] == base + k,
                forall|i: int, j: int|
                    0 <= i < x && 0 <= j < h ==> map.is_cell(
                        id as int,
                        i,
                        j,
                        scene.node(base + #[trigger] cell_place(i, j, h as int)),
                    ),
                forall|j: int|
                    0 <= j < y ==> map.is_cell(
                        id as int,
                        x as int,
                        j,
                        scene.node(base + #[trigger] cell_place(x as int, j, h as int)),
                    ),
            decreases h - y,
        {
            proof {
                lemma_cell_bound(y as int, x as int, w as int, h as int);
                lemma_cell_bound(y as int, 0, h as int, h as int);
                assert(x * tw <= 0x100_0000 * 0x100_0000 && y * th <= 0x100_0000 * 0x100_0000 && y
                    * h <= h * h) by (nonlinear_arith)
                    requires
                        0 <= x < w <= 0x100_0000,
                        0 <= y < h <= 0x100_0000,
                        0 <= tw <= 0x100_0000,
                        0 <= th <= 0x100_0000,
                ;
                assert(w * h == h * w && y * w + x < h * w) by (nonlinear_arith)
                    requires
                        0 <= x < w,
                        0 <= y < h,
                ;
            }
            let px = (x as u64) * (tw as u64) * 2;
            let py = (y as u64) * (th as u64) * 2;
            let number = (x as u64) + (y as u64) * (h as u64);
            let mut t = Transform::new();
            t.position = vec3_from_ints(px as i128, py as i128, 0);
            t.label = Some(decimal(number as i32));
            if tiles.len() > 0 {
                let at = (x as u64) + (y as u64) * (w as u64);
                t.index = tiles[at as usize];
                t.flip_x = 1;
            }
            let ghost before = *scene;
            let slot = scene.add(t);
            ids.push(slot);
            proof {
                scene.lemma_extends_twice(&before, old(scene));
                assert(slot == base + cell_place(x as int, y as int, h as int));
                assert(map.is_cell(id as int, x as int, y as int, scene.node(slot as int)));
                assert forall|i: int, j: int| 0 <= i < x && 0 <= j < h implies map.is_cell(
                    id as int,
                    i,
                    j,
                    scene.node(base + #[trigger] cell_place(i, j, h as int)),
                ) by {
                    lemma_cell_bound(i as int, j as int, h as int, x as int);
                    assert(scene.node(base + cell_place(i, j, h as int)) == before.node(
                        base + cell_place(i, j, h as int),
                    ));
                }
                assert forall|j: int| 0 <= j < y + 1 implies map.is_cell(
                    id as int,
                    x as int,
                    j,
                    scene.node(base + #[trigger] cell_place(x as int, j, h as int)),
                ) by {
                    if j < y {
                        assert(scene.node(base + cell_place(x as int, j, h as int)) == before.node(
                            base + cell_place(x as int, j, h as int),
                        ));
                    }
                }
            }
            y += 1;
        }
        proof {
            assert((x + 1) * h == x * h + h) by (nonlinear_arith);
        }
        x += 1;
    }
    ids
}

} // verus!

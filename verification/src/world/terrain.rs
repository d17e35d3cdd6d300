use crate::dice::roll_between;
use rand::rngs::ThreadRng;
use rand::thread_rng;
use vstd::prelude::*;

verus! {

/// Number of columns of the map.
pub const TERRAIN_WIDTH: usize = 100;

/// Number of rows of the map.
pub const TERRAIN_HEIGHT: usize = 50;

/// Number of cells of the map.
pub const TERRAIN_SIZE: usize = 5000;

/// Manhattan radius of the forest diamond.
pub const FOREST_RADIUS: usize = 10;

/// Euclidean radius of the pond disc.
pub const POND_RADIUS: usize = 15;

/// How many random pond centres are tried before a fixed one is taken.
pub const PLACEMENT_ATTEMPTS: usize = 10000;

/// What one cell of the map is made of.
#[derive(Copy, Clone, PartialEq, Eq, Structural, Debug)]
pub enum TileType {
    Grass,
    Tree,
    Water,
    Mountain,
    Sand,
    Castle,
    Chest,
    SpiderWeb,
    Heart,
}

/// The tile grid, row by row, and the flag that keeps a second chest from appearing.
#[derive(Clone, Debug)]
pub struct Terrain {
    pub tiles: [TileType; TERRAIN_SIZE],
    pub chest_found: bool,
}

/// The mathematical content of a [`Terrain`].
pub struct TerrainView {
    pub tiles: Seq<TileType>,
    pub chest_found: bool,
}

impl View for Terrain {
    type V = TerrainView;

    open spec fn view(&self) -> TerrainView {
        TerrainView { tiles: self.tiles@, chest_found: self.chest_found }
    }
}

impl TerrainView {
    /// The tile of cell `(x, y)`.
    pub open spec fn at(self, x: int, y: int) -> TileType {
        self.tiles[cell_index(x, y)]
    }

    /// Whether some cell of the map holds `tile`.
    pub open spec fn has_tile(self, tile: TileType) -> bool {
        exists|x: int, y: int| #![trigger cell_index(x, y)] in_grid(x, y) && self.at(x, y) == tile
    }

    /// Whether every cell is what the finished map has there, for a forest around `(fx, fy)`
    /// and a pond around `(px, py)`.
    pub open spec fn laid_out(self, fx: int, fy: int, px: int, py: int) -> bool {
        forall|x: int, y: int|
            #![trigger cell_index(x, y)]
            in_grid(x, y) ==> self.at(x, y) == generated_tile(fx, fy, px, py, x, y)
    }

    /// Whether this is a finished map: laid out for a forest and a pond that keep their
    /// margins and share no cell.
    pub open spec fn is_generated(self) -> bool {
        exists|fx: int, fy: int, px: int, py: int|
            #![trigger self.laid_out(fx, fy, px, py)]
            placement_ok(fx, fy, px, py) && self.laid_out(fx, fy, px, py)
    }

    /// Whether the outermost ring of the map is all mountain.
    pub open spec fn border_is_mountain(self) -> bool {
        forall|x: int, y: int|
            #![trigger cell_index(x, y)]
            in_grid(x, y) && on_border(x, y) ==> self.at(x, y) == TileType::Mountain
    }

    /// Whether the castle stands at `(cx, cy)` and nowhere else.
    pub open spec fn only_castle_at(self, cx: int, cy: int) -> bool {
        &&& in_grid(cx, cy)
        &&& self.at(cx, cy) == TileType::Castle
        &&& forall|x: int, y: int|
            #![trigger cell_index(x, y)]
            in_grid(x, y) && self.at(x, y) == TileType::Castle ==> x == cx && y == cy
    }

    /// Whether the map holds exactly one castle.
    pub open spec fn has_one_castle(self) -> bool {
        exists|cx: int, cy: int| #![trigger cell_index(cx, cy)] self.only_castle_at(cx, cy)
    }

    /// Whether the trees are exactly the cells of the diamond around `(fx, fy)`, and all
    /// water lies in the disc around `(px, py)` and outside that diamond.
    pub open spec fn forest_and_pond_apart(self, fx: int, fy: int, px: int, py: int) -> bool {
        forall|x: int, y: int|
            #![trigger cell_index(x, y)]
            in_grid(x, y) ==> {
                &&& self.at(x, y) == TileType::Tree <==> in_forest(fx, fy, x, y)
                &&& self.at(x, y) == TileType::Water ==> in_pond(px, py, x, y) && !in_forest(
                    fx,
                    fy,
                    x,
                    y,
                )
            }
    }

    /// Whether the trees are exactly the cells of some diamond, and all water lies in some
    /// disc that shares no cell with that diamond.
    pub open spec fn forest_apart_from_pond(self) -> bool {
        exists|fx: int, fy: int, px: int, py: int|
            #![trigger self.forest_and_pond_apart(fx, fy, px, py)]
            !shapes_overlap(fx, fy, px, py) && self.forest_and_pond_apart(fx, fy, px, py)
    }

    /// This terrain with the tile of cell `(x, y)` replaced.
    pub open spec fn with_tile(self, x: int, y: int, tile: TileType) -> TerrainView {
        TerrainView { tiles: self.tiles.update(cell_index(x, y), tile), chest_found: self.chest_found }
    }
}

/// Position of cell `(x, y)` in the row-major tile array.
pub open spec fn cell_index(x: int, y: int) -> int {
    y * 100 + x
}

/// Whether `(x, y)` names a cell of the map.
pub open spec fn in_grid(x: int, y: int) -> bool {
    0 <= x < 100 && 0 <= y < 50
}

/// Whether `(x, y)` lies on the outermost ring of the map.
pub open spec fn on_border(x: int, y: int) -> bool {
    x == 0 || y == 0 || x == 99 || y == 49
}

/// The distance between two coordinates on one axis.
pub open spec fn gap(a: int, b: int) -> int {
    if a >= b {
        a - b
    } else {
        b - a
    }
}

/// The squared Euclidean distance between `(cx, cy)` and `(x, y)`.
pub open spec fn squared_distance(cx: int, cy: int, x: int, y: int) -> int {
    (cx - x) * (cx - x) + (cy - y) * (cy - y)
}

/// Whether `(x, y)` lies in the diamond of Manhattan radius 10 around `(cx, cy)`.
pub open spec fn in_forest(cx: int, cy: int, x: int, y: int) -> bool {
    gap(cx, x) + gap(cy, y) <= 10
}

/// Whether `(x, y)` lies in the disc of radius 15 around `(cx, cy)`.
pub open spec fn in_pond(cx: int, cy: int, x: int, y: int) -> bool {
    squared_distance(cx, cy, x, y) <= 225
}

/// Whether `(x, y)` lies just outside the pond: farther than 15 from its centre, at most 16.
pub open spec fn in_beach_ring(cx: int, cy: int, x: int, y: int) -> bool {
    225 < squared_distance(cx, cy, x, y) <= 256
}

/// Whether `(x, y)` lies in the square of half-width `r` around `(cx, cy)`.
pub open spec fn within(cx: int, cy: int, x: int, y: int, r: int) -> bool {
    gap(cx, x) <= r && gap(cy, y) <= r
}

/// A forest centre that keeps the diamond two tiles away from the edge of the map.
pub open spec fn forest_center_ok(cx: int, cy: int) -> bool {
    12 <= cx <= 88 && 12 <= cy <= 38
}

/// A pond centre that keeps the disc four tiles away from the edge of the map.
pub open spec fn pond_center_ok(cx: int, cy: int) -> bool {
    19 <= cx <= 81 && 19 <= cy <= 31
}

/// Whether some cell belongs both to the forest around `(fx, fy)` and to the pond around
/// `(px, py)`.
pub open spec fn shapes_overlap(fx: int, fy: int, px: int, py: int) -> bool {
    exists|x: int, y: int| shared_cell(fx, fy, px, py, x, y)
}

/// Whether `(x, y)` is a cell both of the forest around `(fx, fy)` and of the pond around
/// `(px, py)`.
pub open spec fn shared_cell(fx: int, fy: int, px: int, py: int, x: int, y: int) -> bool {
    in_grid(x, y) && in_pond(px, py, x, y) && in_forest(fx, fy, x, y)
}

/// Centres that keep their margins, for a forest and a pond that share no cell.
pub open spec fn placement_ok(fx: int, fy: int, px: int, py: int) -> bool {
    forest_center_ok(fx, fy) && pond_center_ok(px, py) && !shapes_overlap(fx, fy, px, py)
}

/// One step of the map's construction: a rule that is applied to every cell.
pub enum Pass {
    /// Mountains on the outermost ring.
    Border,
    /// Trees on the diamond around the centre.
    Forest { cx: int, cy: int },
    /// Water on the grass of the disc around the centre.
    Pond { cx: int, cy: int },
    /// The castle at the centre, and grass on its eight neighbours.
    Castle { cx: int, cy: int },
    /// Sand on the cells that touch the grass round the castle.
    Apron { cx: int, cy: int },
    /// Sand on the grass and water of the ring round the pond.
    Ring { cx: int, cy: int },
}

/// The tile that `pass` leaves at `(x, y)` where it found `before`.
pub open spec fn stamp(pass: Pass, x: int, y: int, before: TileType) -> TileType {
    match pass {
        Pass::Border => if on_border(x, y) {
            TileType::Mountain
        } else {
            before
        },
        Pass::Forest { cx, cy } => if in_forest(cx, cy, x, y) {
            TileType::Tree
        } else {
            before
        },
        Pass::Pond { cx, cy } => if in_pond(cx, cy, x, y) && before == TileType::Grass {
            TileType::Water
        } else {
            before
        },
        Pass::Castle { cx, cy } => if x == cx && y == cy {
            TileType::Castle
        } else if within(cx, cy, x, y, 1) {
            TileType::Grass
        } else {
            before
        },
        Pass::Apron { cx, cy } => if within(cx, cy, x, y, 2) && !within(cx, cy, x, y, 1) {
            TileType::Sand
        } else {
            before
        },
        Pass::Ring { cx, cy } => if in_beach_ring(cx, cy, x, y) && (before == TileType::Grass
            || before == TileType::Water) {
            TileType::Sand
        } else {
            before
        },
    }
}

/// `cur` is `orig` with `pass` applied to the cells that come before `(col, row)` in
/// row-major order, and to no others.
pub open spec fn swept(
    cur: Seq<TileType>,
    orig: Seq<TileType>,
    pass: Pass,
    row: int,
    col: int,
) -> bool {
    forall|x: int, y: int|
        #![trigger cell_index(x, y)]
        in_grid(x, y) ==> cur[cell_index(x, y)] == if comes_before(x, y, row, col) {
            stamp(pass, x, y, orig[cell_index(x, y)])
        } else {
            orig[cell_index(x, y)]
        }
}

/// `cur` is `orig` with `pass` applied to every cell.
pub open spec fn stamped(cur: Seq<TileType>, orig: Seq<TileType>, pass: Pass) -> bool {
    forall|x: int, y: int|
        #![trigger cell_index(x, y)]
        in_grid(x, y) ==> cur[cell_index(x, y)] == stamp(pass, x, y, orig[cell_index(x, y)])
}

/// The tile that the finished map has at `(x, y)`, for a forest around `(fx, fy)` and a pond
/// around `(px, py)`.
pub open spec fn generated_tile(fx: int, fy: int, px: int, py: int, x: int, y: int) -> TileType {
    if on_border(x, y) {
        TileType::Mountain
    } else if x == px && y == py {
        TileType::Castle
    } else if within(px, py, x, y, 1) {
        TileType::Grass
    } else if within(px, py, x, y, 2) {
        TileType::Sand
    } else if in_forest(fx, fy, x, y) {
        TileType::Tree
    } else if in_pond(px, py, x, y) {
        TileType::Water
    } else if in_beach_ring(px, py, x, y) {
        TileType::Sand
    } else {
        TileType::Grass
    }
}

/// The tile that the six passes leave at `(x, y)`, one after the other, on a map of grass.
pub open spec fn composed_tile(fx: int, fy: int, px: int, py: int, x: int, y: int) -> TileType {
    let bordered = stamp(Pass::Border, x, y, TileType::Grass);
    let wooded = stamp(Pass::Forest { cx: fx, cy: fy }, x, y, bordered);
    let flooded = stamp(Pass::Pond { cx: px, cy: py }, x, y, wooded);
    let settled = stamp(Pass::Castle { cx: px, cy: py }, x, y, flooded);
    let aproned = stamp(Pass::Apron { cx: px, cy: py }, x, y, settled);
    stamp(Pass::Ring { cx: px, cy: py }, x, y, aproned)
}

/// The distance between two coordinates on one axis.
pub fn axis_gap(a: usize, b: usize) -> (d: usize)
    ensures
        d == gap(a as int, b as int),
{
    if a >= b {
        a - b
    } else {
        b - a
    }
}

/// The squared Euclidean distance between two cells of the map.
pub fn cell_distance_squared(cx: usize, cy: usize, x: usize, y: usize) -> (d: usize)
    requires
        in_grid(cx as int, cy as int),
        in_grid(x as int, y as int),
    ensures
        d == squared_distance(cx as int, cy as int, x as int, y as int),
{
    let dx: usize = axis_gap(cx, x);
    let dy: usize = axis_gap(cy, y);
    assert(dx * dx <= 9801 && dy * dy <= 2401 && dx * dx == (cx - x) * (cx - x) && dy * dy == (cy
        - y) * (cy - y)) by (nonlinear_arith)
        requires
            dx <= 99,
            dy <= 49,
            dx == cx - x || dx == x - cx,
            dy == cy - y || dy == y - cy,
    ;
    dx * dx + dy * dy
}

impl Terrain {
    /// The tile of cell `(x, y)`.
    pub open spec fn at(self, x: int, y: int) -> TileType {
        self.tiles@[cell_index(x, y)]
    }

    /// Generates a map: a mountain border, a forest and a pond at random places that share
    /// no cell, and in the middle of the pond the castle on its island, with a beach round
    /// both.
    pub fn new() -> (t: Terrain)
        ensures
            t@.is_generated(),
            t@.border_is_mountain(),
            t@.has_one_castle(),
            t@.forest_apart_from_pond(),
            !t.chest_found,
    {
        let mut rng: ThreadRng = thread_rng();
        let fx: usize = roll_between(
            &mut rng,
            FOREST_RADIUS + 2,
            TERRAIN_WIDTH - FOREST_RADIUS - 2,
        );
        let fy: usize = roll_between(
            &mut rng,
            FOREST_RADIUS + 2,
            TERRAIN_HEIGHT - FOREST_RADIUS - 2,
        );
        let (px, py) = pick_pond_center(&mut rng, fx, fy);
        let t = Terrain::lay_out(fx, fy, px, py);
        proof {
            assert(t@.laid_out(fx as int, fy as int, px as int, py as int));
            lemma_generated_map(t@);
        }
        t
    }

    /// The map for a forest around `(fx, fy)` and a pond around `(px, py)`, where those
    /// centres keep their margins and the two shapes share no cell.
    pub fn from_centers(fx: usize, fy: usize, px: usize, py: usize) -> (made: Option<Terrain>)
        ensures
            made.is_some() == placement_ok(fx as int, fy as int, px as int, py as int),
            made matches Some(t) ==> t@.laid_out(fx as int, fy as int, px as int, py as int)
                && !t.chest_found,
    {
        if fx < FOREST_RADIUS + 2 || fx > TERRAIN_WIDTH - FOREST_RADIUS - 2 || fy < FOREST_RADIUS
            + 2 || fy > TERRAIN_HEIGHT - FOREST_RADIUS - 2 {
            return None;
        }
        if px < POND_RADIUS + 4 || px > TERRAIN_WIDTH - POND_RADIUS - 4 || py < POND_RADIUS + 4
            || py > TERRAIN_HEIGHT - POND_RADIUS - 4 {
            return None;
        }
        if overlaps(fx, fy, px, py) {
            return None;
        }
        Some(Terrain::lay_out(fx, fy, px, py))
    }

    /// Runs the six passes on a map of grass.
    fn lay_out(fx: usize, fy: usize, px: usize, py: usize) -> (t: Terrain)
        requires
            forest_center_ok(fx as int, fy as int),
            pond_center_ok(px as int, py as int),
        ensures
            t@.laid_out(fx as int, fy as int, px as int, py as int),
            !t.chest_found,
    {
        let mut t = Terrain::blank();
        let ghost blank = t.tiles@;
        t.raise_border();
        let ghost bordered = t.tiles@;
        t.plant_forest(fx, fy);
        let ghost wooded = t.tiles@;
        t.flood_pond(px, py);
        let ghost flooded = t.tiles@;
        t.place_castle(px, py);
        let ghost settled = t.tiles@;
        proof {
            assert(settled[cell_index(px as int, py as int)] == TileType::Castle);
            assert(island_in_place(settled, px as int, py as int));
        }
        t.lay_apron(px, py);
        let ghost aproned = t.tiles@;
        t.lay_beach_ring(px, py);
        proof {
            assert forall|x: int, y: int| #![trigger cell_index(x, y)] in_grid(x, y) implies t@.at(
                x,
                y,
            ) == generated_tile(fx as int, fy as int, px as int, py as int, x, y) by {
                assert(t.tiles@[cell_index(x, y)] == composed_tile(
                    fx as int,
                    fy as int,
                    px as int,
                    py as int,
                    x,
                    y,
                ));
                lemma_composed_tile(fx as int, fy as int, px as int, py as int, x, y);
            }
        }
        t
    }

    /// A map of grass only, with no chest found yet.
    pub fn blank() -> (t: Terrain)
        ensures
            forall|x: int, y: int|
                #![trigger cell_index(x, y)]
                in_grid(x, y) ==> t.at(x, y) == TileType::Grass,
            !t.chest_found,
    {
        Terrain { tiles: [TileType::Grass;TERRAIN_SIZE], chest_found: false }
    }

    /// The tile of cell `(x, y)`.
    pub fn tile(&self, x: usize, y: usize) -> (tile: TileType)
        requires
            in_grid(x as int, y as int),
        ensures
            tile == self.at(x as int, y as int),
    {
        self.tiles[y * TERRAIN_WIDTH + x]
    }

    /// Replaces the tile of cell `(x, y)` where that cell exists, and does nothing where it
    /// does not.
    pub fn set_tile_if_in_bounds(&mut self, x: usize, y: usize, tile: TileType)
        ensures
            final(self)@ == if in_grid(x as int, y as int) {
                old(self)@.with_tile(x as int, y as int, tile)
            } else {
                old(self)@
            },
    {
        if x < TERRAIN_WIDTH && y < TERRAIN_HEIGHT {
            self.tiles[y * TERRAIN_WIDTH + x] = tile;
        }
    }

    /// Applies a pass to cell `(x, y)`, the next one of the sweep, by writing `tile` there.
    fn stamp_cell(
        &mut self,
        x: usize,
        y: usize,
        tile: TileType,
        Ghost(orig): Ghost<Seq<TileType>>,
        Ghost(pass): Ghost<Pass>,
    )
        requires
            in_grid(x as int, y as int),
            swept(old(self).tiles@, orig, pass, y as int, x as int),
            tile == stamp(pass, x as int, y as int, orig[cell_index(x as int, y as int)]),
        ensures
            swept(final(self).tiles@, orig, pass, y as int, x + 1),
            final(self).chest_found == old(self).chest_found,
    {
        self.tiles[y * TERRAIN_WIDTH + x] = tile;
        assert forall|x2: int, y2: int| #![trigger cell_index(x2, y2)] in_grid(x2, y2) implies self.tiles@[cell_index(
            x2,
            y2,
        )] == if comes_before(x2, y2, y as int, x + 1) {
            stamp(pass, x2, y2, orig[cell_index(x2, y2)])
        } else {
            orig[cell_index(x2, y2)]
        } by {
            if x2 == x && y2 == y {
            } else {
                assert(cell_index(x2, y2) != cell_index(x as int, y as int));
            }
        }
    }

    /// Puts mountains on the outermost ring of the map.
    fn raise_border(&mut self)
        ensures
            stamped(final(self).tiles@, old(self).tiles@, Pass::Border),
            final(self).chest_found == old(self).chest_found,
    {
        let ghost orig = self.tiles@;
        let ghost flag = self.chest_found;
        for y in 0..TERRAIN_HEIGHT
            invariant
                swept(self.tiles@, orig, Pass::Border, y as int, 0),
                self.chest_found == flag,
        {
            for x in 0..TERRAIN_WIDTH
                invariant
                    y < TERRAIN_HEIGHT,
                    swept(self.tiles@, orig, Pass::Border, y as int, x as int),
                    self.chest_found == flag,
            {
                if x == 0 || y == 0 || x == TERRAIN_WIDTH - 1 || y == TERRAIN_HEIGHT - 1 {
                    self.stamp_cell(x, y, TileType::Mountain, Ghost(orig), Ghost(Pass::Border));
                } else {
                    proof {
                        lemma_sweep_skips(self.tiles@, orig, Pass::Border, y as int, x as int, y as int, x + 1);
                    }
                }
            }
            proof {
                lemma_sweep_skips(self.tiles@, orig, Pass::Border, y as int, 100, y + 1, 0);
            }
        }
    }

    /// Plants the forest: trees on every cell of the diamond around `(cx, cy)`.
    fn plant_forest(&mut self, cx: usize, cy: usize)
        requires
            in_grid(cx as int, cy as int),
        ensures
            stamped(
                final(self).tiles@,
                old(self).tiles@,
                Pass::Forest { cx: cx as int, cy: cy as int },
            ),
            final(self).chest_found == old(self).chest_found,
    {
        let ghost orig = self.tiles@;
        let ghost flag = self.chest_found;
        let ghost pass = Pass::Forest { cx: cx as int, cy: cy as int };
        for y in 0..TERRAIN_HEIGHT
            invariant
                in_grid(cx as int, cy as int),
                pass == (Pass::Forest { cx: cx as int, cy: cy as int }),
                swept(self.tiles@, orig, pass, y as int, 0),
                self.chest_found == flag,
        {
            for x in 0..TERRAIN_WIDTH
                invariant
                    y < TERRAIN_HEIGHT,
                    in_grid(cx as int, cy as int),
                    pass == (Pass::Forest { cx: cx as int, cy: cy as int }),
                    swept(self.tiles@, orig, pass, y as int, x as int),
                    self.chest_found == flag,
            {
                let dx: usize = axis_gap(cx, x);
                let dy: usize = axis_gap(cy, y);
                if dx + dy <= FOREST_RADIUS {
                    self.stamp_cell(x, y, TileType::Tree, Ghost(orig), Ghost(pass));
                } else {
                    proof {
                        lemma_sweep_skips(self.tiles@, orig, pass, y as int, x as int, y as int, x + 1);
                    }
                }
            }
            proof {
                lemma_sweep_skips(self.tiles@, orig, pass, y as int, 100, y + 1, 0);
            }
        }
    }

    /// Floods the pond: water on every grass cell of the disc around `(cx, cy)`.
    fn flood_pond(&mut self, cx: usize, cy: usize)
        requires
            in_grid(cx as int, cy as int),
        ensures
            stamped(
                final(self).tiles@,
                old(self).tiles@,
                Pass::Pond { cx: cx as int, cy: cy as int },
            ),
            final(self).chest_found == old(self).chest_found,
    {
        let ghost orig = self.tiles@;
        let ghost flag = self.chest_found;
        let ghost pass = Pass::Pond { cx: cx as int, cy: cy as int };
        for y in 0..TERRAIN_HEIGHT
            invariant
                in_grid(cx as int, cy as int),
                pass == (Pass::Pond { cx: cx as int, cy: cy as int }),
                swept(self.tiles@, orig, pass, y as int, 0),
                self.chest_found == flag,
        {
            for x in 0..TERRAIN_WIDTH
                invariant
                    y < TERRAIN_HEIGHT,
                    in_grid(cx as int, cy as int),
                    pass == (Pass::Pond { cx: cx as int, cy: cy as int }),
                    swept(self.tiles@, orig, pass, y as int, x as int),
                    self.chest_found == flag,
            {
                assert(self.tiles@[cell_index(x as int, y as int)] == orig[cell_index(
                    x as int,
                    y as int,
                )]);
                let d: usize = cell_distance_squared(cx, cy, x, y);
                if d <= POND_RADIUS * POND_RADIUS && self.tile(x, y) == TileType::Grass {
                    self.stamp_cell(x, y, TileType::Water, Ghost(orig), Ghost(pass));
                } else {
                    proof {
                        lemma_sweep_skips(self.tiles@, orig, pass, y as int, x as int, y as int, x + 1);
                    }
                }
            }
            proof {
                lemma_sweep_skips(self.tiles@, orig, pass, y as int, 100, y + 1, 0);
            }
        }
    }

    /// Builds the castle at `(cx, cy)` and dries its eight neighbours to grass.
    fn place_castle(&mut self, cx: usize, cy: usize)
        requires
            pond_center_ok(cx as int, cy as int),
        ensures
            stamped(
                final(self).tiles@,
                old(self).tiles@,
                Pass::Castle { cx: cx as int, cy: cy as int },
            ),
            final(self).chest_found == old(self).chest_found,
    {
        self.set_tile_if_in_bounds(cx, cy, TileType::Castle);
        self.set_tile_if_in_bounds(cx - 1, cy - 1, TileType::Grass);
        self.set_tile_if_in_bounds(cx, cy - 1, TileType::Grass);
        self.set_tile_if_in_bounds(cx + 1, cy - 1, TileType::Grass);
        self.set_tile_if_in_bounds(cx - 1, cy, TileType::Grass);
        self.set_tile_if_in_bounds(cx + 1, cy, TileType::Grass);
        self.set_tile_if_in_bounds(cx - 1, cy + 1, TileType::Grass);
        self.set_tile_if_in_bounds(cx, cy + 1, TileType::Grass);
        self.set_tile_if_in_bounds(cx + 1, cy + 1, TileType::Grass);
    }

    /// Whether `(x, y)` or one of its eight neighbours is a grass cell next to the castle
    /// at `(cx, cy)`.
    fn touches_island(&self, cx: usize, cy: usize, x: usize, y: usize) -> (found: bool)
        requires
            in_grid(cx as int, cy as int),
            in_grid(x as int, y as int),
        ensures
            found == touches_island(self.tiles@, cx as int, cy as int, x as int, y as int),
    {
        let mut i: usize = 0;
        while i < 3
            invariant
                i <= 3,
                in_grid(cx as int, cy as int),
                in_grid(x as int, y as int),
                forall|ax: int, ay: int|
                    #![trigger is_island_grass(self.tiles@, cx as int, cy as int, ax, ay)]
                    x - 1 <= ax < x - 1 + i && y - 1 <= ay <= y + 1 ==> !is_island_grass(
                        self.tiles@,
                        cx as int,
                        cy as int,
                        ax,
                        ay,
                    ),
            decreases 3 - i,
        {
            let mut j: usize = 0;
            while j < 3
                invariant
                    i < 3,
                    j <= 3,
                    in_grid(cx as int, cy as int),
                    in_grid(x as int, y as int),
                    forall|ax: int, ay: int|
                        #![trigger is_island_grass(self.tiles@, cx as int, cy as int, ax, ay)]
                        x - 1 <= ax < x - 1 + i && y - 1 <= ay <= y + 1 ==> !is_island_grass(
                            self.tiles@,
                            cx as int,
                            cy as int,
                            ax,
                            ay,
                        ),
                    forall|ay: int|
                        #![trigger is_island_grass(self.tiles@, cx as int, cy as int, x - 1 + i, ay)]
                        y - 1 <= ay < y - 1 + j ==> !is_island_grass(
                            self.tiles@,
                            cx as int,
                            cy as int,
                            x - 1 + i,
                            ay,
                        ),
                decreases 3 - j,
            {
                if x + i >= 1 && y + j >= 1 {
                    let ax: usize = x + i - 1;
                    let ay: usize = y + j - 1;
                    if ax < TERRAIN_WIDTH && ay < TERRAIN_HEIGHT {
                        if self.tile(ax, ay) == TileType::Grass && axis_gap(cx, ax) <= 1
                            && axis_gap(cy, ay) <= 1 {
                            assert(is_island_grass(
                                self.tiles@,
                                cx as int,
                                cy as int,
                                ax as int,
                                ay as int,
                            ));
                            return true;
                        }
                    }
                }
                j += 1;
            }
            i += 1;
        }
        false
    }

    /// Lays sand on every cell that touches the grass round the castle at `(cx, cy)`,
    /// without being part of it.
    fn lay_apron(&mut self, cx: usize, cy: usize)
        requires
            pond_center_ok(cx as int, cy as int),
            island_in_place(old(self).tiles@, cx as int, cy as int),
        ensures
            stamped(
                final(self).tiles@,
                old(self).tiles@,
                Pass::Apron { cx: cx as int, cy: cy as int },
            ),
            final(self).chest_found == old(self).chest_found,
    {
        let ghost orig = self.tiles@;
        let ghost flag = self.chest_found;
        let ghost pass = Pass::Apron { cx: cx as int, cy: cy as int };
        let y_first: usize = cy.saturating_sub(POND_RADIUS + 2);
        let y_last: usize = lesser(cy + POND_RADIUS + 2, TERRAIN_HEIGHT - 1);
        let x_first: usize = cx.saturating_sub(POND_RADIUS + 2);
        let x_last: usize = lesser(cx + POND_RADIUS + 2, TERRAIN_WIDTH - 1);
        proof {
            lemma_sweep_skips(self.tiles@, orig, pass, 0, 0, y_first as int, 0);
        }
        let mut y: usize = y_first;
        while y <= y_last
            invariant
                pond_center_ok(cx as int, cy as int),
                island_in_place(orig, cx as int, cy as int),
                pass == (Pass::Apron { cx: cx as int, cy: cy as int }),
                y_first == cy - 17 && y_last == cy + 17 && x_first == cx - 17 && x_last == cx + 17,
                y_first <= y <= y_last + 1,
                swept(self.tiles@, orig, pass, y as int, 0),
                self.chest_found == flag,
            decreases y_last + 1 - y,
        {
            proof {
                lemma_sweep_skips(self.tiles@, orig, pass, y as int, 0, y as int, x_first as int);
            }
            let mut x: usize = x_first;
            while x <= x_last
                invariant
                    pond_center_ok(cx as int, cy as int),
                    island_in_place(orig, cx as int, cy as int),
                    pass == (Pass::Apron { cx: cx as int, cy: cy as int }),
                    y_first == cy - 17 && y_last == cy + 17 && x_first == cx - 17 && x_last == cx
                        + 17,
                    y_first <= y <= y_last,
                    x_first <= x <= x_last + 1,
                    swept(self.tiles@, orig, pass, y as int, x as int),
                    self.chest_found == flag,
                decreases x_last + 1 - x,
            {
                let mut sandy: bool = false;
                if !(x == cx && y == cy) && !(axis_gap(cx, x) <= 1 && axis_gap(cy, y) <= 1) {
                    sandy = self.touches_island(cx, cy, x, y);
                    proof {
                        lemma_island_unswept(self.tiles@, orig, cx as int, cy as int, y as int, x as int);
                        lemma_touching_cells(self.tiles@, cx as int, cy as int, x as int, y as int);
                    }
                }
                if sandy {
                    self.stamp_cell(x, y, TileType::Sand, Ghost(orig), Ghost(pass));
                } else {
                    proof {
                        lemma_sweep_skips(self.tiles@, orig, pass, y as int, x as int, y as int, x + 1);
                    }
                }
                x += 1;
            }
            proof {
                lemma_sweep_skips(self.tiles@, orig, pass, y as int, x as int, y + 1, 0);
            }
            y += 1;
        }
        proof {
            lemma_sweep_skips(self.tiles@, orig, pass, y as int, 0, 50, 0);
        }
    }

    /// Lays sand on the grass and water of the ring just outside the pond around `(cx, cy)`.
    fn lay_beach_ring(&mut self, cx: usize, cy: usize)
        requires
            pond_center_ok(cx as int, cy as int),
        ensures
            stamped(
                final(self).tiles@,
                old(self).tiles@,
                Pass::Ring { cx: cx as int, cy: cy as int },
            ),
            final(self).chest_found == old(self).chest_found,
    {
        let ghost orig = self.tiles@;
        let ghost flag = self.chest_found;
        let ghost pass = Pass::Ring { cx: cx as int, cy: cy as int };
        let y_first: usize = cy.saturating_sub(POND_RADIUS + 1);
        let y_last: usize = lesser(cy + POND_RADIUS + 1, TERRAIN_HEIGHT - 1);
        let x_first: usize = cx.saturating_sub(POND_RADIUS + 1);
        let x_last: usize = lesser(cx + POND_RADIUS + 1, TERRAIN_WIDTH - 1);
        proof {
            lemma_ring_in_square(cx as int, cy as int);
            lemma_sweep_skips(self.tiles@, orig, pass, 0, 0, y_first as int, 0);
        }
        let mut y: usize = y_first;
        while y <= y_last
            invariant
                pond_center_ok(cx as int, cy as int),
                pass == (Pass::Ring { cx: cx as int, cy: cy as int }),
                y_first == cy - 16 && y_last == cy + 16 && x_first == cx - 16 && x_last == cx + 16,
                y_first <= y <= y_last + 1,
                swept(self.tiles@, orig, pass, y as int, 0),
                self.chest_found == flag,
            decreases y_last + 1 - y,
        {
            proof {
                lemma_ring_in_square(cx as int, cy as int);
                lemma_sweep_skips(self.tiles@, orig, pass, y as int, 0, y as int, x_first as int);
            }
            let mut x: usize = x_first;
            while x <= x_last
                invariant
                    pond_center_ok(cx as int, cy as int),
                    pass == (Pass::Ring { cx: cx as int, cy: cy as int }),
                    y_first == cy - 16 && y_last == cy + 16 && x_first == cx - 16 && x_last == cx
                        + 16,
                    y_first <= y <= y_last,
                    x_first <= x <= x_last + 1,
                    swept(self.tiles@, orig, pass, y as int, x as int),
                    self.chest_found == flag,
                decreases x_last + 1 - x,
            {
                assert(self.tiles@[cell_index(x as int, y as int)] == orig[cell_index(
                    x as int,
                    y as int,
                )]);
                let d: usize = cell_distance_squared(cx, cy, x, y);
                let tile: TileType = self.tile(x, y);
                let reach: usize = POND_RADIUS + 1;
                if d > POND_RADIUS * POND_RADIUS && d <= reach * reach && (tile == TileType::Grass
                    || tile == TileType::Water) {
                    self.stamp_cell(x, y, TileType::Sand, Ghost(orig), Ghost(pass));
                } else {
                    proof {
                        lemma_sweep_skips(self.tiles@, orig, pass, y as int, x as int, y as int, x + 1);
                    }
                }
                x += 1;
            }
            proof {
                lemma_ring_in_square(cx as int, cy as int);
                lemma_sweep_skips(self.tiles@, orig, pass, y as int, x as int, y + 1, 0);
            }
            y += 1;
        }
        proof {
            lemma_ring_in_square(cx as int, cy as int);
            lemma_sweep_skips(self.tiles@, orig, pass, y as int, 0, 50, 0);
        }
    }
}

/// Whether the forest around `(fx, fy)` and the pond around `(px, py)` share a cell.
pub fn overlaps(fx: usize, fy: usize, px: usize, py: usize) -> (hit: bool)
    requires
        in_grid(fx as int, fy as int),
        in_grid(px as int, py as int),
    ensures
        hit == shapes_overlap(fx as int, fy as int, px as int, py as int),
{
    let y_first: usize = py.saturating_sub(POND_RADIUS);
    let y_last: usize = lesser(py + POND_RADIUS, TERRAIN_HEIGHT - 1);
    let x_first: usize = px.saturating_sub(POND_RADIUS);
    let x_last: usize = lesser(px + POND_RADIUS, TERRAIN_WIDTH - 1);
    proof {
        lemma_pond_in_square(px as int, py as int);
    }
    let mut y: usize = y_first;
    while y <= y_last
        invariant
            in_grid(fx as int, fy as int),
            in_grid(px as int, py as int),
            y_first == if py >= 15 { py - 15 } else { 0 },
            y_last == if py + 15 <= 49 { py + 15 } else { 49 },
            x_first == if px >= 15 { px - 15 } else { 0 },
            x_last == if px + 15 <= 99 { px + 15 } else { 99 },
            y_first <= y <= y_last + 1,
            forall|x2: int, y2: int|
                y2 < y ==> !#[trigger] shared_cell(
                    fx as int,
                    fy as int,
                    px as int,
                    py as int,
                    x2,
                    y2,
                ),
        decreases y_last + 1 - y,
    {
        let mut x: usize = x_first;
        proof {
            lemma_pond_in_square(px as int, py as int);
        }
        while x <= x_last
            invariant
                in_grid(fx as int, fy as int),
                in_grid(px as int, py as int),
                y_first == if py >= 15 { py - 15 } else { 0 },
                y_last == if py + 15 <= 49 { py + 15 } else { 49 },
                x_first == if px >= 15 { px - 15 } else { 0 },
                x_last == if px + 15 <= 99 { px + 15 } else { 99 },
                y_first <= y <= y_last,
                x_first <= x <= x_last + 1,
                forall|x2: int, y2: int|
                    comes_before(x2, y2, y as int, x as int) ==> !#[trigger] shared_cell(
                        fx as int,
                        fy as int,
                        px as int,
                        py as int,
                        x2,
                        y2,
                    ),
            decreases x_last + 1 - x,
        {
            let d: usize = cell_distance_squared(px, py, x, y);
            if d <= POND_RADIUS * POND_RADIUS {
                if axis_gap(fx, x) + axis_gap(fy, y) <= FOREST_RADIUS {
                    assert(shared_cell(
                        fx as int,
                        fy as int,
                        px as int,
                        py as int,
                        x as int,
                        y as int,
                    ));
                    return true;
                }
            }
            x += 1;
        }
        proof {
            lemma_pond_in_square(px as int, py as int);
        }
        y += 1;
    }
    proof {
        lemma_pond_in_square(px as int, py as int);
    }
    false
}

/// A pond centre that shares no cell with the forest around `(fx, fy)`, whatever that
/// forest's row: the one farthest to the east or to the west.
pub fn far_pond_center(fx: usize, fy: usize) -> (center: (usize, usize))
    requires
        forest_center_ok(fx as int, fy as int),
    ensures
        center == (if fx <= 50 { 81usize } else { 19usize }, 25usize),
        placement_ok(fx as int, fy as int, center.0 as int, center.1 as int),
{
    let px: usize = if fx <= TERRAIN_WIDTH / 2 {
        TERRAIN_WIDTH - POND_RADIUS - 4
    } else {
        POND_RADIUS + 4
    };
    let py: usize = TERRAIN_HEIGHT / 2;
    proof {
        lemma_distant_shapes(fx as int, fy as int, px as int, py as int);
    }
    (px, py)
}

/// Draws pond centres until one shares no cell with the forest around `(fx, fy)`. After
/// `PLACEMENT_ATTEMPTS` draws it settles for the centre that `far_pond_center` gives.
fn pick_pond_center(rng: &mut ThreadRng, fx: usize, fy: usize) -> (center: (usize, usize))
    requires
        forest_center_ok(fx as int, fy as int),
    ensures
        placement_ok(fx as int, fy as int, center.0 as int, center.1 as int),
{
    let mut attempt: usize = 0;
    while attempt < PLACEMENT_ATTEMPTS
        invariant
            forest_center_ok(fx as int, fy as int),
        decreases PLACEMENT_ATTEMPTS - attempt,
    {
        let px: usize = roll_between(rng, POND_RADIUS + 4, TERRAIN_WIDTH - POND_RADIUS - 4);
        let py: usize = roll_between(rng, POND_RADIUS + 4, TERRAIN_HEIGHT - POND_RADIUS - 4);
        if !overlaps(fx, fy, px, py) {
            return (px, py);
        }
        attempt += 1;
    }
    far_pond_center(fx, fy)
}

/// The smaller of two numbers.
pub fn lesser(a: usize, b: usize) -> (m: usize)
    ensures
        m == if a <= b {
            a
        } else {
            b
        },
{
    if a <= b {
        a
    } else {
        b
    }
}

/// Whether `(x, y)` is a grass cell of the map at most one step from `(cx, cy)`.
pub open spec fn is_island_grass(tiles: Seq<TileType>, cx: int, cy: int, x: int, y: int) -> bool {
    in_grid(x, y) && tiles[cell_index(x, y)] == TileType::Grass && within(cx, cy, x, y, 1)
}

/// Whether `(x, y)` or one of its eight neighbours is a grass cell at most one step from
/// `(cx, cy)`.
pub open spec fn touches_island(tiles: Seq<TileType>, cx: int, cy: int, x: int, y: int) -> bool {
    exists|ax: int, ay: int|
        #![trigger is_island_grass(tiles, cx, cy, ax, ay)]
        gap(ax, x) <= 1 && gap(ay, y) <= 1 && is_island_grass(tiles, cx, cy, ax, ay)
}

/// Whether the castle stands at `(cx, cy)` with grass on its eight neighbours.
pub open spec fn island_in_place(tiles: Seq<TileType>, cx: int, cy: int) -> bool {
    &&& tiles[cell_index(cx, cy)] == TileType::Castle
    &&& forall|x: int, y: int|
        #![trigger cell_index(x, y)]
        within(cx, cy, x, y, 1) && !(x == cx && y == cy) ==> tiles[cell_index(x, y)]
            == TileType::Grass
}

/// While the apron is laid, the castle and the grass round it stay as they were.
proof fn lemma_island_unswept(
    cur: Seq<TileType>,
    orig: Seq<TileType>,
    cx: int,
    cy: int,
    row: int,
    col: int,
)
    requires
        pond_center_ok(cx, cy),
        island_in_place(orig, cx, cy),
        swept(cur, orig, Pass::Apron { cx, cy }, row, col),
    ensures
        island_in_place(cur, cx, cy),
{
    assert(cur[cell_index(cx, cy)] == orig[cell_index(cx, cy)]);
    assert forall|x: int, y: int|
        #![trigger cell_index(x, y)]
        within(cx, cy, x, y, 1) && !(x == cx && y == cy) implies cur[cell_index(x, y)]
        == TileType::Grass by {
        assert(in_grid(x, y));
        assert(orig[cell_index(x, y)] == TileType::Grass);
    }
}

/// With the castle and its grass in place, the cells that touch that grass from outside are
/// the sixteen at distance two.
proof fn lemma_touching_cells(tiles: Seq<TileType>, cx: int, cy: int, x: int, y: int)
    requires
        pond_center_ok(cx, cy),
        island_in_place(tiles, cx, cy),
        in_grid(x, y),
        !within(cx, cy, x, y, 1),
    ensures
        touches_island(tiles, cx, cy, x, y) == within(cx, cy, x, y, 2),
{
    if within(cx, cy, x, y, 2) {
        let ax = if x == cx + 2 {
            cx + 1
        } else if x == cx - 2 {
            cx - 1
        } else {
            x
        };
        let ay = if y == cy + 2 {
            cy + 1
        } else if y == cy - 2 {
            cy - 1
        } else {
            y
        };
        assert(tiles[cell_index(ax, ay)] == TileType::Grass);
        assert(is_island_grass(tiles, cx, cy, ax, ay));
    }
}

/// Every cell of the pond lies in the square of half-width 15 around its centre.
proof fn lemma_pond_in_square(cx: int, cy: int)
    ensures
        forall|x: int, y: int| #[trigger] in_pond(cx, cy, x, y) ==> within(cx, cy, x, y, 15),
{
    assert forall|x: int, y: int| #[trigger] in_pond(cx, cy, x, y) implies within(
        cx,
        cy,
        x,
        y,
        15,
    ) by {
        lemma_disc_in_square(cx, cy, x, y, 15);
    }
}

/// A forest and a pond whose centres are more than 25 columns apart share no cell.
pub proof fn lemma_distant_shapes(fx: int, fy: int, px: int, py: int)
    requires
        gap(fx, px) > 25,
    ensures
        !shapes_overlap(fx, fy, px, py),
{
    lemma_pond_in_square(px, py);
}

/// The six passes, one after the other, leave the finished map.
proof fn lemma_composed_tile(fx: int, fy: int, px: int, py: int, x: int, y: int)
    requires
        forest_center_ok(fx, fy),
        pond_center_ok(px, py),
        in_grid(x, y),
    ensures
        composed_tile(fx, fy, px, py, x, y) == generated_tile(fx, fy, px, py, x, y),
{
    if within(px, py, x, y, 2) {
        lemma_square_in_disc(px, py, x, y);
    }
    if squared_distance(px, py, x, y) <= 256 {
        lemma_disc_in_square(px, py, x, y, 16);
    }
}

/// On a finished map the outermost ring is all mountain.
pub proof fn lemma_border_is_mountain(t: TerrainView, fx: int, fy: int, px: int, py: int)
    requires
        t.laid_out(fx, fy, px, py),
    ensures
        t.border_is_mountain(),
{
}

/// A finished map holds exactly one castle, at the centre of the pond.
pub proof fn lemma_one_castle(t: TerrainView, fx: int, fy: int, px: int, py: int)
    requires
        pond_center_ok(px, py),
        t.laid_out(fx, fy, px, py),
    ensures
        t.only_castle_at(px, py),
{
    assert(t.at(px, py) == generated_tile(fx, fy, px, py, px, py));
}

/// On a finished map whose forest and pond share no cell, the trees are exactly the
/// forest's diamond, and no water lies in it: the set of tree cells and the set of water
/// cells are disjoint, and so are the two shapes.
pub proof fn lemma_forest_and_pond_apart(t: TerrainView, fx: int, fy: int, px: int, py: int)
    requires
        placement_ok(fx, fy, px, py),
        t.laid_out(fx, fy, px, py),
    ensures
        t.forest_and_pond_apart(fx, fy, px, py),
{
    assert forall|x: int, y: int| #![trigger cell_index(x, y)] in_grid(x, y) implies {
        &&& t.at(x, y) == TileType::Tree <==> in_forest(fx, fy, x, y)
        &&& t.at(x, y) == TileType::Water ==> in_pond(px, py, x, y) && !in_forest(fx, fy, x, y)
    } by {
        assert(t.at(x, y) == generated_tile(fx, fy, px, py, x, y));
        assert(!shared_cell(fx, fy, px, py, x, y));
        if within(px, py, x, y, 2) {
            lemma_square_in_disc(px, py, x, y);
        }
    }
}

/// A finished map has a border of mountains, exactly one castle, and a forest and a pond
/// that lie apart.
pub proof fn lemma_generated_map(t: TerrainView)
    requires
        t.is_generated(),
    ensures
        t.border_is_mountain(),
        t.has_one_castle(),
        t.forest_apart_from_pond(),
{
    let (fx, fy, px, py) = choose|fx: int, fy: int, px: int, py: int|
        #![trigger t.laid_out(fx, fy, px, py)]
        placement_ok(fx, fy, px, py) && t.laid_out(fx, fy, px, py);
    lemma_border_is_mountain(t, fx, fy, px, py);
    lemma_one_castle(t, fx, fy, px, py);
    lemma_forest_and_pond_apart(t, fx, fy, px, py);
    assert(cell_index(px, py) == cell_index(px, py));
}

/// Every cell of the beach ring lies in the square of half-width 16 around the pond's centre.
proof fn lemma_ring_in_square(cx: int, cy: int)
    ensures
        forall|x: int, y: int| #[trigger] in_beach_ring(cx, cy, x, y) ==> within(cx, cy, x, y, 16),
{
    assert forall|x: int, y: int| #[trigger] in_beach_ring(cx, cy, x, y) implies within(
        cx,
        cy,
        x,
        y,
        16,
    ) by {
        lemma_disc_in_square(cx, cy, x, y, 16);
    }
}

/// Whether cell `(x, y)` comes before `(col, row)` in row-major order.
pub open spec fn comes_before(x: int, y: int, row: int, col: int) -> bool {
    y < row || (y == row && x < col)
}

/// A sweep that has reached `(col, row)` has also reached `(col2, row2)` when the pass
/// changes none of the cells in between.
proof fn lemma_sweep_skips(
    cur: Seq<TileType>,
    orig: Seq<TileType>,
    pass: Pass,
    row: int,
    col: int,
    row2: int,
    col2: int,
)
    requires
        swept(cur, orig, pass, row, col),
        row < row2 || (row == row2 && col <= col2),
        forall|x: int, y: int|
            #![trigger cell_index(x, y)]
            in_grid(x, y) && !comes_before(x, y, row, col) && comes_before(x, y, row2, col2)
                ==> stamp(pass, x, y, orig[cell_index(x, y)]) == orig[cell_index(x, y)],
    ensures
        swept(cur, orig, pass, row2, col2),
{
    assert forall|x: int, y: int| #![trigger cell_index(x, y)] in_grid(x, y) implies cur[cell_index(
        x,
        y,
    )] == if comes_before(x, y, row2, col2) {
        stamp(pass, x, y, orig[cell_index(x, y)])
    } else {
        orig[cell_index(x, y)]
    } by {}
}

/// A cell at squared distance at most `r * r` from a centre lies in the square of half-width
/// `r` around it.
pub proof fn lemma_disc_in_square(cx: int, cy: int, x: int, y: int, r: int)
    requires
        r >= 0,
        squared_distance(cx, cy, x, y) <= r * r,
    ensures
        within(cx, cy, x, y, r),
{
    let dx = gap(cx, x);
    let dy = gap(cy, y);
    assert(dx * dx == (cx - x) * (cx - x) && dy * dy == (cy - y) * (cy - y)) by (nonlinear_arith)
        requires
            dx == cx - x || dx == x - cx,
            dy == cy - y || dy == y - cy,
    ;
    assert(dx <= r && dy <= r) by (nonlinear_arith)
        requires
            dx >= 0,
            dy >= 0,
            r >= 0,
            dx * dx + dy * dy <= r * r,
    ;
}

/// A cell in the square of half-width 2 around a centre is at squared distance at most 8
/// from it.
pub proof fn lemma_square_in_disc(cx: int, cy: int, x: int, y: int)
    requires
        within(cx, cy, x, y, 2),
    ensures
        squared_distance(cx, cy, x, y) <= 8,
{
    let dx = gap(cx, x);
    let dy = gap(cy, y);
    assert(dx * dx == (cx - x) * (cx - x) && dy * dy == (cy - y) * (cy - y)) by (nonlinear_arith)
        requires
            dx == cx - x || dx == x - cx,
            dy == cy - y || dy == y - cy,
    ;
    assert(dx * dx <= 4 && dy * dy <= 4) by (nonlinear_arith)
        requires
            0 <= dx <= 2,
            0 <= dy <= 2,
    ;
}

} // verus!

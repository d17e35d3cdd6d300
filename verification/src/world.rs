pub mod entities;
pub mod terrain;

use crate::dice::roll_between;
use crate::world::entities::{ItemType, NPCType, Player, PlayerView, NPC};
use crate::world::terrain::{
    cell_index, in_grid, placement_ok, shared_cell, Terrain, TerrainView, TileType,
    TERRAIN_HEIGHT, TERRAIN_WIDTH,
};
use rand::rngs::ThreadRng;
use rand::thread_rng;
use vstd::prelude::*;
use vstd::string::StringExecFns;

verus! {

/// How many random cells are tried for a spawn before the map is searched row by row.
pub const SPAWN_ATTEMPTS: usize = 10000;

/// The map, the player and the creatures.
#[derive(Clone, Debug)]
pub struct World {
    pub terrain: Terrain,
    pub player: Player,
    pub npcs: Vec<NPC>,
}

/// The mathematical content of a [`World`].
pub struct WorldView {
    pub terrain: TerrainView,
    pub player: PlayerView,
    pub npcs: Seq<NPC>,
}

impl View for World {
    type V = WorldView;

    open spec fn view(&self) -> WorldView {
        WorldView { terrain: self.terrain@, player: self.player@, npcs: self.npcs@ }
    }
}

/// What is shown for one cell of the map.
#[derive(Copy, Clone, PartialEq, Eq, Structural, Debug)]
pub enum Glyph {
    Player,
    Creature(NPCType),
    Ground(TileType),
}

impl Glyph {
    /// The characters that show this glyph.
    pub open spec fn text(self) -> Seq<char> {
        match self {
            Glyph::Player => "\u{1F3C3}"@,
            Glyph::Creature(NPCType::Fish) => "\u{1F420}"@,
            Glyph::Creature(NPCType::Troll) => "\u{1F479}"@,
            Glyph::Creature(NPCType::Spider) => "\u{1F577}"@,
            Glyph::Ground(TileType::Grass) => "\u{1F7E9}"@,
            Glyph::Ground(TileType::Tree) => "\u{1F332}"@,
            Glyph::Ground(TileType::Water) => "\u{1F4A7}"@,
            Glyph::Ground(TileType::Mountain) => "\u{1F5FB}"@,
            Glyph::Ground(TileType::Sand) => "\u{1F7E8}"@,
            Glyph::Ground(TileType::Castle) => "\u{1F3F0}"@,
            Glyph::Ground(TileType::Chest) => "\u{1F4E6}"@,
            Glyph::Ground(TileType::SpiderWeb) => "\u{1F578}"@,
            Glyph::Ground(TileType::Heart) => "\u{1F496}"@,
        }
    }

    /// The characters that show this glyph.
    pub fn symbol(self) -> (s: &'static str)
        ensures
            s@ == self.text(),
    {
        match self {
            Glyph::Player => "\u{1F3C3}",
            Glyph::Creature(NPCType::Fish) => "\u{1F420}",
            Glyph::Creature(NPCType::Troll) => "\u{1F479}",
            Glyph::Creature(NPCType::Spider) => "\u{1F577}",
            Glyph::Ground(TileType::Grass) => "\u{1F7E9}",
            Glyph::Ground(TileType::Tree) => "\u{1F332}",
            Glyph::Ground(TileType::Water) => "\u{1F4A7}",
            Glyph::Ground(TileType::Mountain) => "\u{1F5FB}",
            Glyph::Ground(TileType::Sand) => "\u{1F7E8}",
            Glyph::Ground(TileType::Castle) => "\u{1F3F0}",
            Glyph::Ground(TileType::Chest) => "\u{1F4E6}",
            Glyph::Ground(TileType::SpiderWeb) => "\u{1F578}",
            Glyph::Ground(TileType::Heart) => "\u{1F496}",
        }
    }
}

/// Whether `npc` stands on `(x, y)` and is of the kind asked for, where one is asked for.
pub open spec fn npc_matches(npc: NPC, x: int, y: int, kind: Option<NPCType>) -> bool {
    npc.x == x && npc.y == y && (kind matches Some(k) ==> npc.npc_type == k)
}

/// Whether the creature at index `i` is the first that stands on `(x, y)` and is of the kind
/// asked for.
pub open spec fn is_first_npc(npcs: Seq<NPC>, i: int, x: int, y: int, kind: Option<NPCType>) -> bool {
    &&& 0 <= i < npcs.len()
    &&& npc_matches(npcs[i], x, y, kind)
    &&& forall|j: int| 0 <= j < i ==> !npc_matches(#[trigger] npcs[j], x, y, kind)
}

/// The index of the first creature that stands on `(x, y)` and is of the kind asked for.
pub open spec fn first_npc(npcs: Seq<NPC>, x: int, y: int, kind: Option<NPCType>) -> Option<int> {
    if exists|i: int| is_first_npc(npcs, i, x, y, kind) {
        Some(choose|i: int| is_first_npc(npcs, i, x, y, kind))
    } else {
        None
    }
}

/// The first match is the only index that `first_npc` can give.
pub proof fn lemma_first_npc(npcs: Seq<NPC>, i: int, x: int, y: int, kind: Option<NPCType>)
    requires
        is_first_npc(npcs, i, x, y, kind),
    ensures
        first_npc(npcs, x, y, kind) == Some(i),
{
    let c = choose|c: int| is_first_npc(npcs, c, x, y, kind);
    if c < i {
        assert(!npc_matches(npcs[c], x, y, kind));
    } else if i < c {
        assert(!npc_matches(npcs[i], x, y, kind));
    }
}

/// Where `first_npc` gives an index, it is that of the first match.
pub proof fn lemma_first_npc_found(npcs: Seq<NPC>, x: int, y: int, kind: Option<NPCType>)
    ensures
        first_npc(npcs, x, y, kind) matches Some(i) ==> is_first_npc(npcs, i, x, y, kind),
        first_npc(npcs, x, y, kind) is None ==> forall|j: int|
            0 <= j < npcs.len() ==> !npc_matches(#[trigger] npcs[j], x, y, kind),
{
    if first_npc(npcs, x, y, kind) is None {
        assert forall|j: int| 0 <= j < npcs.len() implies !npc_matches(
            #[trigger] npcs[j],
            x,
            y,
            kind,
        ) by {
            if npc_matches(npcs[j], x, y, kind) {
                lemma_some_match_has_first(npcs, j, x, y, kind);
            }
        }
    }
}

/// Where some creature matches, one of them is the first.
proof fn lemma_some_match_has_first(npcs: Seq<NPC>, j: int, x: int, y: int, kind: Option<NPCType>)
    requires
        0 <= j < npcs.len(),
        npc_matches(npcs[j], x, y, kind),
    ensures
        exists|i: int| is_first_npc(npcs, i, x, y, kind),
    decreases j,
{
    if exists|k: int| 0 <= k < j && npc_matches(npcs[k], x, y, kind) {
        let k = choose|k: int| 0 <= k < j && npc_matches(npcs[k], x, y, kind);
        lemma_some_match_has_first(npcs, k, x, y, kind);
    } else {
        assert(is_first_npc(npcs, j, x, y, kind));
    }
}

/// Whether `grid` holds, row by row, the glyph of every cell of `w`.
pub open spec fn is_snapshot(grid: Seq<Glyph>, w: WorldView) -> bool {
    &&& grid.len() == 5000
    &&& forall|x: int, y: int|
        #![trigger cell_index(x, y)]
        in_grid(x, y) ==> grid[cell_index(x, y)] == w.glyph_at(x, y)
}

/// Two snapshots of one world are equal: as long as nothing changes the world, rendering it
/// again gives the same grid.
pub proof fn lemma_snapshot_is_unique(w: WorldView, a: Seq<Glyph>, b: Seq<Glyph>)
    requires
        is_snapshot(a, w),
        is_snapshot(b, w),
    ensures
        a == b,
{
    assert forall|i: int| 0 <= i < 5000 implies a[i] == b[i] by {
        let x = i % 100;
        let y = i / 100;
        assert(cell_index(x, y) == i);
        assert(in_grid(x, y));
    }
    assert(a =~= b);
}

impl WorldView {
    /// Whether the map has its 5000 cells, and the player and every creature stand on one
    /// of them.
    pub open spec fn wf(self) -> bool {
        &&& self.terrain.tiles.len() == 5000
        &&& in_grid(self.player.x, self.player.y)
        &&& forall|i: int|
            0 <= i < self.npcs.len() ==> in_grid(
                (#[trigger] self.npcs[i]).x as int,
                self.npcs[i].y as int,
            )
    }

    /// Whether every creature stands on the tile of its kind.
    pub open spec fn npcs_at_home(self) -> bool {
        forall|i: int|
            0 <= i < self.npcs.len() ==> self.terrain.at(
                (#[trigger] self.npcs[i]).x as int,
                self.npcs[i].y as int,
            ) == self.npcs[i].npc_type.home_tile()
    }

    /// What is shown for cell `(x, y)`: the player before a creature, a creature before the
    /// ground.
    pub open spec fn glyph_at(self, x: int, y: int) -> Glyph {
        if self.player.x == x && self.player.y == y {
            Glyph::Player
        } else {
            match first_npc(self.npcs, x, y, None) {
                Some(i) => Glyph::Creature(self.npcs[i].npc_type),
                None => Glyph::Ground(self.terrain.at(x, y)),
            }
        }
    }

    /// The text of the first `upto` cells of row `y`.
    pub open spec fn row_text(self, y: int, upto: int) -> Seq<char>
        decreases upto,
    {
        if upto <= 0 {
            Seq::empty()
        } else {
            self.row_text(y, upto - 1) + self.glyph_at(upto - 1, y).text()
        }
    }

    /// The text of the first `upto` rows, each closed by a carriage return and a line feed.
    pub open spec fn rows_text(self, upto: int) -> Seq<char>
        decreases upto,
    {
        if upto <= 0 {
            Seq::empty()
        } else {
            self.rows_text(upto - 1) + self.row_text(upto - 1, 100) + "\r\n"@
        }
    }

    /// The text of the whole map.
    pub open spec fn drawing(self) -> Seq<char> {
        self.rows_text(50)
    }
}

/// The first cell in row-major order that holds `tile`.
pub fn first_cell_of(terrain: &Terrain, tile: TileType) -> (found: Option<(usize, usize)>)
    ensures
        match found {
            Some((x, y)) => {
                &&& in_grid(x as int, y as int)
                &&& terrain@.at(x as int, y as int) == tile
                &&& forall|x2: int, y2: int|
                    #![trigger cell_index(x2, y2)]
                    in_grid(x2, y2) && (y2 < y || (y2 == y && x2 < x)) ==> terrain@.at(x2, y2)
                        != tile
            },
            None => !terrain@.has_tile(tile),
        },
{
    for y in 0..TERRAIN_HEIGHT
        invariant
            forall|x2: int, y2: int|
                #![trigger cell_index(x2, y2)]
                in_grid(x2, y2) && y2 < y ==> terrain@.at(x2, y2) != tile,
    {
        for x in 0..TERRAIN_WIDTH
            invariant
                y < TERRAIN_HEIGHT,
                forall|x2: int, y2: int|
                    #![trigger cell_index(x2, y2)]
                    in_grid(x2, y2) && (y2 < y || (y2 == y && x2 < x)) ==> terrain@.at(x2, y2)
                        != tile,
        {
            if terrain.tile(x, y) == tile {
                return Some((x, y));
            }
        }
    }
    None
}

/// A finished map has grass next to the castle and water in the pond.
pub proof fn lemma_generated_has_grass_and_water(t: TerrainView)
    requires
        t.is_generated(),
    ensures
        t.has_tile(TileType::Grass),
        t.has_tile(TileType::Water),
{
    let (fx, fy, px, py) = choose|fx: int, fy: int, px: int, py: int|
        #![trigger t.laid_out(fx, fy, px, py)]
        placement_ok(fx, fy, px, py) && t.laid_out(fx, fy, px, py);
    assert(in_grid(px + 1, py));
    assert(t.at(px + 1, py) == TileType::Grass) by {
        assert(cell_index(px + 1, py) == cell_index(px + 1, py));
    }
    assert(in_grid(px + 5, py));
    assert((px - (px + 5)) * (px - (px + 5)) == 25) by (nonlinear_arith);
    assert(!shared_cell(fx, fy, px, py, px + 5, py));
    assert(t.at(px + 5, py) == TileType::Water) by {
        assert(cell_index(px + 5, py) == cell_index(px + 5, py));
    }
}

impl World {
    /// Generates the map, puts the player with a sword on a random grass cell, then three
    /// fish on random water cells and five trolls on random grass cells.
    pub fn new() -> (w: World)
        ensures
            w@.wf(),
            w@.terrain.is_generated(),
            w@.terrain.border_is_mountain(),
            w@.terrain.has_one_castle(),
            w@.terrain.forest_apart_from_pond(),
            !w@.terrain.chest_found,
            w@.terrain.at(w@.player.x, w@.player.y) == TileType::Grass,
            w@.player.name == "alk"@,
            w@.player.inventory == seq![ItemType::Sword],
            !w@.player.dead,
            w@.npcs.len() == 8,
            forall|i: int| 0 <= i < 3 ==> (#[trigger] w@.npcs[i]).npc_type == NPCType::Fish,
            forall|i: int| 3 <= i < 8 ==> (#[trigger] w@.npcs[i]).npc_type == NPCType::Troll,
            w@.npcs_at_home(),
    {
        let new_terrain = Terrain::new();
        proof {
            lemma_generated_has_grass_and_water(new_terrain@);
        }
        let (player_x, player_y) = World::find_spawn_location(&new_terrain, TileType::Grass);
        let mut inventory: Vec<ItemType> = Vec::new();
        inventory.push(ItemType::Sword);
        let mut world = World {
            terrain: new_terrain,
            player: Player {
                x: player_x,
                y: player_y,
                name: "alk".to_owned(),
                inventory,
                dead: false,
            },
            npcs: Vec::new(),
        };
        let ghost start = world@;
        for n in 0..3usize
            invariant
                world@.terrain == start.terrain,
                world@.player == start.player,
                start.terrain.has_tile(TileType::Water),
                start.terrain.has_tile(TileType::Grass),
                world@.wf(),
                world@.npcs_at_home(),
                world@.npcs.len() == n,
                forall|i: int| 0 <= i < n ==> (#[trigger] world@.npcs[i]).npc_type == NPCType::Fish,
        {
            world.spawn_npc(NPCType::Fish);
        }
        for n in 0..5usize
            invariant
                world@.terrain == start.terrain,
                world@.player == start.player,
                start.terrain.has_tile(TileType::Grass),
                world@.wf(),
                world@.npcs_at_home(),
                world@.npcs.len() == n + 3,
                forall|i: int| 0 <= i < 3 ==> (#[trigger] world@.npcs[i]).npc_type == NPCType::Fish,
                forall|i: int|
                    3 <= i < n + 3 ==> (#[trigger] world@.npcs[i]).npc_type == NPCType::Troll,
        {
            world.spawn_npc(NPCType::Troll);
        }
        world
    }

    /// A random cell of `terrain` that holds `tile_type`. Cells are drawn at random; after
    /// `SPAWN_ATTEMPTS` draws without a hit, the first such cell in row-major order is taken.
    pub fn find_spawn_location(terrain: &Terrain, tile_type: TileType) -> (place: (i32, i32))
        requires
            terrain@.has_tile(tile_type),
        ensures
            in_grid(place.0 as int, place.1 as int),
            terrain@.at(place.0 as int, place.1 as int) == tile_type,
    {
        let mut rng: ThreadRng = thread_rng();
        let mut attempt: usize = 0;
        while attempt < SPAWN_ATTEMPTS
            decreases SPAWN_ATTEMPTS - attempt,
        {
            let x: usize = roll_between(&mut rng, 0, TERRAIN_WIDTH - 1);
            let y: usize = roll_between(&mut rng, 0, TERRAIN_HEIGHT - 1);
            if terrain.tile(x, y) == tile_type {
                return (x as i32, y as i32);
            }
            attempt += 1;
        }
        match first_cell_of(terrain, tile_type) {
            Some((x, y)) => (x as i32, y as i32),
            None => (0, 0),
        }
    }

    /// Adds a creature of the given kind on a random cell that holds the tile of its kind.
    pub fn spawn_npc(&mut self, npc_type: NPCType)
        requires
            old(self)@.terrain.has_tile(npc_type.home_tile()),
        ensures
            final(self)@.terrain == old(self)@.terrain,
            final(self)@.player == old(self)@.player,
            final(self)@.npcs == old(self)@.npcs.push(final(self)@.npcs.last()),
            final(self)@.npcs.last().npc_type == npc_type,
            in_grid(final(self)@.npcs.last().x as int, final(self)@.npcs.last().y as int),
            final(self)@.terrain.at(
                final(self)@.npcs.last().x as int,
                final(self)@.npcs.last().y as int,
            ) == npc_type.home_tile(),
            old(self)@.wf() ==> final(self)@.wf(),
            old(self)@.npcs_at_home() ==> final(self)@.npcs_at_home(),
    {
        let (x, y) = World::find_spawn_location(&self.terrain, npc_type.allowed_tile());
        self.npcs.push(NPC { x, y, npc_type });
    }

    /// Whether the player and every creature stand on a cell of the map.
    pub fn is_valid(&self) -> (ok: bool)
        ensures
            ok == self@.wf(),
    {
        if self.player.x < 0 || self.player.x >= TERRAIN_WIDTH as i32 || self.player.y < 0
            || self.player.y >= TERRAIN_HEIGHT as i32 {
            return false;
        }
        let mut i: usize = 0;
        while i < self.npcs.len()
            invariant
                i <= self.npcs.len(),
                forall|k: int|
                    0 <= k < i ==> in_grid(
                        (#[trigger] self@.npcs[k]).x as int,
                        self@.npcs[k].y as int,
                    ),
            decreases self.npcs.len() - i,
        {
            let npc = self.npcs[i];
            if npc.x < 0 || npc.x >= TERRAIN_WIDTH as i32 || npc.y < 0 || npc.y
                >= TERRAIN_HEIGHT as i32 {
                return false;
            }
            i += 1;
        }
        true
    }

    /// The index of the first creature that stands on `(x, y)` and is of the kind asked for.
    pub fn find_npc(&self, x: i32, y: i32, kind: Option<NPCType>) -> (found: Option<usize>)
        ensures
            match found {
                Some(i) => first_npc(self@.npcs, x as int, y as int, kind) == Some(i as int),
                None => first_npc(self@.npcs, x as int, y as int, kind) is None,
            },
    {
        let mut i: usize = 0;
        while i < self.npcs.len()
            invariant
                i <= self.npcs.len(),
                forall|j: int|
                    0 <= j < i ==> !npc_matches(#[trigger] self@.npcs[j], x as int, y as int, kind),
            decreases self.npcs.len() - i,
        {
            let npc = self.npcs[i];
            let kind_fits = match kind {
                Some(k) => npc.npc_type == k,
                None => true,
            };
            if npc.x == x && npc.y == y && kind_fits {
                proof {
                    lemma_first_npc(self@.npcs, i as int, x as int, y as int, kind);
                }
                return Some(i);
            }
            i += 1;
        }
        proof {
            if first_npc(self@.npcs, x as int, y as int, kind) is Some {
                lemma_first_npc_found(self@.npcs, x as int, y as int, kind);
            }
        }
        None
    }

    /// What is shown for cell `(x, y)`.
    pub fn glyph_at(&self, x: usize, y: usize) -> (glyph: Glyph)
        requires
            in_grid(x as int, y as int),
        ensures
            glyph == self@.glyph_at(x as int, y as int),
    {
        if self.player.x >= 0 && self.player.y >= 0 && self.player.x as usize == x
            && self.player.y as usize == y {
            return Glyph::Player;
        }
        match self.find_npc(x as i32, y as i32, None) {
            Some(i) => Glyph::Creature(self.npcs[i].npc_type),
            None => Glyph::Ground(self.terrain.tile(x, y)),
        }
    }

    /// The glyph of every cell, row by row.
    pub fn render_snapshot(&self) -> (grid: Vec<Glyph>)
        ensures
            is_snapshot(grid@, self@),
    {
        let mut grid: Vec<Glyph> = Vec::new();
        for y in 0..TERRAIN_HEIGHT
            invariant
                grid@.len() == y * 100,
                forall|x2: int, y2: int|
                    #![trigger cell_index(x2, y2)]
                    in_grid(x2, y2) && y2 < y ==> grid@[cell_index(x2, y2)] == self@.glyph_at(
                        x2,
                        y2,
                    ),
        {
            for x in 0..TERRAIN_WIDTH
                invariant
                    y < TERRAIN_HEIGHT,
                    grid@.len() == y * 100 + x,
                    forall|x2: int, y2: int|
                        #![trigger cell_index(x2, y2)]
                        in_grid(x2, y2) && (y2 < y || (y2 == y && x2 < x)) ==> grid@[cell_index(
                            x2,
                            y2,
                        )] == self@.glyph_at(x2, y2),
            {
                let glyph = self.glyph_at(x, y);
                grid.push(glyph);
            }
        }
        grid
    }

    /// The map as text: one glyph for each cell, and a carriage return and a line feed
    /// after each row.
    pub fn draw_to_string(&self) -> (buffer: String)
        ensures
            buffer@ == self@.drawing(),
    {
        let mut buffer = String::new();
        for y in 0..TERRAIN_HEIGHT
            invariant
                buffer@ == self@.rows_text(y as int),
        {
            let ghost done = buffer@;
            for x in 0..TERRAIN_WIDTH
                invariant
                    y < TERRAIN_HEIGHT,
                    done == self@.rows_text(y as int),
                    buffer@ == done + self@.row_text(y as int, x as int),
            {
                let glyph = self.glyph_at(x, y);
                buffer.append(glyph.symbol());
                assert(buffer@ == done + self@.row_text(y as int, x + 1)) by {
                    assert(self@.row_text(y as int, x + 1) == self@.row_text(y as int, x as int)
                        + glyph.text());
                    assert(buffer@ =~= done + (self@.row_text(y as int, x as int) + glyph.text()));
                }
            }
            buffer.append("\r\n");
            assert(buffer@ == self@.rows_text(y + 1));
        }
        buffer
    }
}

} // verus!

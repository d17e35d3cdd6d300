use crate::dice::{roll_between, shuffle_directions};
use crate::world::entities::{Direction, ItemType, NPCType, Player, PlayerView, NPC};
use crate::world::terrain::{
    cell_index, in_grid, TerrainView, TileType, TERRAIN_HEIGHT, TERRAIN_WIDTH,
};
use crate::world::{first_npc, lemma_first_npc_found, World, WorldView};
use rand::rngs::ThreadRng;
use rand::thread_rng;
use vstd::prelude::*;
use vstd::string::StringExecFns;

verus! {

/// How a turn of the player ended.
#[derive(Copy, Clone, PartialEq, Eq, Structural, Debug)]
pub enum Status {
    Welcome,
    OutOfBounds,
    Wandering,
    TrollDefeatedAxe,
    TrollDefeated,
    TrollNeedsSword,
    SpiderDefeated,
    FishIgnored,
    FishCaught,
    FishOutOfReach,
    Swimming,
    WaterBlocked,
    ChestUncovered,
    TreeChopped,
    TreeNeedsTool,
    ChestEmpty,
    HarpoonFound,
    CastleEntered,
    CastleLocked,
    Trapped,
    Blocked,
}

impl Status {
    /// The line that tells the player of this outcome.
    pub open spec fn text(self) -> Seq<char> {
        match self {
            Status::Welcome => "You are in a bizarre world full of weird emojis. And what am I doing inside a linux terminal?"@,
            Status::OutOfBounds => "Stay with us, don't try to leave"@,
            Status::Wandering => "You are wandering around!"@,
            Status::TrollDefeatedAxe => "You bravely fight and defeat the troll! He leaves an Axe on the ground!"@,
            Status::TrollDefeated => "You bravely fight and defeat the troll!"@,
            Status::TrollNeedsSword => "There's a troll here! You need a sword to fight!"@,
            Status::SpiderDefeated => "You've defeated the spider and found a snorkel on its body!"@,
            Status::FishIgnored => "You don't want to fish anymore!"@,
            Status::FishCaught => "You catch a fish with your harpoon! When you look inside the fish, you find a key.. Looks like the fish had something weird for dinner!"@,
            Status::FishOutOfReach => "You see a fish swimming by, but you have no tool to catch it!"@,
            Status::Swimming => "You are swimming like a cute little fish !"@,
            Status::WaterBlocked => "You cannot enter like this in the water, look around for something that may help you!"@,
            Status::ChestUncovered => "You chopped a tree... And found a chest!"@,
            Status::TreeChopped => "You chopped a tree!"@,
            Status::TreeNeedsTool => "You gonna need a tool if you want to interact with a tree!"@,
            Status::ChestEmpty => "Chest is empty. You already took the harpoon that was inside."@,
            Status::HarpoonFound => "You found a harpoon, but for what ?"@,
            Status::CastleEntered => "You enter the castle and there is a beautiful princess inside, you found love and are virtually happy for the rest of your virtual life. You can exit the simulation! Press Escape.."@,
            Status::CastleLocked => "Castle door is locked!"@,
            Status::Trapped => "It's a trap!!! You are trapped into the spider web, the spider is gonna come back soon and eat you alive. You die. Press Enter to continue..."@,
            Status::Blocked => "THIS MESSAGE SHOULD NEVER APPEAR, CONTACT THE GAME DEVELOPER!"@,
        }
    }

    /// The line that tells the player of this outcome.
    pub fn message(self) -> (line: String)
        ensures
            line@ == self.text(),
    {
        let text: &'static str = match self {
            Status::Welcome => "You are in a bizarre world full of weird emojis. And what am I doing inside a linux terminal?",
            Status::OutOfBounds => "Stay with us, don't try to leave",
            Status::Wandering => "You are wandering around!",
            Status::TrollDefeatedAxe => "You bravely fight and defeat the troll! He leaves an Axe on the ground!",
            Status::TrollDefeated => "You bravely fight and defeat the troll!",
            Status::TrollNeedsSword => "There's a troll here! You need a sword to fight!",
            Status::SpiderDefeated => "You've defeated the spider and found a snorkel on its body!",
            Status::FishIgnored => "You don't want to fish anymore!",
            Status::FishCaught => "You catch a fish with your harpoon! When you look inside the fish, you find a key.. Looks like the fish had something weird for dinner!",
            Status::FishOutOfReach => "You see a fish swimming by, but you have no tool to catch it!",
            Status::Swimming => "You are swimming like a cute little fish !",
            Status::WaterBlocked => "You cannot enter like this in the water, look around for something that may help you!",
            Status::ChestUncovered => "You chopped a tree... And found a chest!",
            Status::TreeChopped => "You chopped a tree!",
            Status::TreeNeedsTool => "You gonna need a tool if you want to interact with a tree!",
            Status::ChestEmpty => "Chest is empty. You already took the harpoon that was inside.",
            Status::HarpoonFound => "You found a harpoon, but for what ?",
            Status::CastleEntered => "You enter the castle and there is a beautiful princess inside, you found love and are virtually happy for the rest of your virtual life. You can exit the simulation! Press Escape..",
            Status::CastleLocked => "Castle door is locked!",
            Status::Trapped => "It's a trap!!! You are trapped into the spider web, the spider is gonna come back soon and eat you alive. You die. Press Enter to continue...",
            Status::Blocked => "THIS MESSAGE SHOULD NEVER APPEAR, CONTACT THE GAME DEVELOPER!",
        };
        text.to_owned()
    }
}

impl WorldView {
    /// This world with the player replaced.
    pub open spec fn with_player(self, player: PlayerView) -> WorldView {
        WorldView { player, ..self }
    }

    /// This world with the map replaced.
    pub open spec fn with_terrain(self, terrain: TerrainView) -> WorldView {
        WorldView { terrain, ..self }
    }

    /// This world without the creature at index `i`.
    pub open spec fn without_npc(self, i: int) -> WorldView {
        WorldView { npcs: self.npcs.remove(i), ..self }
    }
}

/// The chance, in percent, that a chopped tree hides the chest.
pub const CHEST_CHANCE: usize = 15;

/// The player walks onto the grass or sand at `(x, y)` and meets what stands there: a troll
/// first, then a spider.
pub open spec fn walk_onto(w: WorldView, x: int, y: int) -> (WorldView, Status) {
    let moved = w.with_player(w.player.moved_to(x, y));
    match first_npc(w.npcs, x, y, Some(NPCType::Troll)) {
        Some(i) => if w.player.has(ItemType::Sword) {
            if w.player.has(ItemType::Axe) {
                (moved.without_npc(i), Status::TrollDefeated)
            } else {
                (
                    moved.without_npc(i).with_player(moved.player.with_item(ItemType::Axe)),
                    Status::TrollDefeatedAxe,
                )
            }
        } else {
            (moved, Status::TrollNeedsSword)
        },
        None => match first_npc(w.npcs, x, y, Some(NPCType::Spider)) {
            Some(i) => (
                moved.without_npc(i).with_player(moved.player.with_item(ItemType::Snorkel)),
                Status::SpiderDefeated,
            ),
            None => (moved, Status::Wandering),
        },
    }
}

/// The player tries the water at `(x, y)`: a fish there is caught with a harpoon, unless the
/// key is held already; without a fish the player swims, given a snorkel.
pub open spec fn enter_water(w: WorldView, x: int, y: int) -> (WorldView, Status) {
    match first_npc(w.npcs, x, y, Some(NPCType::Fish)) {
        Some(i) => if w.player.has(ItemType::Harpoon) {
            if w.player.has(ItemType::Key) {
                (w, Status::FishIgnored)
            } else {
                (w.without_npc(i).with_player(w.player.with_item(ItemType::Key)), Status::FishCaught)
            }
        } else {
            (w, Status::FishOutOfReach)
        },
        None => if w.player.has(ItemType::Snorkel) {
            (w.with_player(w.player.moved_to(x, y)), Status::Swimming)
        } else {
            (w, Status::WaterBlocked)
        },
    }
}

/// The player chops the tree at `(x, y)`, given an axe. With a roll under `CHEST_CHANCE`,
/// and no chest found before, the tree leaves the chest; else it leaves grass.
pub open spec fn chop_tree(w: WorldView, x: int, y: int, roll: int) -> (WorldView, Status) {
    if w.player.has(ItemType::Axe) {
        if roll < 15 && !w.terrain.chest_found {
            (
                w.with_terrain(
                    TerrainView { chest_found: true, ..w.terrain.with_tile(x, y, TileType::Chest) },
                ),
                Status::ChestUncovered,
            )
        } else {
            (w.with_terrain(w.terrain.with_tile(x, y, TileType::Grass)), Status::TreeChopped)
        }
    } else {
        (w, Status::TreeNeedsTool)
    }
}

/// The player steps onto the chest at `(x, y)` and takes the harpoon, where it is not held
/// already.
pub open spec fn open_chest(w: WorldView, x: int, y: int) -> (WorldView, Status) {
    let moved = w.with_player(w.player.moved_to(x, y));
    if w.player.has(ItemType::Harpoon) {
        (moved, Status::ChestEmpty)
    } else {
        (moved.with_player(moved.player.with_item(ItemType::Harpoon)), Status::HarpoonFound)
    }
}

/// The player tries the castle at `(x, y)`: with the key it turns into the heart.
pub open spec fn enter_castle(w: WorldView, x: int, y: int) -> (WorldView, Status) {
    if w.player.has(ItemType::Key) {
        (w.with_terrain(w.terrain.with_tile(x, y, TileType::Heart)), Status::CastleEntered)
    } else {
        (w, Status::CastleLocked)
    }
}

/// The player steps into the spider's web at `(x, y)` and dies there.
pub open spec fn step_into_web(w: WorldView, x: int, y: int) -> (WorldView, Status) {
    (w.with_player(PlayerView { dead: true, ..w.player.moved_to(x, y) }), Status::Trapped)
}

/// The world and the outcome after the player tries one step in `direction`, where `roll`
/// is the number drawn for a chopped tree.
pub open spec fn player_turn(w: WorldView, direction: Direction, roll: int) -> (WorldView, Status) {
    let x = w.player.x + direction.dx();
    let y = w.player.y + direction.dy();
    if !in_grid(x, y) {
        (w, Status::OutOfBounds)
    } else {
        match w.terrain.at(x, y) {
            TileType::Grass | TileType::Sand => walk_onto(w, x, y),
            TileType::Water => enter_water(w, x, y),
            TileType::Tree => chop_tree(w, x, y, roll),
            TileType::Chest => open_chest(w, x, y),
            TileType::Castle => enter_castle(w, x, y),
            TileType::SpiderWeb => step_into_web(w, x, y),
            TileType::Mountain | TileType::Heart => (w, Status::Blocked),
        }
    }
}

/// Whether a step in `direction` can take the player to another cell: onto grass, sand, a
/// chest or a web, or into water without a fish, given a snorkel.
pub open spec fn may_move(w: WorldView, direction: Direction) -> bool {
    let x = w.player.x + direction.dx();
    let y = w.player.y + direction.dy();
    in_grid(x, y) && match w.terrain.at(x, y) {
        TileType::Grass | TileType::Sand | TileType::Chest | TileType::SpiderWeb => true,
        TileType::Water => w.player.has(ItemType::Snorkel) && first_npc(
            w.npcs,
            x,
            y,
            Some(NPCType::Fish),
        ) is None,
        _ => false,
    }
}

/// The player changes cell exactly on the steps that `may_move` names, and then to the
/// neighbouring cell in that direction. On every other step (off the map, against a
/// mountain, a tree, the castle or the heart, into water without a snorkel or where a fish
/// swims) the player stays.
pub proof fn lemma_movement_legality(w: WorldView, direction: Direction, roll: int)
    ensures
        may_move(w, direction) ==> player_turn(w, direction, roll).0.player.x == w.player.x
            + direction.dx() && player_turn(w, direction, roll).0.player.y == w.player.y
            + direction.dy(),
        !may_move(w, direction) ==> player_turn(w, direction, roll).0.player.x == w.player.x
            && player_turn(w, direction, roll).0.player.y == w.player.y,
{
}

/// Once a chest has been found, no step of the player makes another: every chest after the
/// step was one before it. And a step that makes a chest sets the flag.
pub proof fn lemma_single_chest(w: WorldView, direction: Direction, roll: int)
    requires
        w.wf(),
    ensures
        forall|x: int, y: int|
            #![trigger cell_index(x, y)]
            in_grid(x, y) && player_turn(w, direction, roll).0.terrain.at(x, y) == TileType::Chest
                && w.terrain.at(x, y) != TileType::Chest ==> !w.terrain.chest_found
                && player_turn(w, direction, roll).0.terrain.chest_found && roll < 15,
        w.terrain.chest_found ==> player_turn(w, direction, roll).0.terrain.chest_found,
{
}

/// A step of the player keeps the player and the creatures on the map.
pub proof fn lemma_player_turn_wf(w: WorldView, direction: Direction, roll: int)
    requires
        w.wf(),
    ensures
        player_turn(w, direction, roll).0.wf(),
        player_turn(w, direction, roll).0.npcs.len() <= w.npcs.len(),
{
    let x = w.player.x + direction.dx();
    let y = w.player.y + direction.dy();
    lemma_first_npc_found(w.npcs, x, y, Some(NPCType::Troll));
    lemma_first_npc_found(w.npcs, x, y, Some(NPCType::Spider));
    lemma_first_npc_found(w.npcs, x, y, Some(NPCType::Fish));
}

/// Resolves one step of the player in `direction`, with `roll` as the number drawn for a
/// chopped tree, and tells how it ended.
pub fn resolve_move(world: &mut World, direction: Direction, roll: usize) -> (status: Status)
    requires
        old(world)@.wf(),
    ensures
        final(world)@ == player_turn(old(world)@, direction, roll as int).0,
        status == player_turn(old(world)@, direction, roll as int).1,
        final(world)@.wf(),
{
    proof {
        lemma_player_turn_wf(world@, direction, roll as int);
    }
    let (dx, dy) = direction.offset();
    let destination_x: i32 = world.player.x + dx;
    let destination_y: i32 = world.player.y + dy;
    if destination_x < 0 || destination_y < 0 || destination_x >= TERRAIN_WIDTH as i32
        || destination_y >= TERRAIN_HEIGHT as i32 {
        return Status::OutOfBounds;
    }
    let x: usize = destination_x as usize;
    let y: usize = destination_y as usize;
    match world.terrain.tile(x, y) {
        TileType::Grass | TileType::Sand => {
            world.player.x = destination_x;
            world.player.y = destination_y;
            if let Some(npc_index) = world.find_npc(
                destination_x,
                destination_y,
                Some(NPCType::Troll),
            ) {
                proof {
                    lemma_first_npc_found(
                        world@.npcs,
                        destination_x as int,
                        destination_y as int,
                        Some(NPCType::Troll),
                    );
                }
                if world.player.has(ItemType::Sword) {
                    world.npcs.remove(npc_index);
                    if !world.player.has(ItemType::Axe) {
                        world.player.inventory.push(ItemType::Axe);
                        return Status::TrollDefeatedAxe;
                    } else {
                        return Status::TrollDefeated;
                    }
                } else {
                    return Status::TrollNeedsSword;
                }
            }
            if let Some(npc_index) = world.find_npc(
                destination_x,
                destination_y,
                Some(NPCType::Spider),
            ) {
                proof {
                    lemma_first_npc_found(
                        world@.npcs,
                        destination_x as int,
                        destination_y as int,
                        Some(NPCType::Spider),
                    );
                }
                world.npcs.remove(npc_index);
                world.player.inventory.push(ItemType::Snorkel);
                return Status::SpiderDefeated;
            }
            Status::Wandering
        },
        TileType::Water => {
            if let Some(npc_index) = world.find_npc(
                destination_x,
                destination_y,
                Some(NPCType::Fish),
            ) {
                proof {
                    lemma_first_npc_found(
                        world@.npcs,
                        destination_x as int,
                        destination_y as int,
                        Some(NPCType::Fish),
                    );
                }
                if world.player.has(ItemType::Harpoon) {
                    if world.player.has(ItemType::Key) {
                        Status::FishIgnored
                    } else {
                        world.npcs.remove(npc_index);
                        world.player.inventory.push(ItemType::Key);
                        Status::FishCaught
                    }
                } else {
                    Status::FishOutOfReach
                }
            } else {
                if world.player.has(ItemType::Snorkel) {
                    world.player.x = destination_x;
                    world.player.y = destination_y;
                    Status::Swimming
                } else {
                    Status::WaterBlocked
                }
            }
        },
        TileType::Tree => {
            if world.player.has(ItemType::Axe) {
                if roll < CHEST_CHANCE && !world.terrain.chest_found {
                    world.terrain.set_tile_if_in_bounds(x, y, TileType::Chest);
                    world.terrain.chest_found = true;
                    Status::ChestUncovered
                } else {
                    world.terrain.set_tile_if_in_bounds(x, y, TileType::Grass);
                    Status::TreeChopped
                }
            } else {
                Status::TreeNeedsTool
            }
        },
        TileType::Chest => {
            world.player.x = destination_x;
            world.player.y = destination_y;
            if world.player.has(ItemType::Harpoon) {
                Status::ChestEmpty
            } else {
                world.player.inventory.push(ItemType::Harpoon);
                Status::HarpoonFound
            }
        },
        TileType::Castle => {
            if world.player.has(ItemType::Key) {
                world.terrain.set_tile_if_in_bounds(x, y, TileType::Heart);
                Status::CastleEntered
            } else {
                Status::CastleLocked
            }
        },
        TileType::SpiderWeb => {
            world.player.x = destination_x;
            world.player.y = destination_y;
            world.player.dead = true;
            Status::Trapped
        },
        _ => Status::Blocked,
    }
}

/// Resolves one step of the player in `direction`, drawing the number for a chopped tree at
/// random, and returns the line that tells how it ended.
pub fn move_player(world: &mut World, direction: Direction) -> (status: String)
    requires
        old(world)@.wf(),
    ensures
        exists|roll: int|
            0 <= roll < 100 && final(world)@ == (#[trigger] player_turn(
                old(world)@,
                direction,
                roll,
            )).0 && status@ == player_turn(old(world)@, direction, roll).1.text(),
        final(world)@.wf(),
{
    let mut rng: ThreadRng = thread_rng();
    let roll: usize = roll_between(&mut rng, 0, 99);
    let outcome = resolve_move(world, direction, roll);
    outcome.message()
}

/// The numbers drawn for one creature's turn: one that decides whether it idles, one that
/// decides whether a spider leaves a web, and the order in which it tries the directions.
#[derive(Copy, Clone, Debug)]
pub struct NpcRoll {
    pub idle: usize,
    pub web: usize,
    pub order: [Direction; 4],
}

/// The chance, in percent, that a creature idles for a turn.
pub const IDLE_CHANCE: usize = 10;

/// The chance, in percent, that a spider leaves a web where it stands.
pub const WEB_CHANCE: usize = 15;

/// The four directions, clockwise from up.
pub open spec fn compass() -> Seq<Direction> {
    seq![Direction::Up, Direction::Right, Direction::Down, Direction::Left]
}

/// Whether `roll` can come out of a draw: two numbers under 100 and the four directions in
/// some order.
pub open spec fn possible_roll(roll: NpcRoll) -> bool {
    &&& roll.idle < 100
    &&& roll.web < 100
    &&& roll.order@.to_multiset() == compass().to_multiset()
}

/// Whether `npc` may move to `(x, y)`: a cell of the map that holds the tile of its kind and
/// is not the player's.
pub open spec fn npc_can_enter(w: WorldView, npc: NPC, x: int, y: int) -> bool {
    &&& !(x == w.player.x && y == w.player.y)
    &&& in_grid(x, y)
    &&& w.terrain.at(x, y) == npc.npc_type.home_tile()
}

/// Whether `npc` may take one step in `direction`.
pub open spec fn step_is_open(w: WorldView, npc: NPC, direction: Direction) -> bool {
    npc_can_enter(w, npc, npc.x + direction.dx(), npc.y + direction.dy())
}

/// The index, from `from` on, of the first direction in `order` in which `npc` may step.
pub open spec fn first_open_step(w: WorldView, npc: NPC, order: Seq<Direction>, from: int) -> Option<
    int,
>
    decreases order.len() - from,
{
    if from < 0 || from >= order.len() {
        None
    } else if step_is_open(w, npc, order[from]) {
        Some(from)
    } else {
        first_open_step(w, npc, order, from + 1)
    }
}

/// `npc` one step further in `direction`.
pub open spec fn stepped(npc: NPC, direction: Direction) -> NPC {
    NPC {
        x: (npc.x + direction.dx()) as i32,
        y: (npc.y + direction.dy()) as i32,
        npc_type: npc.npc_type,
    }
}

/// The world after the turn of the creature at index `i`. With an idle number under
/// `IDLE_CHANCE` nothing happens. Else a spider with a web number under `WEB_CHANCE` turns
/// the cell it stands on into a web, and the creature takes the first step of `roll.order`
/// that is open to it, if there is one.
pub open spec fn npc_turn(w: WorldView, i: int, roll: NpcRoll) -> WorldView {
    if !(0 <= i < w.npcs.len()) || roll.idle < 10 {
        w
    } else {
        let npc = w.npcs[i];
        let webbed = if npc.npc_type == NPCType::Spider && roll.web < 15 {
            w.with_terrain(w.terrain.with_tile(npc.x as int, npc.y as int, TileType::SpiderWeb))
        } else {
            w
        };
        match first_open_step(webbed, npc, roll.order@, 0) {
            Some(k) => WorldView { npcs: w.npcs.update(i, stepped(npc, roll.order@[k])), ..webbed },
            None => webbed,
        }
    }
}

/// The world after the turns of the first `upto` creatures, one after the other, each with
/// its own roll; a creature for which `rolls` holds none stays idle.
pub open spec fn npc_phase(w: WorldView, rolls: Seq<NpcRoll>, upto: int) -> WorldView
    decreases upto,
{
    if upto <= 0 {
        w
    } else {
        let before = npc_phase(w, rolls, upto - 1);
        if upto - 1 < rolls.len() {
            npc_turn(before, upto - 1, rolls[upto - 1])
        } else {
            before
        }
    }
}

/// A creature's turn leaves the player, the number of creatures, their kinds and every
/// other creature as they were. The creature itself stays or takes one step, onto a cell of
/// the map that holds the tile of its kind and is not the player's. The map changes at
/// most where the creature stood, and only into a web.
pub proof fn lemma_npc_turn_legal(w: WorldView, i: int, roll: NpcRoll)
    requires
        w.wf(),
        0 <= i < w.npcs.len(),
    ensures
        npc_turn(w, i, roll).wf(),
        npc_turn(w, i, roll).player == w.player,
        npc_turn(w, i, roll).npcs.len() == w.npcs.len(),
        forall|j: int|
            0 <= j < w.npcs.len() && j != i ==> npc_turn(w, i, roll).npcs[j] == w.npcs[j],
        npc_turn(w, i, roll).npcs[i].npc_type == w.npcs[i].npc_type,
        npc_turn(w, i, roll).npcs[i] == w.npcs[i] || exists|d: Direction|
            {
                &&& npc_turn(w, i, roll).npcs[i] == #[trigger] stepped(w.npcs[i], d)
                &&& npc_can_enter(
                    npc_turn(w, i, roll),
                    w.npcs[i],
                    w.npcs[i].x + d.dx(),
                    w.npcs[i].y + d.dy(),
                )
            },
        npc_turn(w, i, roll).terrain == w.terrain || npc_turn(w, i, roll).terrain
            == w.terrain.with_tile(w.npcs[i].x as int, w.npcs[i].y as int, TileType::SpiderWeb),
{
    if roll.idle >= 10 {
        let npc = w.npcs[i];
        let webbed = if npc.npc_type == NPCType::Spider && roll.web < 15 {
            w.with_terrain(w.terrain.with_tile(npc.x as int, npc.y as int, TileType::SpiderWeb))
        } else {
            w
        };
        lemma_first_open_step(webbed, npc, roll.order@, 0);
        match first_open_step(webbed, npc, roll.order@, 0) {
            Some(k) => {
                let d = roll.order@[k];
                assert(npc_turn(w, i, roll).npcs[i] == stepped(npc, d));
            },
            None => {},
        }
    }
}

/// Where `first_open_step` gives an index, the step at that index is open.
pub proof fn lemma_first_open_step(w: WorldView, npc: NPC, order: Seq<Direction>, from: int)
    ensures
        first_open_step(w, npc, order, from) matches Some(k) ==> from <= k < order.len()
            && step_is_open(w, npc, order[k]),
    decreases order.len() - from,
{
    if 0 <= from < order.len() && !step_is_open(w, npc, order[from]) {
        lemma_first_open_step(w, npc, order, from + 1);
    }
}

/// The turn of the creature at index `index`, with the numbers of `roll`.
pub fn move_npc(world: &mut World, index: usize, roll: &NpcRoll)
    requires
        old(world)@.wf(),
    ensures
        final(world)@ == npc_turn(old(world)@, index as int, *roll),
        final(world)@.wf(),
        final(world)@.npcs.len() == old(world)@.npcs.len(),
{
    if index >= world.npcs.len() || roll.idle < IDLE_CHANCE {
        return ;
    }
    let npc: NPC = world.npcs[index];
    if npc.npc_type == NPCType::Spider && roll.web < WEB_CHANCE {
        world.terrain.set_tile_if_in_bounds(npc.x as usize, npc.y as usize, TileType::SpiderWeb);
    }
    let ghost webbed = world@;
    let mut k: usize = 0;
    while k < 4
        invariant
            k <= 4,
            index < world.npcs.len(),
            world@ == webbed,
            webbed.wf(),
            in_grid(npc.x as int, npc.y as int),
            old(world)@.wf(),
            roll.idle >= 10,
            index < old(world)@.npcs.len(),
            npc == old(world)@.npcs[index as int],
            webbed == if npc.npc_type == NPCType::Spider && roll.web < 15 {
                old(world)@.with_terrain(
                    old(world)@.terrain.with_tile(npc.x as int, npc.y as int, TileType::SpiderWeb),
                )
            } else {
                old(world)@
            },
            first_open_step(webbed, npc, roll.order@, 0) == first_open_step(
                webbed,
                npc,
                roll.order@,
                k as int,
            ),
        decreases 4 - k,
    {
        let direction: Direction = roll.order[k];
        let (dx, dy) = direction.offset();
        let new_x: i32 = npc.x + dx;
        let new_y: i32 = npc.y + dy;
        if !(new_x == world.player.x && new_y == world.player.y) && new_x >= 0 && new_x
            < TERRAIN_WIDTH as i32 && new_y >= 0 && new_y < TERRAIN_HEIGHT as i32 {
            if world.terrain.tile(new_x as usize, new_y as usize) == npc.npc_type.allowed_tile() {
                world.npcs.set(index, NPC { x: new_x, y: new_y, npc_type: npc.npc_type });
                return ;
            }
        }
        k += 1;
    }
}

/// The turns of all creatures, in the order in which the world holds them, each with the
/// roll at its index; a creature for which `rolls` holds none stays idle. A creature sees
/// the moves of those before it.
pub fn move_npcs_with(world: &mut World, rolls: &Vec<NpcRoll>)
    requires
        old(world)@.wf(),
    ensures
        final(world)@ == npc_phase(old(world)@, rolls@, old(world)@.npcs.len() as int),
        final(world)@.wf(),
        final(world)@.npcs.len() == old(world)@.npcs.len(),
{
    let count: usize = world.npcs.len();
    let ghost start = world@;
    let mut i: usize = 0;
    while i < count
        invariant
            i <= count,
            world@.npcs.len() == count,
            world@.wf(),
            world@ == npc_phase(start, rolls@, i as int),
        decreases count - i,
    {
        if i < rolls.len() {
            move_npc(world, i, &rolls[i]);
        }
        i += 1;
    }
}

/// Draws the numbers for the turns of `count` creatures.
fn draw_npc_rolls(rng: &mut ThreadRng, count: usize) -> (rolls: Vec<NpcRoll>)
    ensures
        rolls@.len() == count,
        forall|i: int| 0 <= i < count ==> possible_roll(#[trigger] rolls@[i]),
{
    let mut rolls: Vec<NpcRoll> = Vec::new();
    let mut i: usize = 0;
    while i < count
        invariant
            i <= count,
            rolls@.len() == i,
            forall|k: int| 0 <= k < i ==> possible_roll(#[trigger] rolls@[k]),
        decreases count - i,
    {
        let idle: usize = roll_between(rng, 0, 99);
        let web: usize = roll_between(rng, 0, 99);
        let mut order: [Direction; 4] = [
            Direction::Up,
            Direction::Right,
            Direction::Down,
            Direction::Left,
        ];
        assert(order@ =~= compass());
        shuffle_directions(rng, &mut order);
        rolls.push(NpcRoll { idle, web, order });
        i += 1;
    }
    rolls
}

/// The turns of all creatures, with numbers drawn at random for each.
pub fn move_npcs(world: &mut World)
    requires
        old(world)@.wf(),
    ensures
        exists|rolls: Seq<NpcRoll>|
            {
                &&& rolls.len() == old(world)@.npcs.len()
                &&& forall|i: int| 0 <= i < rolls.len() ==> possible_roll(#[trigger] rolls[i])
                &&& final(world)@ == #[trigger] npc_phase(
                    old(world)@,
                    rolls,
                    old(world)@.npcs.len() as int,
                )
            },
        final(world)@.wf(),
        final(world)@.npcs.len() == old(world)@.npcs.len(),
{
    let mut rng: ThreadRng = thread_rng();
    let rolls = draw_npc_rolls(&mut rng, world.npcs.len());
    move_npcs_with(world, &rolls);
}

impl ItemType {
    /// The characters that show this item.
    pub open spec fn text(self) -> Seq<char> {
        match self {
            ItemType::Sword => "\u{1F5E1}\u{FE0F}"@,
            ItemType::Axe => "\u{1FA93}"@,
            ItemType::Harpoon => "\u{1F531}"@,
            ItemType::Snorkel => "\u{1F93F}"@,
            ItemType::Key => "\u{1F5DD}\u{FE0F}"@,
        }
    }

    /// The characters that show this item.
    pub fn symbol(self) -> (s: &'static str)
        ensures
            s@ == self.text(),
    {
        match self {
            ItemType::Sword => "\u{1F5E1}\u{FE0F}",
            ItemType::Axe => "\u{1FA93}",
            ItemType::Harpoon => "\u{1F531}",
            ItemType::Snorkel => "\u{1F93F}",
            ItemType::Key => "\u{1F5DD}\u{FE0F}",
        }
    }
}

/// The text of the first `upto` items: each item's characters and two spaces.
pub open spec fn inventory_text(items: Seq<ItemType>, upto: int) -> Seq<char>
    decreases upto,
{
    if upto <= 0 {
        Seq::empty()
    } else {
        inventory_text(items, upto - 1) + items[upto - 1].text() + "  "@
    }
}

/// What the player holds, as text: the items in the order in which they were taken, each
/// followed by two spaces.
pub fn inventory_line(player: &Player) -> (line: String)
    ensures
        line@ == inventory_text(player@.inventory, player@.inventory.len() as int),
{
    let mut line = String::new();
    let mut i: usize = 0;
    while i < player.inventory.len()
        invariant
            i <= player.inventory.len(),
            line@ == inventory_text(player@.inventory, i as int),
        decreases player.inventory.len() - i,
    {
        let item: ItemType = player.inventory[i];
        line.append(item.symbol());
        line.append("  ");
        i += 1;
    }
    line
}

/// What the player's keyboard can say.
#[derive(Copy, Clone, PartialEq, Eq, Structural, Debug)]
pub enum Input {
    /// One of the four arrows.
    Move(Direction),
    /// The key that ends the session.
    Quit,
    /// The key that confirms the player's death.
    Confirm,
    /// Any other key, or none.
    Other,
}

/// Where a session stands.
#[derive(Copy, Clone, PartialEq, Eq, Structural, Debug)]
pub enum Phase {
    /// Turns are played.
    Running,
    /// The player has died; only the confirming key is heard.
    AwaitingConfirmation,
    /// The session is over.
    Terminated,
}

/// What the caller has to do after an input.
#[derive(Copy, Clone, PartialEq, Eq, Structural, Debug)]
pub enum Action {
    /// Show the world and the status again.
    Redraw,
    /// Nothing: wait for the next input.
    Wait,
    /// Leave.
    Exit,
}

/// The numbers drawn for one turn: one for a chopped tree, and one roll for each creature.
#[derive(Clone, Debug)]
pub struct TurnRolls {
    pub chop: usize,
    pub npcs: Vec<NpcRoll>,
}

/// A game in progress: the world, the line that tells of the player's last step, and the
/// phase.
#[derive(Clone, Debug)]
pub struct Session {
    pub world: World,
    pub status: String,
    pub phase: Phase,
}

/// The mathematical content of a [`Session`].
pub struct SessionView {
    pub world: WorldView,
    pub status: Seq<char>,
    pub phase: Phase,
}

impl View for Session {
    type V = SessionView;

    open spec fn view(&self) -> SessionView {
        SessionView { world: self.world@, status: self.status@, phase: self.phase }
    }
}

/// The world and the status after one turn: the player's step, where `input` asks for one,
/// then the turns of the creatures.
pub open spec fn turn(
    w: WorldView,
    status: Seq<char>,
    input: Input,
    chop: int,
    npc_rolls: Seq<NpcRoll>,
) -> (WorldView, Seq<char>) {
    let (moved, told) = match input {
        Input::Move(direction) => (
            player_turn(w, direction, chop).0,
            player_turn(w, direction, chop).1.text(),
        ),
        _ => (w, status),
    };
    (npc_phase(moved, npc_rolls, moved.npcs.len() as int), told)
}

/// The session after `input`. While it runs, the quitting key ends it and every other input
/// plays a turn, after which a dead player sends it to wait for confirmation. While it
/// waits, only the confirming key is heard, and ends it. Once over, it stays as it is.
pub open spec fn session_step(
    s: SessionView,
    input: Input,
    chop: int,
    npc_rolls: Seq<NpcRoll>,
) -> SessionView {
    match s.phase {
        Phase::Running => if input == Input::Quit {
            SessionView { phase: Phase::Terminated, ..s }
        } else {
            let after = turn(s.world, s.status, input, chop, npc_rolls);
            SessionView {
                world: after.0,
                status: after.1,
                phase: if after.0.player.dead {
                    Phase::AwaitingConfirmation
                } else {
                    Phase::Running
                },
            }
        },
        Phase::AwaitingConfirmation => if input == Input::Confirm {
            SessionView { phase: Phase::Terminated, ..s }
        } else {
            s
        },
        Phase::Terminated => s,
    }
}

/// What the caller has to do after `input` came in `phase`.
pub open spec fn action_for(phase: Phase, input: Input) -> Action {
    match phase {
        Phase::Running => if input == Input::Quit {
            Action::Exit
        } else {
            Action::Redraw
        },
        Phase::AwaitingConfirmation => if input == Input::Confirm {
            Action::Exit
        } else {
            Action::Wait
        },
        Phase::Terminated => Action::Exit,
    }
}

/// Once the player has died or the session is over, no input changes the world or the
/// status: a session that waits for confirmation ends on the confirming key and ignores
/// every other, and a session that is over stays over.
pub proof fn lemma_no_turn_after_death(
    s: SessionView,
    input: Input,
    chop: int,
    npc_rolls: Seq<NpcRoll>,
)
    requires
        s.phase != Phase::Running,
    ensures
        session_step(s, input, chop, npc_rolls).world == s.world,
        session_step(s, input, chop, npc_rolls).status == s.status,
        session_step(s, input, chop, npc_rolls).phase == if s.phase == Phase::AwaitingConfirmation
            && input != Input::Confirm {
            Phase::AwaitingConfirmation
        } else {
            Phase::Terminated
        },
{
}

/// A turn in which the player dies takes the running session to the wait for confirmation.
pub proof fn lemma_death_stops_the_turns(
    s: SessionView,
    input: Input,
    chop: int,
    npc_rolls: Seq<NpcRoll>,
)
    requires
        s.phase == Phase::Running,
        input != Input::Quit,
    ensures
        session_step(s, input, chop, npc_rolls).phase == Phase::AwaitingConfirmation
            <==> session_step(s, input, chop, npc_rolls).world.player.dead,
        session_step(s, input, chop, npc_rolls).phase != Phase::Terminated,
{
}

impl Session {
    /// A new game: a new world, the welcoming line, and turns to be played.
    pub fn new() -> (session: Session)
        ensures
            session@.world.wf(),
            session@.world.terrain.is_generated(),
            session@.world.terrain.border_is_mountain(),
            session@.world.terrain.has_one_castle(),
            session@.world.terrain.forest_apart_from_pond(),
            session@.world.npcs_at_home(),
            session@.world.npcs.len() == 8,
            session@.world.player.inventory == seq![ItemType::Sword],
            !session@.world.player.dead,
            session@.status == Status::Welcome.text(),
            session@.phase == Phase::Running,
    {
        Session { world: World::new(), status: Status::Welcome.message(), phase: Phase::Running }
    }

    /// Takes one input, with the numbers of `rolls` for the turn that it may start, and
    /// tells the caller what to do next.
    pub fn advance(&mut self, input: Input, rolls: &TurnRolls) -> (action: Action)
        requires
            old(self)@.world.wf(),
        ensures
            final(self)@ == session_step(old(self)@, input, rolls.chop as int, rolls.npcs@),
            action == action_for(old(self)@.phase, input),
            final(self)@.world.wf(),
    {
        match self.phase {
            Phase::Running => {
                match input {
                    Input::Quit => {
                        self.phase = Phase::Terminated;
                        return Action::Exit;
                    },
                    Input::Move(direction) => {
                        let outcome = resolve_move(&mut self.world, direction, rolls.chop);
                        self.status = outcome.message();
                    },
                    _ => {},
                }
                move_npcs_with(&mut self.world, &rolls.npcs);
                if self.world.player.dead {
                    self.phase = Phase::AwaitingConfirmation;
                }
                Action::Redraw
            },
            Phase::AwaitingConfirmation => {
                match input {
                    Input::Confirm => {
                        self.phase = Phase::Terminated;
                        Action::Exit
                    },
                    _ => Action::Wait,
                }
            },
            Phase::Terminated => Action::Exit,
        }
    }

    /// Takes one input, drawing at random the numbers for the turn that it may start, and
    /// tells the caller what to do next.
    pub fn handle(&mut self, input: Input) -> (action: Action)
        requires
            old(self)@.world.wf(),
        ensures
            exists|chop: int, npc_rolls: Seq<NpcRoll>|
                {
                    &&& 0 <= chop < 100
                    &&& forall|i: int|
                        0 <= i < npc_rolls.len() ==> possible_roll(#[trigger] npc_rolls[i])
                    &&& old(self)@.phase == Phase::Running && input != Input::Quit
                        ==> npc_rolls.len() == old(self)@.world.npcs.len()
                    &&& final(self)@ == #[trigger] session_step(old(self)@, input, chop, npc_rolls)
                },
            action == action_for(old(self)@.phase, input),
            final(self)@.world.wf(),
    {
        let mut rolls = TurnRolls { chop: 0, npcs: Vec::new() };
        let turn_due = match self.phase {
            Phase::Running => match input {
                Input::Quit => false,
                _ => true,
            },
            _ => false,
        };
        if turn_due {
            let mut rng: ThreadRng = thread_rng();
            rolls.chop = roll_between(&mut rng, 0, 99);
            rolls.npcs = draw_npc_rolls(&mut rng, self.world.npcs.len());
        }
        self.advance(input, &rolls)
    }
}

} // verus!

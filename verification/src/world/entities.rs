use crate::world::terrain::TileType;
use vstd::prelude::*;

verus! {

/// The player's token: where it stands, what it holds, and whether it has died.
#[derive(Clone, Debug)]
pub struct Player {
    pub x: i32,
    pub y: i32,
    pub name: String,
    pub inventory: Vec<ItemType>,
    pub dead: bool,
}

/// The mathematical content of a [`Player`].
pub struct PlayerView {
    pub x: int,
    pub y: int,
    pub name: Seq<char>,
    pub inventory: Seq<ItemType>,
    pub dead: bool,
}

impl View for Player {
    type V = PlayerView;

    open spec fn view(&self) -> PlayerView {
        PlayerView {
            x: self.x as int,
            y: self.y as int,
            name: self.name@,
            inventory: self.inventory@,
            dead: self.dead,
        }
    }
}

impl PlayerView {
    /// Whether the player holds `item`.
    pub open spec fn has(self, item: ItemType) -> bool {
        self.inventory.contains(item)
    }

    /// This player at `(x, y)`.
    pub open spec fn moved_to(self, x: int, y: int) -> PlayerView {
        PlayerView { x, y, ..self }
    }

    /// This player with `item` added at the end of the inventory.
    pub open spec fn with_item(self, item: ItemType) -> PlayerView {
        PlayerView { inventory: self.inventory.push(item), ..self }
    }
}

impl Player {
    /// Whether the player holds `item`.
    pub fn has(&self, item: ItemType) -> (held: bool)
        ensures
            held == self@.has(item),
    {
        let mut i: usize = 0;
        while i < self.inventory.len()
            invariant
                i <= self.inventory.len(),
                forall|k: int| 0 <= k < i ==> self.inventory@[k] != item,
            decreases self.inventory.len() - i,
        {
            if self.inventory[i] == item {
                return true;
            }
            i += 1;
        }
        false
    }
}

/// A creature of the map: where it stands and what it is.
#[derive(Copy, Clone, PartialEq, Eq, Structural, Debug)]
pub struct NPC {
    pub x: i32,
    pub y: i32,
    pub npc_type: NPCType,
}

/// The place of a chest on the map.
#[derive(Copy, Clone, PartialEq, Eq, Structural, Debug)]
pub struct Chest {
    pub x: i32,
    pub y: i32,
}

/// What the player can hold.
#[derive(Copy, Clone, PartialEq, Eq, Structural, Debug)]
pub enum ItemType {
    Sword,
    Axe,
    Harpoon,
    Snorkel,
    Key,
}

/// The kinds of creature.
#[derive(Copy, Clone, PartialEq, Eq, Structural, Debug)]
pub enum NPCType {
    Fish,
    Troll,
    Spider,
}

impl NPCType {
    /// The tile on which a creature of this kind appears and onto which it moves.
    pub open spec fn home_tile(self) -> TileType {
        match self {
            NPCType::Fish => TileType::Water,
            NPCType::Troll => TileType::Grass,
            NPCType::Spider => TileType::Grass,
        }
    }

    /// The tile on which a creature of this kind appears and onto which it moves.
    pub fn allowed_tile(self) -> (tile: TileType)
        ensures
            tile == self.home_tile(),
    {
        match self {
            NPCType::Fish => TileType::Water,
            NPCType::Troll => TileType::Grass,
            NPCType::Spider => TileType::Grass,
        }
    }
}

/// One of the four ways to step.
#[derive(Copy, Clone, PartialEq, Eq, Structural, Debug)]
pub enum Direction {
    Up,
    Right,
    Down,
    Left,
}

impl Direction {
    /// The change of the column that a step in this direction makes.
    pub open spec fn dx(self) -> int {
        match self {
            Direction::Up => 0,
            Direction::Right => 1,
            Direction::Down => 0,
            Direction::Left => -1,
        }
    }

    /// The change of the row that a step in this direction makes.
    pub open spec fn dy(self) -> int {
        match self {
            Direction::Up => -1,
            Direction::Right => 0,
            Direction::Down => 1,
            Direction::Left => 0,
        }
    }

    /// The change of column and row that a step in this direction makes.
    pub fn offset(self) -> (step: (i32, i32))
        ensures
            step.0 == self.dx(),
            step.1 == self.dy(),
    {
        match self {
            Direction::Up => (0, -1),
            Direction::Right => (1, 0),
            Direction::Down => (0, 1),
            Direction::Left => (-1, 0),
        }
    }
}

} // verus!

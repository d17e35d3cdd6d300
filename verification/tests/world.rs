use emoji_world::world::entities::{Chest, Direction, ItemType, NPCType, Player, NPC};
use emoji_world::world::terrain::{Terrain, TileType, TERRAIN_HEIGHT, TERRAIN_WIDTH};
use emoji_world::world::{Glyph, World, SPAWN_ATTEMPTS};

fn field() -> World {
    World {
        terrain: Terrain::blank(),
        player: Player {
            x: 10,
            y: 10,
            name: String::from("alk"),
            inventory: vec![ItemType::Sword],
            dead: false,
        },
        npcs: Vec::new(),
    }
}

fn tile_under(world: &World, npc: &NPC) -> TileType {
    world.terrain.tile(npc.x as usize, npc.y as usize)
}

#[test]
fn allowed_tile_of_each_kind() {
    assert_eq!(NPCType::Fish.allowed_tile(), TileType::Water);
    assert_eq!(NPCType::Troll.allowed_tile(), TileType::Grass);
    assert_eq!(NPCType::Spider.allowed_tile(), TileType::Grass);
}

#[test]
fn direction_offsets() {
    assert_eq!(Direction::Up.offset(), (0, -1));
    assert_eq!(Direction::Right.offset(), (1, 0));
    assert_eq!(Direction::Down.offset(), (0, 1));
    assert_eq!(Direction::Left.offset(), (-1, 0));
}

#[test]
fn player_has_tells_what_is_held() {
    let mut player = field().player;
    assert!(player.has(ItemType::Sword));
    assert!(!player.has(ItemType::Axe));
    player.inventory.push(ItemType::Key);
    player.inventory.push(ItemType::Key);
    assert!(player.has(ItemType::Key));
    player.inventory.clear();
    assert!(!player.has(ItemType::Sword));
}

#[test]
fn chest_holds_a_place() {
    let chest = Chest { x: 4, y: 9 };
    assert_eq!(chest, Chest { x: 4, y: 9 });
    assert_eq!((chest.x, chest.y), (4, 9));
}

#[test]
fn new_world_starts_as_stated() {
    for _ in 0..10 {
        let world = World::new();
        assert!(world.is_valid());
        assert_eq!(world.player.name, "alk");
        assert_eq!(world.player.inventory, vec![ItemType::Sword]);
        assert!(!world.player.dead);
        assert!(!world.terrain.chest_found);
        assert_eq!(
            world.terrain.tile(world.player.x as usize, world.player.y as usize),
            TileType::Grass
        );
        assert_eq!(world.npcs.len(), 8);
        for npc in &world.npcs[..3] {
            assert_eq!(npc.npc_type, NPCType::Fish);
        }
        for npc in &world.npcs[3..] {
            assert_eq!(npc.npc_type, NPCType::Troll);
        }
    }
}

#[test]
fn every_spawned_npc_stands_on_its_home_tile() {
    for _ in 0..10 {
        let mut world = World::new();
        world.spawn_npc(NPCType::Spider);
        world.spawn_npc(NPCType::Fish);
        assert_eq!(world.npcs.len(), 10);
        assert_eq!(world.npcs[8].npc_type, NPCType::Spider);
        assert_eq!(world.npcs[9].npc_type, NPCType::Fish);
        for npc in &world.npcs {
            assert_eq!(tile_under(&world, npc), npc.npc_type.allowed_tile());
        }
        assert!(world.is_valid());
    }
}

#[test]
fn spawn_keeps_what_was_there() {
    let mut world = field();
    world.npcs.push(NPC { x: 3, y: 4, npc_type: NPCType::Troll });
    world.spawn_npc(NPCType::Troll);
    assert_eq!(world.npcs.len(), 2);
    assert_eq!(world.npcs[0], NPC { x: 3, y: 4, npc_type: NPCType::Troll });
    assert_eq!((world.player.x, world.player.y), (10, 10));
    assert_eq!(world.terrain.tiles.to_vec(), Terrain::blank().tiles.to_vec());
}

#[test]
fn spawn_location_matches_the_tile_even_when_it_is_rare() {
    assert_eq!(SPAWN_ATTEMPTS, 10000);
    let mut terrain = Terrain::blank();
    terrain.tiles[17 * 100 + 42] = TileType::Water;
    for _ in 0..5 {
        assert_eq!(World::find_spawn_location(&terrain, TileType::Water), (42, 17));
    }
}

#[test]
fn spawn_locations_are_spread() {
    let terrain = Terrain::blank();
    let first = World::find_spawn_location(&terrain, TileType::Grass);
    let mut other = false;
    for _ in 0..50 {
        let place = World::find_spawn_location(&terrain, TileType::Grass);
        assert!(place.0 >= 0 && place.0 < 100 && place.1 >= 0 && place.1 < 50);
        if place != first {
            other = true;
        }
    }
    assert!(other);
}

#[test]
fn is_valid_wants_everyone_on_the_map() {
    let mut world = field();
    assert!(world.is_valid());
    world.player.x = 100;
    assert!(!world.is_valid());
    world.player.x = -1;
    assert!(!world.is_valid());
    world.player.x = 99;
    world.player.y = 50;
    assert!(!world.is_valid());
    world.player.y = 49;
    assert!(world.is_valid());
    world.npcs.push(NPC { x: 0, y: 0, npc_type: NPCType::Fish });
    assert!(world.is_valid());
    world.npcs.push(NPC { x: 5, y: -3, npc_type: NPCType::Fish });
    assert!(!world.is_valid());
}

#[test]
fn find_npc_gives_the_first_match() {
    let mut world = field();
    world.npcs.push(NPC { x: 1, y: 1, npc_type: NPCType::Fish });
    world.npcs.push(NPC { x: 2, y: 2, npc_type: NPCType::Spider });
    world.npcs.push(NPC { x: 2, y: 2, npc_type: NPCType::Troll });
    world.npcs.push(NPC { x: 2, y: 2, npc_type: NPCType::Troll });
    assert_eq!(world.find_npc(2, 2, None), Some(1));
    assert_eq!(world.find_npc(2, 2, Some(NPCType::Troll)), Some(2));
    assert_eq!(world.find_npc(2, 2, Some(NPCType::Fish)), None);
    assert_eq!(world.find_npc(1, 1, Some(NPCType::Fish)), Some(0));
    assert_eq!(world.find_npc(1, 2, None), None);
}

#[test]
fn glyph_prefers_player_then_npc_then_ground() {
    let mut world = field();
    world.terrain.tiles[10 * 100 + 10] = TileType::Sand;
    world.terrain.tiles[10 * 100 + 11] = TileType::Water;
    world.npcs.push(NPC { x: 10, y: 10, npc_type: NPCType::Troll });
    world.npcs.push(NPC { x: 11, y: 10, npc_type: NPCType::Fish });
    world.npcs.push(NPC { x: 11, y: 10, npc_type: NPCType::Spider });
    assert_eq!(world.glyph_at(10, 10), Glyph::Player);
    assert_eq!(world.glyph_at(11, 10), Glyph::Creature(NPCType::Fish));
    assert_eq!(world.glyph_at(12, 10), Glyph::Ground(TileType::Grass));
    world.npcs.remove(1);
    assert_eq!(world.glyph_at(11, 10), Glyph::Creature(NPCType::Spider));
    world.npcs.remove(1);
    assert_eq!(world.glyph_at(11, 10), Glyph::Ground(TileType::Water));
    world.player.x = 0;
    assert_eq!(world.glyph_at(10, 10), Glyph::Creature(NPCType::Troll));
}

#[test]
fn glyph_symbols() {
    assert_eq!(Glyph::Player.symbol(), "\u{1F3C3}");
    assert_eq!(Glyph::Creature(NPCType::Fish).symbol(), "\u{1F420}");
    assert_eq!(Glyph::Creature(NPCType::Troll).symbol(), "\u{1F479}");
    assert_eq!(Glyph::Creature(NPCType::Spider).symbol(), "\u{1F577}");
    assert_eq!(Glyph::Ground(TileType::Grass).symbol(), "\u{1F7E9}");
    assert_eq!(Glyph::Ground(TileType::Tree).symbol(), "\u{1F332}");
    assert_eq!(Glyph::Ground(TileType::Water).symbol(), "\u{1F4A7}");
    assert_eq!(Glyph::Ground(TileType::Mountain).symbol(), "\u{1F5FB}");
    assert_eq!(Glyph::Ground(TileType::Sand).symbol(), "\u{1F7E8}");
    assert_eq!(Glyph::Ground(TileType::Castle).symbol(), "\u{1F3F0}");
    assert_eq!(Glyph::Ground(TileType::Chest).symbol(), "\u{1F4E6}");
    assert_eq!(Glyph::Ground(TileType::SpiderWeb).symbol(), "\u{1F578}");
    assert_eq!(Glyph::Ground(TileType::Heart).symbol(), "\u{1F496}");
}

#[test]
fn snapshot_holds_every_cell_row_by_row() {
    let mut world = field();
    world.terrain.tiles[0] = TileType::Mountain;
    world.terrain.tiles[4999] = TileType::Heart;
    world.npcs.push(NPC { x: 99, y: 0, npc_type: NPCType::Spider });
    let grid = world.render_snapshot();
    assert_eq!(grid.len(), TERRAIN_WIDTH * TERRAIN_HEIGHT);
    assert_eq!(grid[0], Glyph::Ground(TileType::Mountain));
    assert_eq!(grid[99], Glyph::Creature(NPCType::Spider));
    assert_eq!(grid[10 * 100 + 10], Glyph::Player);
    assert_eq!(grid[4999], Glyph::Ground(TileType::Heart));
    for y in 0..TERRAIN_HEIGHT {
        for x in 0..TERRAIN_WIDTH {
            assert_eq!(grid[y * 100 + x], world.glyph_at(x, y));
        }
    }
}

#[test]
fn rendering_twice_gives_the_same() {
    let world = World::new();
    assert_eq!(world.render_snapshot(), world.render_snapshot());
    assert_eq!(world.draw_to_string(), world.draw_to_string());
}

#[test]
fn drawing_has_one_line_for_each_row() {
    let mut world = field();
    world.player.x = 1;
    world.player.y = 0;
    world.terrain.tiles[0] = TileType::Mountain;
    world.terrain.tiles[2] = TileType::Tree;
    world.npcs.push(NPC { x: 0, y: 1, npc_type: NPCType::Troll });
    let text = world.draw_to_string();
    assert!(text.ends_with("\r\n"));
    let lines: Vec<&str> = text.split("\r\n").collect();
    assert_eq!(lines.len(), TERRAIN_HEIGHT + 1);
    assert_eq!(lines[TERRAIN_HEIGHT], "");
    for line in &lines[..TERRAIN_HEIGHT] {
        assert_eq!(line.chars().count(), TERRAIN_WIDTH);
    }
    let mut first = String::from("\u{1F5FB}\u{1F3C3}\u{1F332}");
    first.push_str(&"\u{1F7E9}".repeat(97));
    assert_eq!(lines[0], first);
    let mut second = String::from("\u{1F479}");
    second.push_str(&"\u{1F7E9}".repeat(99));
    assert_eq!(lines[1], second);
    assert_eq!(lines[2], "\u{1F7E9}".repeat(100));
}

#[test]
fn drawing_is_the_snapshot_as_text() {
    let world = World::new();
    let grid = world.render_snapshot();
    let mut expected = String::new();
    for y in 0..TERRAIN_HEIGHT {
        for x in 0..TERRAIN_WIDTH {
            expected.push_str(grid[y * 100 + x].symbol());
        }
        expected.push_str("\r\n");
    }
    assert_eq!(world.draw_to_string(), expected);
}

#[test]
fn a_player_off_the_map_is_not_drawn() {
    let mut world = field();
    world.player.x = -1;
    world.player.y = 0;
    assert!(!world.render_snapshot().contains(&Glyph::Player));
}

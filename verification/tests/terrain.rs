use emoji_world::world::terrain::{
    axis_gap, cell_distance_squared, far_pond_center, lesser, overlaps, Terrain, TileType,
    FOREST_RADIUS, PLACEMENT_ATTEMPTS, POND_RADIUS, TERRAIN_HEIGHT, TERRAIN_SIZE, TERRAIN_WIDTH,
};
use emoji_world::world::first_cell_of;

fn count(terrain: &Terrain, tile: TileType) -> usize {
    terrain.tiles.iter().filter(|t| **t == tile).count()
}

fn castle_of(terrain: &Terrain) -> (usize, usize) {
    first_cell_of(terrain, TileType::Castle).expect("a generated map has a castle")
}

#[test]
fn constants_describe_the_map() {
    assert_eq!(TERRAIN_WIDTH, 100);
    assert_eq!(TERRAIN_HEIGHT, 50);
    assert_eq!(TERRAIN_SIZE, TERRAIN_WIDTH * TERRAIN_HEIGHT);
    assert_eq!(FOREST_RADIUS, 10);
    assert_eq!(POND_RADIUS, 15);
    assert_eq!(PLACEMENT_ATTEMPTS, 10000);
}

#[test]
fn blank_map_is_all_grass() {
    let terrain = Terrain::blank();
    assert_eq!(terrain.tiles.len(), 5000);
    assert_eq!(count(&terrain, TileType::Grass), 5000);
    assert!(!terrain.chest_found);
}

#[test]
fn tile_reads_row_major() {
    let mut terrain = Terrain::blank();
    terrain.tiles[3 * 100 + 7] = TileType::Chest;
    assert_eq!(terrain.tile(7, 3), TileType::Chest);
    assert_eq!(terrain.tile(3, 7), TileType::Grass);
}

#[test]
fn set_tile_writes_inside_and_skips_outside() {
    let mut terrain = Terrain::blank();
    terrain.set_tile_if_in_bounds(99, 49, TileType::Sand);
    assert_eq!(terrain.tiles[4999], TileType::Sand);
    terrain.set_tile_if_in_bounds(100, 0, TileType::Tree);
    terrain.set_tile_if_in_bounds(0, 50, TileType::Tree);
    terrain.set_tile_if_in_bounds(usize::MAX, usize::MAX, TileType::Tree);
    assert_eq!(count(&terrain, TileType::Tree), 0);
    assert_eq!(count(&terrain, TileType::Grass), 4999);
}

#[test]
fn distances_are_exact() {
    assert_eq!(axis_gap(3, 10), 7);
    assert_eq!(axis_gap(10, 3), 7);
    assert_eq!(axis_gap(5, 5), 0);
    assert_eq!(cell_distance_squared(70, 25, 79, 37), 81 + 144);
    assert_eq!(cell_distance_squared(0, 0, 99, 49), 9801 + 2401);
    assert_eq!(cell_distance_squared(4, 4, 4, 4), 0);
    assert_eq!(lesser(3, 9), 3);
    assert_eq!(lesser(9, 3), 3);
}

#[test]
fn overlap_is_found_exactly() {
    // Centres 26 columns apart on one row: the diamond ends at 30, the disc begins at 31.
    assert!(!overlaps(20, 25, 46, 25));
    // One column closer they share the cell (30, 25).
    assert!(overlaps(20, 25, 45, 25));
    assert!(overlaps(40, 25, 50, 25));
    assert!(!overlaps(12, 12, 81, 31));
}

#[test]
fn far_pond_center_is_on_the_other_side() {
    assert_eq!(far_pond_center(12, 12), (81, 25));
    assert_eq!(far_pond_center(50, 38), (81, 25));
    assert_eq!(far_pond_center(51, 20), (19, 25));
    assert_eq!(far_pond_center(88, 25), (19, 25));
    assert!(!overlaps(50, 25, 81, 25));
    assert!(!overlaps(51, 25, 19, 25));
}

#[test]
fn from_centers_refuses_centres_without_margin() {
    assert!(Terrain::from_centers(11, 20, 70, 25).is_none());
    assert!(Terrain::from_centers(89, 20, 30, 25).is_none());
    assert!(Terrain::from_centers(20, 11, 70, 25).is_none());
    assert!(Terrain::from_centers(20, 39, 70, 25).is_none());
    assert!(Terrain::from_centers(20, 20, 18, 25).is_none());
    assert!(Terrain::from_centers(20, 20, 82, 25).is_none());
    assert!(Terrain::from_centers(20, 20, 70, 18).is_none());
    assert!(Terrain::from_centers(20, 20, 70, 32).is_none());
    assert!(Terrain::from_centers(12, 12, 81, 31).is_some());
    assert!(Terrain::from_centers(88, 38, 19, 19).is_some());
}

#[test]
fn from_centers_refuses_overlapping_shapes() {
    assert!(Terrain::from_centers(20, 25, 45, 25).is_none());
    assert!(Terrain::from_centers(50, 25, 50, 25).is_none());
    assert!(Terrain::from_centers(20, 25, 46, 25).is_some());
}

#[test]
fn laid_out_map_has_the_stated_tiles() {
    let terrain = Terrain::from_centers(20, 20, 70, 25).expect("the shapes are far apart");
    assert!(!terrain.chest_found);
    // The border.
    assert_eq!(terrain.tile(0, 0), TileType::Mountain);
    assert_eq!(terrain.tile(99, 49), TileType::Mountain);
    assert_eq!(terrain.tile(50, 0), TileType::Mountain);
    assert_eq!(terrain.tile(0, 30), TileType::Mountain);
    assert_eq!(terrain.tile(1, 1), TileType::Grass);
    // The castle, its island and the apron.
    assert_eq!(terrain.tile(70, 25), TileType::Castle);
    assert_eq!(terrain.tile(71, 25), TileType::Grass);
    assert_eq!(terrain.tile(69, 24), TileType::Grass);
    assert_eq!(terrain.tile(72, 25), TileType::Sand);
    assert_eq!(terrain.tile(68, 27), TileType::Sand);
    assert_eq!(terrain.tile(71, 23), TileType::Sand);
    // The pond and its beach.
    assert_eq!(terrain.tile(73, 25), TileType::Water);
    assert_eq!(terrain.tile(85, 25), TileType::Water);
    assert_eq!(terrain.tile(79, 37), TileType::Water);
    assert_eq!(terrain.tile(86, 25), TileType::Sand);
    assert_eq!(terrain.tile(70, 41), TileType::Sand);
    assert_eq!(terrain.tile(80, 37), TileType::Sand);
    assert_eq!(terrain.tile(87, 25), TileType::Grass);
    // The forest.
    assert_eq!(terrain.tile(20, 20), TileType::Tree);
    assert_eq!(terrain.tile(30, 20), TileType::Tree);
    assert_eq!(terrain.tile(25, 25), TileType::Tree);
    assert_eq!(terrain.tile(31, 20), TileType::Grass);
    assert_eq!(terrain.tile(26, 25), TileType::Grass);
}

#[test]
fn laid_out_map_has_the_stated_counts() {
    let terrain = Terrain::from_centers(20, 20, 70, 25).expect("the shapes are far apart");
    assert_eq!(count(&terrain, TileType::Mountain), 2 * 100 + 2 * 48);
    assert_eq!(count(&terrain, TileType::Castle), 1);
    // A diamond of radius 10 has 2 * 10 * 11 + 1 cells.
    assert_eq!(count(&terrain, TileType::Tree), 221);
    // A disc of radius 15 has 709 cells; 25 of them are the castle, its island and the apron.
    assert_eq!(count(&terrain, TileType::Water), 709 - 25);
    // The ring between radius 15 and 16 has 797 - 709 cells, and the apron has 16.
    assert_eq!(count(&terrain, TileType::Sand), 797 - 709 + 16);
    assert_eq!(count(&terrain, TileType::Chest), 0);
    assert_eq!(count(&terrain, TileType::SpiderWeb), 0);
    assert_eq!(count(&terrain, TileType::Heart), 0);
}

#[test]
fn beach_ring_leaves_trees_alone() {
    // The diamond ends at column 30; the ring of the pond around (46, 25) starts there.
    let terrain = Terrain::from_centers(20, 25, 46, 25).expect("the shapes share no cell");
    assert_eq!(terrain.tile(30, 25), TileType::Tree);
    assert_eq!(terrain.tile(31, 25), TileType::Water);
    assert_eq!(terrain.tile(30, 24), TileType::Grass);
    assert_eq!(terrain.tile(46, 41), TileType::Sand);
    assert_eq!(count(&terrain, TileType::Tree), 221);
}

#[test]
fn generated_border_is_all_mountain() {
    for _ in 0..20 {
        let terrain = Terrain::new();
        for x in 0..TERRAIN_WIDTH {
            assert_eq!(terrain.tile(x, 0), TileType::Mountain);
            assert_eq!(terrain.tile(x, TERRAIN_HEIGHT - 1), TileType::Mountain);
        }
        for y in 0..TERRAIN_HEIGHT {
            assert_eq!(terrain.tile(0, y), TileType::Mountain);
            assert_eq!(terrain.tile(TERRAIN_WIDTH - 1, y), TileType::Mountain);
        }
        assert_eq!(count(&terrain, TileType::Mountain), 296);
    }
}

#[test]
fn generated_map_has_exactly_one_castle_on_its_island() {
    for _ in 0..20 {
        let terrain = Terrain::new();
        assert_eq!(count(&terrain, TileType::Castle), 1);
        let (cx, cy) = castle_of(&terrain);
        assert!((19..=81).contains(&cx));
        assert!((19..=31).contains(&cy));
        for y in cy - 2..=cy + 2 {
            for x in cx - 2..=cx + 2 {
                let ring = axis_gap(cx, x).max(axis_gap(cy, y));
                let expected = match ring {
                    0 => TileType::Castle,
                    1 => TileType::Grass,
                    _ => TileType::Sand,
                };
                assert_eq!(terrain.tile(x, y), expected);
            }
        }
    }
}

#[test]
fn generated_forest_and_pond_are_apart() {
    for _ in 0..20 {
        let terrain = Terrain::new();
        assert!(!terrain.chest_found);
        assert_eq!(count(&terrain, TileType::Tree), 221);
        assert_eq!(count(&terrain, TileType::Water), 684);
        let (cx, cy) = castle_of(&terrain);
        for y in 0..TERRAIN_HEIGHT {
            for x in 0..TERRAIN_WIDTH {
                match terrain.tile(x, y) {
                    TileType::Water => assert!(cell_distance_squared(cx, cy, x, y) <= 225),
                    TileType::Tree => assert!(cell_distance_squared(cx, cy, x, y) > 225),
                    _ => {}
                }
            }
        }
    }
}

#[test]
fn generated_maps_differ() {
    let first = castle_of(&Terrain::new());
    let mut other = false;
    for _ in 0..50 {
        if castle_of(&Terrain::new()) != first {
            other = true;
        }
    }
    assert!(other);
}

#[test]
fn generated_map_is_what_its_centres_give() {
    for _ in 0..10 {
        let terrain = Terrain::new();
        let (px, py) = castle_of(&terrain);
        let (tx, ty) = first_cell_of(&terrain, TileType::Tree).expect("a map has a forest");
        // The first tree in row-major order is the top of the diamond.
        let again = Terrain::from_centers(tx, ty + 10, px, py).expect("the placement was accepted");
        assert_eq!(again.tiles.to_vec(), terrain.tiles.to_vec());
    }
}

#[test]
fn first_cell_of_finds_the_first_in_row_major_order() {
    let mut terrain = Terrain::blank();
    assert_eq!(first_cell_of(&terrain, TileType::Grass), Some((0, 0)));
    assert_eq!(first_cell_of(&terrain, TileType::Water), None);
    terrain.tiles[2 * 100 + 5] = TileType::Water;
    terrain.tiles[1 * 100 + 90] = TileType::Water;
    assert_eq!(first_cell_of(&terrain, TileType::Water), Some((90, 1)));
}

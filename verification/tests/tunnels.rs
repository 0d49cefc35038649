use dungeon_grid::Grid;
use dungeon_grid::TileType;
use rand::SeedableRng;

/// An all-wall grid with a sized buffer, ready for carving.
fn walled(width: usize, height: usize) -> Grid {
    let mut g = Grid::new(width, height);
    let mut rng = rand::rngs::StdRng::seed_from_u64(0);
    let rooms = g.generate_map_rooms_and_corridors(&mut rng, 0, 1, 2).unwrap();
    assert!(rooms.is_empty());
    g
}

#[test]
fn horizontal_tunnel_carves_a_row() {
    let mut g = walled(6, 4);
    g.place_tunnel_horizontal(1, 4, 2);
    for x in 0..6 {
        let expected = if (1..=4).contains(&x) {
            TileType::Empty
        } else {
            TileType::Wall
        };
        assert_eq!(g.tile_at(x, 2), expected);
    }
    // No other row is touched.
    for x in 0..6 {
        assert_eq!(g.tile_at(x, 1), TileType::Wall);
        assert_eq!(g.tile_at(x, 3), TileType::Wall);
    }
}

#[test]
fn horizontal_tunnel_accepts_reversed_endpoints() {
    let mut a = walled(6, 4);
    let mut b = walled(6, 4);
    a.place_tunnel_horizontal(1, 4, 2);
    b.place_tunnel_horizontal(4, 1, 2);
    assert_eq!(a.tiles, b.tiles);
}

#[test]
fn vertical_tunnel_carves_a_column() {
    let mut g = walled(5, 6);
    g.place_tunnel_vertical(1, 4, 3);
    for y in 0..6 {
        let expected = if (1..=4).contains(&y) {
            TileType::Empty
        } else {
            TileType::Wall
        };
        assert_eq!(g.tile_at(3, y), expected);
    }
    for y in 0..6 {
        assert_eq!(g.tile_at(2, y), TileType::Wall);
        assert_eq!(g.tile_at(4, y), TileType::Wall);
    }
}

#[test]
fn vertical_tunnel_accepts_reversed_endpoints() {
    let mut a = walled(5, 6);
    let mut b = walled(5, 6);
    a.place_tunnel_vertical(1, 4, 3);
    b.place_tunnel_vertical(4, 1, 3);
    assert_eq!(a.tiles, b.tiles);
}

#[test]
fn tunnel_never_writes_the_first_cell() {
    let mut g = walled(4, 4);
    g.place_tunnel_horizontal(0, 3, 0);
    // Index 0 is protected by the defensive bound; the rest of the row is
    // carved.
    assert_eq!(g.tile_at(0, 0), TileType::Wall);
    assert_eq!(g.tile_at(1, 0), TileType::Empty);
    assert_eq!(g.tile_at(2, 0), TileType::Empty);
    assert_eq!(g.tile_at(3, 0), TileType::Empty);
}

#[test]
fn tunnel_never_writes_the_last_cell() {
    let mut g = walled(4, 4);
    g.place_tunnel_horizontal(0, 3, 3);
    // Index 15 (the last buffer cell) is protected; indices 12..=14 are not.
    assert_eq!(g.tile_at(0, 3), TileType::Empty);
    assert_eq!(g.tile_at(1, 3), TileType::Empty);
    assert_eq!(g.tile_at(2, 3), TileType::Empty);
    assert_eq!(g.tile_at(3, 3), TileType::Wall);
}

#[test]
fn tunnel_bound_is_linear_not_geometric() {
    // A segment running past the grid's right edge wraps into the next row:
    // the defensive bound is on the linear index only.
    let mut g = walled(4, 4);
    g.place_tunnel_horizontal(2, 5, 0);
    assert_eq!(g.tile_at(2, 0), TileType::Empty);
    assert_eq!(g.tile_at(3, 0), TileType::Empty);
    assert_eq!(g.tile_at(0, 1), TileType::Empty);
    assert_eq!(g.tile_at(1, 1), TileType::Empty);
    // Cells before the segment stay wall.
    assert_eq!(g.tile_at(0, 0), TileType::Wall);
    assert_eq!(g.tile_at(1, 0), TileType::Wall);
    assert_eq!(g.tile_at(2, 1), TileType::Wall);
}

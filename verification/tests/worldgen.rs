use tile_world::memory::Memory;
use tile_world::rng::Rng;
use tile_world::tilemap::{TileMap, TileType};
use tile_world::vector::Vector2;
use tile_world::world::World;
use tile_world::Error;

fn fresh(seed: u64) -> (World, Memory, Rng) {
    (World::new(), Memory::new(2 * 1024 * 1024), Rng::new(seed))
}

fn ladder_cells(map: &TileMap) -> Vec<(u16, u16)> {
    map.enumerate_tiles()
        .into_iter()
        .filter(|e| matches!(e.2, TileType::Ladder))
        .map(|e| (e.0, e.1))
        .collect()
}

#[test]
fn tilemap_get_and_set_round_trip() {
    let mut map = TileMap::new();
    assert!(matches!(map.get_tile_at(Vector2::new(3, 4)), TileType::Empty));
    map.set_tile_at(3, 4, TileType::Wall);
    assert!(matches!(map.get_tile_at(Vector2::new(3, 4)), TileType::Wall));
    // neighbours keep their kind
    assert!(matches!(map.get_tile_at(Vector2::new(2, 4)), TileType::Empty));
    assert!(matches!(map.get_tile_at(Vector2::new(3, 5)), TileType::Empty));
}

#[test]
fn enumeration_lists_every_cell_bottom_row_first() {
    let mut map = TileMap::new();
    map.set_tile_at(2, 1, TileType::Ladder);
    let all = map.enumerate_tiles();
    assert_eq!(all.len(), 144);
    assert_eq!(all[0], (0, 0, TileType::Empty));
    assert_eq!(all[1 * 16 + 2], (2, 1, TileType::Ladder));
    assert_eq!(all[143].0, 15);
    assert_eq!(all[143].1, 8);
}

#[test]
fn generated_map_has_walls_and_doors_on_the_border() {
    let (mut world, mut memory, mut rng) = fresh(7);
    let h = world.get_tilemap_at(Vector2::new(0, 0), 0, &mut memory, &mut rng).unwrap();
    let map = world.tilemap(h);
    for x in 0..16u16 {
        for &y in &[0u16, 8u16] {
            let expected_empty = (7..=9).contains(&x);
            let t = map.get_tile_at(Vector2::new(x, y));
            if expected_empty {
                assert!(matches!(t, TileType::Empty), "door cell ({x}, {y})");
            } else {
                assert!(matches!(t, TileType::Wall), "wall cell ({x}, {y})");
            }
        }
    }
    for y in 1..8u16 {
        for &x in &[0u16, 15u16] {
            let expected_empty = (3..=5).contains(&y);
            let t = map.get_tile_at(Vector2::new(x, y));
            if expected_empty {
                assert!(matches!(t, TileType::Empty), "door cell ({x}, {y})");
            } else {
                assert!(matches!(t, TileType::Wall), "wall cell ({x}, {y})");
            }
        }
    }
}

#[test]
fn lookup_returns_the_same_map_without_generating_again() {
    let (mut world, mut memory, mut rng) = fresh(3);
    let h0 = world.get_tilemap_at(Vector2::new(4, 5), 1, &mut memory, &mut rng).unwrap();
    let used = memory.next_allocation;
    let h1 = world.get_tilemap_at(Vector2::new(4, 5), 1, &mut memory, &mut rng).unwrap();
    assert_eq!(h0, h1);
    assert_eq!(memory.next_allocation, used);
}

#[test]
fn interior_cells_follow_the_draw_law() {
    // replay the row-major generation law with a copy of the random source
    // and hold the generated map to it, cell by cell
    for seed in [0u64, 7, 42, 99] {
        let (mut world, mut memory, mut rng) = fresh(seed);
        let mut oracle = rng;
        let h = world.get_tilemap_at(Vector2::new(0, 0), 0, &mut memory, &mut rng).unwrap();
        let map = world.tilemap(h);
        let mut ladder_placed = false;
        for y in 0..9u16 {
            for x in 0..16u16 {
                if y == 0 || y == 8 || x == 0 || x == 15 {
                    continue;
                }
                let expected = if !ladder_placed && oracle.next() % 64 == 0 {
                    ladder_placed = true;
                    TileType::Ladder
                } else if oracle.next() % 16 == 0 {
                    TileType::Wall
                } else {
                    TileType::Empty
                };
                let got = map.get_tile_at(Vector2::new(x, y));
                if matches!(expected, TileType::Ladder) {
                    assert!(matches!(got, TileType::Ladder), "seed {seed} cell ({x},{y})");
                } else {
                    // the pair floor's own ladder may be forced onto one
                    // further interior cell; every other cell obeys the law
                    assert!(
                        got == expected || matches!(got, TileType::Ladder),
                        "seed {seed} cell ({x},{y})"
                    );
                }
            }
        }
    }
}

#[test]
fn ladders_pair_across_floors_from_floor_zero() {
    let mut found = false;
    for seed in 0..100 {
        let (mut world, mut memory, mut rng) = fresh(seed);
        let h0 = world.get_tilemap_at(Vector2::new(0, 0), 0, &mut memory, &mut rng).unwrap();
        let ladders0 = ladder_cells(world.tilemap(h0));
        if ladders0.is_empty() {
            continue;
        }
        let h1 = world.get_tilemap_at(Vector2::new(0, 0), 1, &mut memory, &mut rng).unwrap();
        let ladders0 = ladder_cells(world.tilemap(h0));
        let ladders1 = ladder_cells(world.tilemap(h1));
        let mut a = ladders0.clone();
        let mut b = ladders1.clone();
        a.sort();
        b.sort();
        assert_eq!(a, b, "seed {seed}: floors disagree on ladder cells");
        found = true;
        break;
    }
    assert!(found, "no seed in range produced a ladder");
}

#[test]
fn ladders_pair_across_floors_from_floor_one() {
    let mut found = false;
    for seed in 0..100 {
        let (mut world, mut memory, mut rng) = fresh(seed);
        let h1 = world.get_tilemap_at(Vector2::new(2, 3), 1, &mut memory, &mut rng).unwrap();
        let ladders1 = ladder_cells(world.tilemap(h1));
        if ladders1.is_empty() {
            continue;
        }
        let h0 = world.get_tilemap_at(Vector2::new(2, 3), 0, &mut memory, &mut rng).unwrap();
        let ladders1 = ladder_cells(world.tilemap(h1));
        let ladders0 = ladder_cells(world.tilemap(h0));
        let mut a = ladders0.clone();
        let mut b = ladders1.clone();
        a.sort();
        b.sort();
        assert_eq!(a, b, "seed {seed}: floors disagree on ladder cells");
        found = true;
        break;
    }
    assert!(found, "no seed in range produced a ladder");
}

#[test]
fn seventeenth_distinct_key_is_fatal() {
    let (mut world, mut memory, mut rng) = fresh(11);
    // eight chunks, both floors each: exactly sixteen registered maps
    for c in 0..8u32 {
        world.get_tilemap_at(Vector2::new(c, 0), 0, &mut memory, &mut rng).unwrap();
        world.get_tilemap_at(Vector2::new(c, 0), 1, &mut memory, &mut rng).unwrap();
    }
    // already-registered keys still resolve
    world.get_tilemap_at(Vector2::new(3, 0), 1, &mut memory, &mut rng).unwrap();
    // a seventeenth distinct key exceeds the registry's capacity
    let r = world.get_tilemap_at(Vector2::new(99, 0), 0, &mut memory, &mut rng);
    assert_eq!(r, Err(Error::OutOfTileMaps));
}

#[test]
fn generation_fails_cleanly_when_the_arena_is_exhausted() {
    let mut world = World::new();
    // room for one map only
    let mut memory = Memory::new(150);
    let mut rng = Rng::new(5);
    let mut hit_error = false;
    for c in 0..4u32 {
        match world.get_tilemap_at(Vector2::new(c, 0), 0, &mut memory, &mut rng) {
            Ok(_) => {},
            Err(e) => {
                assert_eq!(e, Error::OutOfMemory);
                hit_error = true;
                break;
            },
        }
    }
    assert!(hit_error);
}

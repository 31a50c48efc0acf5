use tile_world::coord::AbsoluteTile;
use tile_world::coord::MAX_NUM_CHUNKS;
use tile_world::memory::Memory;
use tile_world::meters::Meters;
use tile_world::sim::{acceleration_from_buttons, advance_tick, move_entity, PlayerDirection, State, WallReaction};
use tile_world::tilemap::TileType;
use tile_world::vector::Vector2;
use tile_world::world::World;
use tile_world::{TILE_MAP_COLUMNS, TILE_MAP_ROWS};

const LEFT: [bool; 6] = [false, false, true, false, false, false];

fn fresh(seed: u64) -> (World, Memory, State) {
    (World::new(), Memory::new(2 * 1024 * 1024), State::reset(seed))
}

/// A seed whose origin chunk leaves the given ground-floor cell passable.
fn seed_with_empty_cell(x: u16, y: u16) -> u64 {
    for seed in 0..200 {
        let (mut world, mut memory, mut state) = fresh(seed);
        let h = world
            .get_tilemap_at(Vector2::new(0, 0), 0, &mut memory, &mut state.rng)
            .unwrap();
        if matches!(world.tilemap(h).get_tile_at(Vector2::new(x, y)), TileType::Empty) {
            return seed;
        }
    }
    panic!("no seed in range leaves ({x}, {y}) empty");
}

#[test]
fn buttons_map_to_acceleration_and_facing() {
    let right = [false, false, false, true, false, false];
    let (a, d) = acceleration_from_buttons(&right, PlayerDirection::Front);
    assert_eq!(a.x.raw(), 65536);
    assert_eq!(a.y.raw(), 0);
    assert_eq!(d, PlayerDirection::Right);

    let none = [false; 6];
    let (a, d) = acceleration_from_buttons(&none, PlayerDirection::Back);
    assert_eq!((a.x.raw(), a.y.raw()), (0, 0));
    assert_eq!(d, PlayerDirection::Back);

    // up, slow, fast together: one tile side, halved, then tenfold
    let combo = [true, false, false, false, true, true];
    let (a, d) = acceleration_from_buttons(&combo, PlayerDirection::Front);
    assert_eq!(a.y.raw(), 5 * 65536);
    assert_eq!(a.x.raw(), 0);
    assert_eq!(d, PlayerDirection::Back);
}

#[test]
fn one_tick_rightward_from_rest() {
    let seed = seed_with_empty_cell(5, 6);
    let (mut world, mut memory, mut state) = fresh(seed);
    let accel = Vector2::new(Meters::new(65536), Meters::new(0));
    move_entity(0, &mut world, &mut memory, &mut state, accel).unwrap();
    let e = &state.entities[0];
    // a small positive step to the right; 18 units of speed, damped over
    // one thirtieth of a unit of time, integrated from rest
    assert_eq!(e.position.tile_rel.x.raw(), 648);
    assert_eq!(e.position.tile_rel.y.raw(), 0);
    assert_eq!(e.velocity.x.raw(), 39312);
    assert_eq!(e.velocity.y.raw(), 0);
    // tile coordinate, floor and chunk are unchanged
    assert_eq!(e.position.tile_map_x.into_chunk().offset, 5);
    assert_eq!(e.position.tile_map_y.into_chunk().offset, 6);
    assert_eq!(e.position.tile_map_x.into_chunk().chunk_id, 0);
    assert_eq!(e.position.z, 0);
}

#[test]
fn wall_column_blocks_and_grinds_velocity() {
    // drive the player leftward from offset (1, 6) toward the wall at
    // column zero: it must never reach the wall, and the tick that rejects
    // the move must zero the leftward velocity
    let seed = seed_with_empty_cell(1, 6);
    let (mut world, mut memory, mut state) = fresh(seed);
    state.entities[0].position.tile_map_x =
        AbsoluteTile::from_chunk_offset(0, 1, MAX_NUM_CHUNKS, TILE_MAP_COLUMNS as u32);
    state.entities[0].position.tile_map_y =
        AbsoluteTile::from_chunk_offset(0, 6, MAX_NUM_CHUNKS, TILE_MAP_ROWS as u32);
    let mut saw_blocked_tick = false;
    for _ in 0..300 {
        let before = state.entities[0].position;
        advance_tick(&mut world, &mut memory, &mut state, &LEFT).unwrap();
        let after = state.entities[0].position;
        let c = after.tile_map_x.into_chunk();
        assert_eq!(c.chunk_id, 0, "crossed into another chunk");
        assert!(c.offset >= 1, "entered the wall column");
        if after == before {
            // the move was rejected: the wall is impenetrable and the
            // velocity component into it is ground to zero
            assert_eq!(state.entities[0].velocity.x.raw(), 0);
            saw_blocked_tick = true;
        }
    }
    assert!(saw_blocked_tick, "the player never reached the wall");
}

#[test]
fn wall_reaction_constants() {
    assert_eq!(WallReaction::Grind.reaction().raw(), 65536);
    assert_eq!(WallReaction::Bounce.reaction().raw(), 2 * 65536);
}

#[test]
fn exhausted_arena_rejects_the_move_and_keeps_the_entity() {
    let mut world = World::new();
    // no room for even one tile map
    let mut memory = Memory::new(64);
    let mut state = State::reset(1);
    let before = state.entities[0];
    let accel = Vector2::new(Meters::new(65536), Meters::new(0));
    let r = move_entity(0, &mut world, &mut memory, &mut state, accel);
    assert_eq!(r, Err(tile_world::Error::OutOfMemory));
    assert_eq!(state.entities[0], before);
    assert_eq!(memory.next_allocation, 0);
}

#[test]
fn dead_entities_are_skipped() {
    let seed = seed_with_empty_cell(5, 6);
    let (mut world, mut memory, mut state) = fresh(seed);
    state.entities[0].alive = false;
    let before = state.entities[0];
    advance_tick(&mut world, &mut memory, &mut state, &LEFT).unwrap();
    assert_eq!(state.entities[0], before);
}

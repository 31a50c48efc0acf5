use tile_world::coord::{AbsoluteTile, WorldPosition, MAX_NUM_CHUNKS};
use tile_world::meters::Meters;
use tile_world::vector::Vector2;
use tile_world::{TILE_MAP_COLUMNS, TILE_MAP_ROWS};

fn x_axis_tile(chunk: u32, offset: u32) -> AbsoluteTile {
    AbsoluteTile::from_chunk_offset(chunk, offset, MAX_NUM_CHUNKS, TILE_MAP_COLUMNS as u32)
}

fn y_axis_tile(chunk: u32, offset: u32) -> AbsoluteTile {
    AbsoluteTile::from_chunk_offset(chunk, offset, MAX_NUM_CHUNKS, TILE_MAP_ROWS as u32)
}

fn pos_at(cx: u32, ox: u32, cy: u32, oy: u32, rel_x: i64, rel_y: i64) -> WorldPosition {
    WorldPosition {
        tile_map_x: x_axis_tile(cx, ox),
        tile_map_y: y_axis_tile(cy, oy),
        z: 0,
        tile_rel: Vector2::new(Meters::new(rel_x), Meters::new(rel_y)),
    }
}

#[test]
fn chunk_offset_round_trip() {
    let t = x_axis_tile(3, 7);
    let c = t.into_chunk();
    assert_eq!(c.chunk_id, 3);
    assert_eq!(c.offset, 7);

    let t = x_axis_tile(0xff_fffe, 15);
    let c = t.into_chunk();
    assert_eq!(c.chunk_id, 0xff_fffe);
    assert_eq!(c.offset, 15);
}

#[test]
fn construction_takes_offset_modulo_bound() {
    let t = x_axis_tile(2, 20);
    let c = t.into_chunk();
    assert_eq!(c.chunk_id, 2);
    assert_eq!(c.offset, 4);
}

#[test]
fn adjust_rolls_offset_into_next_chunk() {
    let mut t = x_axis_tile(5, 15);
    t.adjust(1);
    let c = t.into_chunk();
    assert_eq!(c.chunk_id, 6);
    assert_eq!(c.offset, 0);
}

#[test]
fn adjust_wraps_chunk_at_world_end() {
    let mut t = x_axis_tile(MAX_NUM_CHUNKS - 1, 15);
    t.adjust(1);
    let c = t.into_chunk();
    assert_eq!(c.chunk_id, 0);
    assert_eq!(c.offset, 0);
}

#[test]
fn adjust_wraps_backwards_at_origin() {
    let mut t = x_axis_tile(0, 0);
    t.adjust(-1);
    let c = t.into_chunk();
    assert_eq!(c.chunk_id, MAX_NUM_CHUNKS - 1);
    assert_eq!(c.offset, 15);
}

#[test]
fn adjust_by_zero_is_a_no_op() {
    let mut t = x_axis_tile(9, 3);
    let before = t;
    t.adjust(0);
    assert_eq!(t, before);
}

#[test]
fn adjust_steps_within_chunk() {
    let mut t = y_axis_tile(4, 4);
    t.adjust(1);
    assert_eq!(t.into_chunk().offset, 5);
    assert_eq!(t.into_chunk().chunk_id, 4);
    t.adjust(-1);
    assert_eq!(t.into_chunk().offset, 4);
}

#[test]
fn canonicalize_leaves_canonical_position_unchanged() {
    // 0.3 and -0.2 tile sides: already within half a tile
    let mut pos = pos_at(0, 5, 0, 6, 19661, -13107);
    let before = pos;
    pos.canonicalize();
    assert_eq!(pos, before);
}

#[test]
fn canonicalize_transfers_whole_tile_steps() {
    // 0.75 tile sides to the right rounds to one whole step
    let mut pos = pos_at(0, 5, 0, 6, 49152, 0);
    pos.canonicalize();
    assert_eq!(pos.tile_map_x.into_chunk().offset, 6);
    assert_eq!(pos.tile_rel.x.raw(), 49152 - 65536);
    assert_eq!(pos.tile_map_y.into_chunk().offset, 6);
    assert_eq!(pos.tile_rel.y.raw(), 0);
}

#[test]
fn canonicalize_carries_across_chunks() {
    // -0.75 tile sides from offset 0 rolls into the previous chunk
    let mut pos = pos_at(1, 0, 0, 6, -49152, 0);
    pos.canonicalize();
    let c = pos.tile_map_x.into_chunk();
    assert_eq!(c.chunk_id, 0);
    assert_eq!(c.offset, 15);
    assert_eq!(pos.tile_rel.x.raw(), -49152 + 65536);
}

#[test]
fn world_position_into_chunk_reads_both_axes() {
    let pos = pos_at(7, 2, 9, 8, 0, 0);
    let cv = pos.into_chunk();
    assert_eq!(cv.chunk_id.x, 7);
    assert_eq!(cv.offset.x, 2);
    assert_eq!(cv.chunk_id.y, 9);
    assert_eq!(cv.offset.y, 8);
}

#[test]
fn tile_center_is_the_exact_pixel_transform() {
    // offset (5, 6), sub-tile offset zero: center of that tile on screen
    let pos = pos_at(0, 5, 0, 6, 0, 0);
    let c = pos.tile_center();
    assert_eq!(c.x.raw(), (5 * 60 + 30) * 65536);
    assert_eq!(c.y.raw(), (480 - 6 * 60 + 30) * 65536);
    let b = pos.bottom_center();
    assert_eq!(b.x.raw(), c.x.raw());
    assert_eq!(b.y.raw(), c.y.raw() + 30 * 65536);
}

//! The chunked coordinate model.
//!
//! One world axis is addressed by an [`AbsoluteTile`]: a chunk id and an
//! offset within that chunk, packed into one `u32`. A full [`WorldPosition`]
//! is two such axes, a floor index, and a continuous sub-tile offset.

use vstd::prelude::*;
use vstd::arithmetic::div_mod::lemma_fundamental_div_mod_converse;
use crate::meters::{round_step_spec, Meters, FIXED_HALF, FIXED_ONE};
use crate::vector::Vector2;

verus! {

/// Bits of a packed coordinate that hold the in-chunk offset.
pub const CHUNK_SHIFT: u32 = 8;

/// Mask of a packed coordinate that holds the in-chunk offset.
pub const CHUNK_MASK: u32 = 0xff;

/// Greatest number of offsets a chunk can address.
pub const CHUNK_DIMENSIONS: u32 = 256;

/// Number of chunk ids an axis can address.
pub const MAX_NUM_CHUNKS: u32 = 0xff_ffff;

/// A decoded one-axis coordinate: chunk id and offset within the chunk.
#[derive(Clone, Copy, Debug, PartialEq, Eq, Structural)]
pub struct Chunk {
    /// Id of the chunk.
    pub chunk_id: u32,
    /// Offset into the chunk.
    pub offset: u16,
}

/// A decoded two-axis coordinate, componentwise.
#[derive(Clone, Copy, Debug, PartialEq, Eq)]
pub struct ChunkVector {
    /// Ids of the chunk on each axis.
    pub chunk_id: Vector2<u32>,
    /// Offsets into the chunk on each axis.
    pub offset: Vector2<u16>,
}

/// The packed representation of a chunk id and an in-chunk offset.
pub open spec fn packed_of(chunk: int, offset: int) -> int {
    chunk * 256 + offset
}

/// An absolute one-axis tile coordinate: a chunk id below `max_chunk` and an
/// offset below `max_offset`, packed into one integer. Both bounds travel
/// with the value; arithmetic wraps at them.
#[derive(Clone, Copy, Debug, PartialEq, Eq, Structural)]
pub struct AbsoluteTile {
    /// Packed coordinate: chunk id in the high bits, offset in the low 8.
    pub packed: u32,
    /// Number of chunk ids on this axis; the chunk id wraps at this bound.
    pub max_chunk: u32,
    /// Number of offsets within one chunk on this axis.
    pub max_offset: u32,
}

impl AbsoluteTile {
    /// The chunk id held in the packed representation.
    pub open spec fn chunk_id_spec(self) -> int {
        self.packed as int / 256
    }

    /// The in-chunk offset held in the packed representation.
    pub open spec fn offset_spec(self) -> int {
        self.packed as int % 256
    }

    /// Well-formed: sane bounds, and both components within them.
    pub open spec fn wf(self) -> bool {
        &&& 1 <= self.max_chunk <= 0x100_0000
        &&& 1 <= self.max_offset <= 0x100
        &&& self.chunk_id_spec() < self.max_chunk
        &&& self.offset_spec() < self.max_offset
    }

    /// The coordinate after one wrapping step of `val` (-1, 0 or 1) along
    /// the axis: the offset moves by `val`, rolling into the neighbouring
    /// chunk at the offset bound, and the chunk id wraps at its own bound.
    pub open spec fn adjust_spec(self, val: int) -> AbsoluteTile {
        let c = self.chunk_id_spec();
        let o = self.offset_spec();
        let (nc, no): (int, int) = if val == 1 {
            if o + 1 == self.max_offset {
                if c + 1 == self.max_chunk {
                    (0, 0)
                } else {
                    (c + 1, 0)
                }
            } else {
                (c, o + 1)
            }
        } else if val == -1 {
            if o == 0 {
                if c == 0 {
                    (self.max_chunk - 1, self.max_offset - 1)
                } else {
                    (c - 1, self.max_offset - 1)
                }
            } else {
                (c, o - 1)
            }
        } else {
            (c, o)
        };
        AbsoluteTile {
            packed: packed_of(nc, no) as u32,
            max_chunk: self.max_chunk,
            max_offset: self.max_offset,
        }
    }

    /// Build a coordinate from a chunk id and an offset; the offset is taken
    /// modulo `max_offset`.
    pub fn from_chunk_offset(chunk: u32, offset: u32, max_chunk: u32, max_offset: u32) -> (r:
        AbsoluteTile)
        requires
            1 <= max_chunk <= 0x100_0000,
            1 <= max_offset <= 0x100,
            chunk < max_chunk,
        ensures
            r.wf(),
            r.max_chunk == max_chunk,
            r.max_offset == max_offset,
            r.chunk_id_spec() == chunk,
            r.offset_spec() == offset as int % max_offset as int,
            r.packed == packed_of(chunk as int, offset as int % max_offset as int),
    {
        let o = offset % max_offset;
        let packed = chunk * 256 + o;
        proof {
            lemma_fundamental_div_mod_converse(packed as int, 256, chunk as int, o as int);
        }
        AbsoluteTile { packed, max_chunk, max_offset }
    }

    /// Decode the packed representation: the exact inverse of construction.
    pub fn into_chunk(&self) -> (c: Chunk)
        ensures
            c.chunk_id == self.chunk_id_spec(),
            c.offset == self.offset_spec(),
    {
        Chunk { chunk_id: self.packed / 256, offset: (self.packed % 256) as u16 }
    }

    /// Move the coordinate one step along the axis, wrapping the offset at
    /// the chunk boundary and the chunk id at the world boundary.
    ///
    /// A step larger than one tile is outside this function's contract: the
    /// world relies on per-tick motion never displacing an entity by more
    /// than one tile per axis.
    pub fn adjust(&mut self, val: i32)
        requires
            old(self).wf(),
            -1 <= val <= 1,
        ensures
            *final(self) == old(self).adjust_spec(val as int),
            final(self).wf(),
            final(self).max_chunk == old(self).max_chunk,
            final(self).max_offset == old(self).max_offset,
            val == 0 ==> final(self).chunk_id_spec() == old(self).chunk_id_spec()
                && final(self).offset_spec() == old(self).offset_spec(),
            val == 1 && old(self).offset_spec() + 1 < old(self).max_offset
                ==> final(self).chunk_id_spec() == old(self).chunk_id_spec()
                && final(self).offset_spec() == old(self).offset_spec() + 1,
            val == 1 && old(self).offset_spec() + 1 == old(self).max_offset
                ==> final(self).offset_spec() == 0
                && final(self).chunk_id_spec() == (
                    if old(self).chunk_id_spec() + 1 == old(self).max_chunk { 0int }
                    else { old(self).chunk_id_spec() + 1 }
                ),
            val == -1 && old(self).offset_spec() > 0
                ==> final(self).chunk_id_spec() == old(self).chunk_id_spec()
                && final(self).offset_spec() == old(self).offset_spec() - 1,
            val == -1 && old(self).offset_spec() == 0
                ==> final(self).offset_spec() == old(self).max_offset - 1
                && final(self).chunk_id_spec() == (
                    if old(self).chunk_id_spec() == 0 { old(self).max_chunk - 1 }
                    else { old(self).chunk_id_spec() - 1 }
                ),
    {
        let c = self.into_chunk();
        let mut chunk_id: u32 = c.chunk_id;
        let mut offset: u32 = c.offset as u32;
        if val == 1 {
            if offset + 1 == self.max_offset {
                chunk_id = chunk_id + 1;
                if chunk_id == self.max_chunk {
                    chunk_id = 0;
                }
                offset = 0;
            } else {
                offset = offset + 1;
            }
        } else if val == -1 {
            if offset == 0 {
                if chunk_id == 0 {
                    chunk_id = self.max_chunk - 1;
                } else {
                    chunk_id = chunk_id - 1;
                }
                offset = self.max_offset - 1;
            } else {
                offset = offset - 1;
            }
        }
        let packed = chunk_id * 256 + offset;
        proof {
            lemma_fundamental_div_mod_converse(packed as int, 256, chunk_id as int, offset as int);
        }
        self.packed = packed;
    }
}

/// A tile position in the world: an [`AbsoluteTile`] per axis, the floor
/// index, and the continuous sub-tile offset in physical units.
#[derive(Clone, Copy, Debug, PartialEq, Eq)]
pub struct WorldPosition {
    /// The x coordinate in the world.
    pub tile_map_x: AbsoluteTile,
    /// The y coordinate in the world.
    pub tile_map_y: AbsoluteTile,
    /// The floor height.
    pub z: u8,
    /// The relative position within the addressed tile.
    pub tile_rel: Vector2<Meters>,
}

impl WorldPosition {
    /// Well-formed: both axes carry the world's bounds and the floor index
    /// is one of the two floors.
    pub open spec fn wf(self) -> bool {
        &&& self.tile_map_x.wf()
        &&& self.tile_map_x.max_chunk == MAX_NUM_CHUNKS
        &&& self.tile_map_x.max_offset == crate::TILE_MAP_COLUMNS
        &&& self.tile_map_y.wf()
        &&& self.tile_map_y.max_chunk == MAX_NUM_CHUNKS
        &&& self.tile_map_y.max_offset == crate::TILE_MAP_ROWS
        &&& self.z < 2
    }

    /// Canonical: both sub-tile offsets lie within half a tile of the tile
    /// center, the band [`canonicalize`](Self::canonicalize) leaves them in.
    pub open spec fn canonical(self) -> bool {
        &&& -FIXED_HALF <= self.tile_rel.x@ <= FIXED_HALF
        &&& -FIXED_HALF <= self.tile_rel.y@ <= FIXED_HALF
    }

    /// The position after canonicalization: each axis moves by the rounded
    /// whole-tile step of its sub-tile offset, and that step is subtracted
    /// from the sub-tile offset.
    pub open spec fn canonicalize_spec(self) -> WorldPosition {
        let sx = round_step_spec(self.tile_rel.x@);
        let sy = round_step_spec(self.tile_rel.y@);
        WorldPosition {
            tile_map_x: self.tile_map_x.adjust_spec(sx),
            tile_map_y: self.tile_map_y.adjust_spec(sy),
            z: self.z,
            tile_rel: Vector2 {
                x: Meters((self.tile_rel.x@ - sx * FIXED_ONE) as i64),
                y: Meters((self.tile_rel.y@ - sy * FIXED_ONE) as i64),
            },
        }
    }

    /// Transfer whole-tile steps of the sub-tile offset into the discrete
    /// coordinate, so that the offset ends within half a tile on each axis.
    ///
    /// The caller must not have moved more than one and a half tiles past
    /// the tile center: a larger displacement means the integrator advanced
    /// too far in one tick and is outside this function's contract.
    pub fn canonicalize(&mut self)
        requires
            old(self).wf(),
            -3 * FIXED_HALF < old(self).tile_rel.x@ < 3 * FIXED_HALF,
            -3 * FIXED_HALF < old(self).tile_rel.y@ < 3 * FIXED_HALF,
        ensures
            *final(self) == old(self).canonicalize_spec(),
            final(self).wf(),
            final(self).canonical(),
    {
        let sx = self.tile_rel.x.round_step();
        self.tile_map_x.adjust(sx as i32);
        self.tile_rel.x = self.tile_rel.x.sub(Meters::new(sx * FIXED_ONE));
        let sy = self.tile_rel.y.round_step();
        self.tile_map_y.adjust(sy as i32);
        self.tile_rel.y = self.tile_rel.y.sub(Meters::new(sy * FIXED_ONE));
    }

    /// The pixel-space center of the entity, in fixed-point pixels: the
    /// center of the addressed tile on a screen whose bottom tile row sits
    /// at the window's bottom edge, displaced by the sub-tile offset
    /// (screen y grows downward, world y upward).
    pub fn tile_center(&self) -> (r: Vector2<Meters>)
        requires
            self.wf(),
            -FIXED_ONE <= self.tile_rel.x@ <= FIXED_ONE,
            -FIXED_ONE <= self.tile_rel.y@ <= FIXED_ONE,
        ensures
            r.x@ == self.tile_center_spec().0,
            r.y@ == self.tile_center_spec().1,
    {
        let c = self.into_chunk();
        proof {
            assert(0 <= c.offset.x < 256);
            assert(0 <= c.offset.y < 256);
            assert(crate::TILE_WIDTH == 60 && crate::TILE_HEIGHT == 60);
            assert(crate::TILE_HALF_WIDTH == 30 && crate::TILE_HALF_HEIGHT == 30);
            assert((c.offset.x as int) * 60 < 0x4000) by (nonlinear_arith)
                requires 0 <= c.offset.x < 256;
            assert((c.offset.y as int) * 60 < 0x4000) by (nonlinear_arith)
                requires 0 <= c.offset.y < 256;
        }
        let x: i64 = (c.offset.x as i64) * (crate::TILE_WIDTH as i64) * FIXED_ONE + (
        crate::TILE_HALF_WIDTH as i64) * FIXED_ONE + self.tile_rel.x.raw()
            * crate::PIXELS_PER_METER;
        let y: i64 = ((crate::GAME_WINDOW_HEIGHT - crate::TILE_HEIGHT) as i64) * FIXED_ONE - (
        c.offset.y as i64) * (crate::TILE_HEIGHT as i64) * FIXED_ONE + (crate::TILE_HALF_HEIGHT
            as i64) * FIXED_ONE - self.tile_rel.y.raw() * crate::PIXELS_PER_METER;
        Vector2 { x: Meters::new(x), y: Meters::new(y) }
    }

    /// The pixel-space bottom-center of the entity, in fixed-point pixels:
    /// the [`tile_center`](Self::tile_center) pushed down half a tile.
    pub fn bottom_center(&self) -> (r: Vector2<Meters>)
        requires
            self.wf(),
            -FIXED_ONE <= self.tile_rel.x@ <= FIXED_ONE,
            -FIXED_ONE <= self.tile_rel.y@ <= FIXED_ONE,
        ensures
            r.x@ == self.tile_center_spec().0,
            r.y@ == self.tile_center_spec().1 + (crate::TILE_HALF_HEIGHT as int) * FIXED_ONE,
    {
        let c = self.tile_center();
        Vector2 {
            x: c.x,
            y: c.y.add(Meters::new((crate::TILE_HALF_HEIGHT as i64) * FIXED_ONE)),
        }
    }

    /// The pixel-space center as a pair of raw fixed-point pixel values.
    pub open spec fn tile_center_spec(self) -> (int, int) {
        (
            self.tile_map_x.offset_spec() * (crate::TILE_WIDTH as int) * FIXED_ONE + (
            crate::TILE_HALF_WIDTH as int) * FIXED_ONE + self.tile_rel.x@
                * crate::PIXELS_PER_METER,
            ((crate::GAME_WINDOW_HEIGHT - crate::TILE_HEIGHT) as int) * FIXED_ONE
                - self.tile_map_y.offset_spec() * (crate::TILE_HEIGHT as int) * FIXED_ONE + (
            crate::TILE_HALF_HEIGHT as int) * FIXED_ONE - self.tile_rel.y@
                * crate::PIXELS_PER_METER,
        )
    }

    /// Decode both axes at once.
    pub fn into_chunk(&self) -> (r: ChunkVector)
        ensures
            r.chunk_id.x == self.tile_map_x.chunk_id_spec(),
            r.chunk_id.y == self.tile_map_y.chunk_id_spec(),
            r.offset.x == self.tile_map_x.offset_spec(),
            r.offset.y == self.tile_map_y.offset_spec(),
    {
        let cx = self.tile_map_x.into_chunk();
        let cy = self.tile_map_y.into_chunk();
        ChunkVector {
            chunk_id: Vector2 { x: cx.chunk_id, y: cy.chunk_id },
            offset: Vector2 { x: cx.offset, y: cy.offset },
        }
    }
}

/// Law: canonicalizing a position that is already in canonical form — both
/// sub-tile offsets strictly within half a tile — leaves it unchanged.
pub proof fn lemma_canonicalize_idempotent(pos: WorldPosition)
    requires
        pos.wf(),
        -FIXED_HALF < pos.tile_rel.x@ < FIXED_HALF,
        -FIXED_HALF < pos.tile_rel.y@ < FIXED_HALF,
    ensures
        pos.canonicalize_spec() == pos,
{
    assert(round_step_spec(pos.tile_rel.x@) == 0);
    assert(round_step_spec(pos.tile_rel.y@) == 0);
    vstd::arithmetic::div_mod::lemma_fundamental_div_mod(pos.tile_map_x.packed as int, 256);
    vstd::arithmetic::div_mod::lemma_fundamental_div_mod(pos.tile_map_y.packed as int, 256);
}

/// Law: packing a chunk id and an in-range offset and decoding again gives
/// back exactly the pair that was packed, for every valid pair and bound.
pub proof fn lemma_round_trip(t: AbsoluteTile, chunk: int, offset: int)
    requires
        0 <= chunk < 0x100_0000,
        0 <= offset < 256,
        t.packed == packed_of(chunk, offset),
    ensures
        t.chunk_id_spec() == chunk,
        t.offset_spec() == offset,
{
    lemma_fundamental_div_mod_converse(t.packed as int, 256, chunk, offset);
}

} // verus!

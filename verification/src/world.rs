//! The world registry: a sparse, lazily generated collection of tile maps.
//!
//! Up to [`PREALLOC_TILE_MAPS`] tile maps are registered under
//! (chunk-x, chunk-y, floor) keys. A map is allocated out of the arena and
//! procedurally generated on first visit; a ladder placed on one floor is
//! mirrored onto the other floor of the same chunk, so ladders always form a
//! connected pair.

use vstd::prelude::*;
use crate::memory::Memory;
use crate::meters::{Meters, FIXED_ONE};
use crate::rng::{rng_warm, Rng};
use crate::tilemap::{TileMap, TileType};
use crate::vector::Vector2;
use crate::{Error, TILE_MAP_COLUMNS, TILE_MAP_ROWS};

verus! {

/// Number of slots for tile maps: the world holds at most this many
/// concurrently loaded chunk/floor combinations.
pub const PREALLOC_TILE_MAPS: usize = 16;

/// Bytes one tile map takes in the arena: one byte per cell.
pub const TILE_MAP_BYTES: usize = 144;

/// The floor on the other side of a ladder.
pub open spec fn other_floor(z: int) -> int {
    if z == 0 {
        1
    } else {
        0
    }
}

/// The fixed kind generation gives a border cell: the top and bottom rows
/// and the left and right columns are walls, except a centered three-cell
/// door on each side.
pub open spec fn border_expected(x: int, y: int) -> TileType {
    if y == 0 || y == TILE_MAP_ROWS - 1 {
        if TILE_MAP_COLUMNS / 2 - 1 <= x <= TILE_MAP_COLUMNS / 2 + 1 {
            TileType::Empty
        } else {
            TileType::Wall
        }
    } else {
        if TILE_MAP_ROWS / 2 - 1 <= y <= TILE_MAP_ROWS / 2 + 1 {
            TileType::Empty
        } else {
            TileType::Wall
        }
    }
}

/// Whether (`x`, `y`) lies on the border of a tile map.
pub open spec fn is_border(x: int, y: int) -> bool {
    y == 0 || y == TILE_MAP_ROWS - 1 || x == 0 || x == TILE_MAP_COLUMNS - 1
}

/// Every border cell of `m` holds exactly the wall-and-door pattern.
pub open spec fn border_ok(m: TileMap) -> bool {
    forall|x: int, y: int|
        TileMap::in_bounds(x, y) && is_border(x, y) ==> #[trigger] m.tile_at_spec(x, y)
            == border_expected(x, y)
}

/// The `k`-th value generation draws from a random source whose state is
/// `r0` when generation starts.
pub open spec fn draw(r0: Rng, k: nat) -> u64 {
    rng_warm(r0, k).xstate
}

/// Generation's bookkeeping after the first `n` cells in scan order (row
/// by row from the bottom, left to right): how many draws were consumed,
/// and the cell of the map's own ladder if one was placed. A border cell
/// draws nothing. An interior cell first draws for the ladder while none
/// is placed — a draw divisible by 64 places it and ends that cell — and
/// then draws once for the wall check.
pub open spec fn gen_state(r0: Rng, n: nat) -> (nat, Option<(u16, u16)>)
    decreases n,
{
    if n == 0 {
        (0nat, None::<(u16, u16)>)
    } else {
        let prev = gen_state(r0, (n - 1) as nat);
        let x = (n - 1) as int % (TILE_MAP_COLUMNS as int);
        let y = (n - 1) as int / (TILE_MAP_COLUMNS as int);
        if is_border(x, y) {
            prev
        } else if prev.1 is None {
            if draw(r0, prev.0) % 64 == 0 {
                ((prev.0 + 1) as nat, Some((x as u16, y as u16)))
            } else {
                ((prev.0 + 2) as nat, prev.1)
            }
        } else {
            ((prev.0 + 1) as nat, prev.1)
        }
    }
}

/// The kind the row-major generation law gives cell (`x`, `y`) for a
/// random source starting at `r0`: border cells hold the fixed
/// wall-and-door pattern; the first interior cell whose draw is divisible
/// by 64 becomes the map's own ladder, and placement then stops; every
/// other interior cell becomes a wall exactly when its wall-check draw is
/// divisible by 16, and stays passable otherwise.
pub open spec fn gen_tile(r0: Rng, x: int, y: int) -> TileType {
    if is_border(x, y) {
        border_expected(x, y)
    } else {
        let prev = gen_state(r0, (y * (TILE_MAP_COLUMNS as int) + x) as nat);
        if prev.1 is None {
            if draw(r0, prev.0) % 64 == 0 {
                TileType::Ladder
            } else if draw(r0, (prev.0 + 1) as nat) % 16 == 0 {
                TileType::Wall
            } else {
                TileType::Empty
            }
        } else {
            if draw(r0, prev.0) % 16 == 0 {
                TileType::Wall
            } else {
                TileType::Empty
            }
        }
    }
}

/// The random-source state left after one full map generation from `r0`.
pub open spec fn gen_end(r0: Rng) -> Rng {
    rng_warm(r0, gen_state(r0, (TILE_MAP_ROWS * TILE_MAP_COLUMNS) as nat).0)
}

/// The cell of the one ladder a full map generation from `r0` places, if
/// it places any.
pub open spec fn gen_ladder(r0: Rng) -> Option<(u16, u16)> {
    gen_state(r0, (TILE_MAP_ROWS * TILE_MAP_COLUMNS) as nat).1
}

/// World containing many tile maps, located by (chunk-x, chunk-y, floor).
#[derive(Clone, Debug)]
pub struct World {
    /// The registered tile maps, owned by index.
    pub tile_maps: Vec<TileMap>,
    /// Key of each registered tile map: (chunk-x, chunk-y, floor).
    pub tile_map_indexes: Vec<(u32, u32, u8)>,
    /// Index of the next free tile map slot; equals the number of
    /// registered maps, so the slots have no gaps.
    pub next_tile_map_index: usize,
    /// Physical time one simulation tick advances.
    pub delta_t: Meters,
}

impl World {
    /// Number of registered tile maps.
    pub open spec fn num_maps(self) -> int {
        self.tile_map_indexes@.len() as int
    }

    /// The `i`-th registered map.
    pub open spec fn map_at(self, i: int) -> TileMap {
        self.tile_maps@[i]
    }

    /// Whether slot `i` is registered under exactly this key.
    pub open spec fn key_is(self, i: int, cx: int, cy: int, z: int) -> bool {
        &&& self.tile_map_indexes@[i].0 == cx
        &&& self.tile_map_indexes@[i].1 == cy
        &&& self.tile_map_indexes@[i].2 == z
    }

    /// Whether some slot is registered under this key.
    pub open spec fn has_key(self, cx: int, cy: int, z: int) -> bool {
        exists|i: int| 0 <= i < self.num_maps() && #[trigger] self.key_is(i, cx, cy, z)
    }

    /// The tile at cell (`x`, `y`) of the map registered under the key;
    /// meaningful when the key is registered (keys are unique).
    pub open spec fn tile_of(self, cx: int, cy: int, z: int, x: int, y: int) -> TileType {
        let i = choose|i: int| 0 <= i < self.num_maps() && #[trigger] self.key_is(i, cx, cy, z);
        self.map_at(i).tile_at_spec(x, y)
    }

    /// No two slots carry the same key.
    pub open spec fn keys_unique(self) -> bool {
        forall|i: int, j: int|
            0 <= i < self.num_maps() && 0 <= j < self.num_maps() && i != j
                ==> #[trigger] self.tile_map_indexes@[i] != #[trigger] self.tile_map_indexes@[j]
    }

    /// Slot `j` pairs slot `i`'s ladder at (`x`, `y`): same chunk, the other
    /// floor, a ladder at the same cell.
    pub open spec fn has_ladder_pair(self, i: int, x: int, y: int) -> bool {
        exists|j: int|
            0 <= j < self.num_maps() && #[trigger] self.key_is(
                j,
                self.tile_map_indexes@[i].0 as int,
                self.tile_map_indexes@[i].1 as int,
                other_floor(self.tile_map_indexes@[i].2 as int),
            ) && self.map_at(j).tile_at_spec(x, y) == TileType::Ladder
    }

    /// Every ladder cell of every registered map is mirrored by a ladder at
    /// the same cell of the same chunk's other floor.
    pub open spec fn ladder_paired(self) -> bool {
        forall|i: int, x: int, y: int|
            0 <= i < self.num_maps() && TileMap::in_bounds(x, y) && #[trigger] self.map_at(
                i,
            ).tile_at_spec(x, y) == TileType::Ladder ==> self.has_ladder_pair(i, x, y)
    }

    /// Well-formed world registry.
    pub open spec fn wf(self) -> bool {
        &&& self.tile_maps@.len() == self.tile_map_indexes@.len()
        &&& self.next_tile_map_index == self.num_maps()
        &&& self.num_maps() <= PREALLOC_TILE_MAPS
        &&& forall|i: int| 0 <= i < self.num_maps() ==> (#[trigger] self.map_at(i)).wf()
        &&& forall|i: int|
            0 <= i < self.num_maps() ==> (#[trigger] self.tile_map_indexes@[i]).2 < 2
        &&& self.keys_unique()
        &&& self.ladder_paired()
    }

    /// An empty world ticking at one thirtieth of a physical unit.
    pub fn new() -> (r: World)
        ensures
            r.wf(),
            r.num_maps() == 0,
            r.delta_t@ == FIXED_ONE as int / 30,
    {
        World {
            tile_maps: Vec::new(),
            tile_map_indexes: Vec::new(),
            next_tile_map_index: 0,
            delta_t: Meters::new(FIXED_ONE / 30),
        }
    }

    /// Reset the world: drop every registered map and restore the tick
    /// length.
    pub fn init(&mut self)
        ensures
            final(self).wf(),
            final(self).num_maps() == 0,
            final(self).delta_t@ == FIXED_ONE as int / 30,
    {
        self.tile_maps = Vec::new();
        self.tile_map_indexes = Vec::new();
        self.next_tile_map_index = 0;
        self.delta_t = Meters::new(FIXED_ONE / 30);
    }

    /// The registered map a handle points at.
    pub fn tilemap(&self, handle: usize) -> (r: &TileMap)
        requires
            handle < self.num_maps(),
            self.wf(),
        ensures
            *r == self.map_at(handle as int),
            r.wf(),
    {
        proof {
            assert(self.map_at(handle as int).wf());
        }
        &self.tile_maps[handle]
    }

    /// The slot registered under the key, if any.
    fn find_tilemap(&self, pos: Vector2<u32>, z: u8) -> (r: Option<usize>)
        requires
            self.wf(),
        ensures
            match r {
                Some(h) => 0 <= h < self.num_maps() && self.key_is(
                    h as int,
                    pos.x as int,
                    pos.y as int,
                    z as int,
                ),
                None => !self.has_key(pos.x as int, pos.y as int, z as int),
            },
    {
        let mut i: usize = 0;
        while i < self.next_tile_map_index
            invariant
                self.wf(),
                i <= self.num_maps(),
                forall|k: int|
                    0 <= k < i ==> !self.key_is(k, pos.x as int, pos.y as int, z as int),
            decreases self.num_maps() - i,
        {
            let key = self.tile_map_indexes[i];
            if key.0 == pos.x && key.1 == pos.y && key.2 == z {
                return Some(i);
            }
            i = i + 1;
        }
        None
    }

    /// Register a fresh, all-empty tile map under the key, reserving its
    /// bytes in the arena. Fails exactly when the registry or the arena is
    /// exhausted.
    pub fn alloc_tilemap_at(&mut self, memory: &mut Memory, pos: Vector2<u32>, z: u8) -> (r:
        Result<usize, Error>)
        requires
            old(self).wf(),
            old(memory).wf(),
            z < 2,
            !old(self).has_key(pos.x as int, pos.y as int, z as int),
        ensures
            final(self).wf(),
            final(memory).wf(),
            final(memory).data_len == old(memory).data_len,
            final(self).delta_t == old(self).delta_t,
            old(self).num_maps() == PREALLOC_TILE_MAPS
                ==> r == Err::<usize, Error>(Error::OutOfTileMaps)
                && *final(self) == *old(self) && *final(memory) == *old(memory),
            old(self).num_maps() < PREALLOC_TILE_MAPS
                && old(memory).next_allocation + TILE_MAP_BYTES >= old(memory).data_len
                ==> r == Err::<usize, Error>(Error::OutOfMemory)
                && *final(self) == *old(self) && *final(memory) == *old(memory),
            old(self).num_maps() < PREALLOC_TILE_MAPS
                && old(memory).next_allocation + TILE_MAP_BYTES < old(memory).data_len
                ==> r == Ok::<usize, Error>(old(self).next_tile_map_index)
                && final(self).num_maps() == old(self).num_maps() + 1
                && final(memory).next_allocation
                    == old(memory).next_allocation + TILE_MAP_BYTES
                && final(memory).initialized == old(memory).initialized
                && final(self).key_is(old(self).num_maps(), pos.x as int, pos.y as int, z as int)
                && (forall|x: int, y: int| TileMap::in_bounds(x, y)
                    ==> final(self).map_at(old(self).num_maps()).tile_at_spec(x, y)
                        == TileType::Empty)
                && (forall|i: int| 0 <= i < old(self).num_maps()
                    ==> final(self).tile_map_indexes@[i] == old(self).tile_map_indexes@[i]
                    && final(self).map_at(i) == old(self).map_at(i)),
    {
        if self.next_tile_map_index >= PREALLOC_TILE_MAPS {
            return Err(Error::OutOfTileMaps);
        }
        match memory.allocate(TILE_MAP_BYTES) {
            Err(e) => Err(e),
            Ok(_offset) => {
                let map = TileMap::new();
                self.tile_maps.push(map);
                self.tile_map_indexes.push((pos.x, pos.y, z));
                let h = self.next_tile_map_index;
                self.next_tile_map_index = self.next_tile_map_index + 1;
                proof {
                    lemma_append_preserves_wf(*old(self), *self);
                }
                Ok(h)
            },
        }
    }
}

impl World {
    /// Allocate, generate and register the tile map for a key that is not
    /// registered yet. When the generated map holds a ladder, the same cell
    /// of the chunk's other floor is forced to a ladder too, generating
    /// that floor as well if it is not registered yet. Capacity for every
    /// slot the call needs is checked before anything is committed, so a
    /// failed call leaves the world and the arena untouched.
    #[verifier::rlimit(80)]
    fn init_tile_map(&mut self, chunk: Vector2<u32>, z: u8, memory: &mut Memory, rng: &mut Rng)
        -> (r: Result<usize, Error>)
        requires
            old(self).wf(),
            old(memory).wf(),
            z < 2,
            !old(self).has_key(chunk.x as int, chunk.y as int, z as int),
        ensures
            final(self).wf(),
            final(memory).wf(),
            final(memory).data_len == old(memory).data_len,
            final(memory).initialized == old(memory).initialized,
            final(self).delta_t == old(self).delta_t,
            final(memory).next_allocation == old(memory).next_allocation + TILE_MAP_BYTES * (
            final(self).num_maps() - old(self).num_maps()),
            match r {
                Ok(h) => 0 <= h < final(self).num_maps() && final(self).key_is(
                    h as int,
                    chunk.x as int,
                    chunk.y as int,
                    z as int,
                ) && old(self).num_maps() < final(self).num_maps() <= old(self).num_maps() + 2
                    && border_ok(final(self).map_at(h as int)) && (forall|i: int|
                    0 <= i < old(self).num_maps() ==> #[trigger] final(self).tile_map_indexes@[i]
                        == old(self).tile_map_indexes@[i]) && (forall|x: int, y: int|
                    TileMap::in_bounds(x, y) ==> #[trigger] final(self).map_at(
                        h as int,
                    ).tile_at_spec(x, y) == gen_tile(*old(rng), x, y) || Some((x as u16, y as u16))
                        == gen_ladder(gen_end(*old(rng))) && final(self).map_at(
                        h as int,
                    ).tile_at_spec(x, y) == TileType::Ladder),
                Err(e) => *final(self) == *old(self) && *final(memory) == *old(memory) && (e
                    == Error::OutOfTileMaps || e == Error::OutOfMemory),
            },
            r is Ok ==> forall|i: int|
                0 <= i < old(self).num_maps() && !old(self).key_is(
                    i,
                    chunk.x as int,
                    chunk.y as int,
                    other_floor(z as int),
                ) ==> #[trigger] final(self).map_at(i) == old(self).map_at(i),
            r is Ok ==> forall|i: int, x: int, y: int|
                0 <= i < old(self).num_maps() && TileMap::in_bounds(x, y)
                    ==> #[trigger] final(self).map_at(i).tile_at_spec(x, y) == old(self).map_at(
                    i,
                ).tile_at_spec(x, y) || old(self).key_is(
                    i,
                    chunk.x as int,
                    chunk.y as int,
                    other_floor(z as int),
                ) && Some((x as u16, y as u16)) == gen_ladder(*old(rng)) && !is_border(x, y)
                    && final(self).map_at(i).tile_at_spec(x, y) == TileType::Ladder,
            old(self).num_maps() + 2 <= PREALLOC_TILE_MAPS && old(memory).next_allocation + 2
                * TILE_MAP_BYTES < old(memory).data_len ==> r is Ok,
            old(self).num_maps() == PREALLOC_TILE_MAPS ==> r == Err::<usize, Error>(
                Error::OutOfTileMaps,
            ),
    {
        let ghost w0 = *self;
        let (mut map_a, ladder_a) = generate_tile_map(rng);
        let other_z = (z + 1) % 2;
        proof {
            assert(other_z as int == other_floor(z as int));
        }
        match ladder_a {
            None => {
                if self.next_tile_map_index >= PREALLOC_TILE_MAPS {
                    return Err(Error::OutOfTileMaps);
                }
                if !(memory.next_allocation < memory.data_len && TILE_MAP_BYTES < memory.data_len
                    - memory.next_allocation) {
                    return Err(Error::OutOfMemory);
                }
                let _ = memory.allocate(TILE_MAP_BYTES);
                let h = self.next_tile_map_index;
                self.tile_maps.push(map_a);
                self.tile_map_indexes.push((chunk.x, chunk.y, z));
                self.next_tile_map_index = self.next_tile_map_index + 1;
                proof {
                    lemma_append_preserves_wf(w0, *self);
                }
                Ok(h)
            },
            Some((lx, ly)) => {
                match self.find_tilemap(chunk, other_z) {
                    Some(hb) => {
                        // The other floor exists already; since this key was
                        // absent, pairing says that floor has no ladder yet.
                        if self.next_tile_map_index >= PREALLOC_TILE_MAPS {
                            return Err(Error::OutOfTileMaps);
                        }
                        if !(memory.next_allocation < memory.data_len && TILE_MAP_BYTES
                            < memory.data_len - memory.next_allocation) {
                            return Err(Error::OutOfMemory);
                        }
                        proof {
                            lemma_absent_key_pair_has_no_ladder(
                                w0,
                                hb as int,
                                chunk.x as int,
                                chunk.y as int,
                                z as int,
                            );
                        }
                        let _ = memory.allocate(TILE_MAP_BYTES);
                        let h = self.next_tile_map_index;
                        self.tile_maps[hb].set_tile_at(lx, ly, TileType::Ladder);
                        self.tile_maps.push(map_a);
                        self.tile_map_indexes.push((chunk.x, chunk.y, z));
                        self.next_tile_map_index = self.next_tile_map_index + 1;
                        proof {
                            let n = w0.num_maps();
                            let w1 = *self;
                            assert forall|i: int| 0 <= i < w1.num_maps() implies (#[trigger] w1
                                .map_at(i)).wf() by {
                                if i < n && i != hb {
                                    assert(w1.map_at(i) == w0.map_at(i));
                                    assert(w0.map_at(i).wf());
                                }
                            }
                            assert forall|i: int| 0 <= i < w1.num_maps() implies (#[trigger] w1
                                .tile_map_indexes@[i]).2 < 2 by {
                                if i < n {
                                    assert(w1.tile_map_indexes@[i] == w0.tile_map_indexes@[i]);
                                }
                            }
                            assert(w1.keys_unique()) by {
                                assert forall|i: int, j: int|
                                    0 <= i < w1.num_maps() && 0 <= j < w1.num_maps() && i
                                        != j implies #[trigger] w1.tile_map_indexes@[i]
                                    != #[trigger] w1.tile_map_indexes@[j] by {
                                    if i < n && j < n {
                                        assert(w0.tile_map_indexes@[i] != w0.tile_map_indexes@[j]);
                                    } else if i == n && j < n {
                                        if w1.tile_map_indexes@[i] == w1.tile_map_indexes@[j] {
                                            assert(w0.key_is(
                                                j,
                                                chunk.x as int,
                                                chunk.y as int,
                                                z as int,
                                            ));
                                        }
                                    } else if j == n && i < n {
                                        if w1.tile_map_indexes@[i] == w1.tile_map_indexes@[j] {
                                            assert(w0.key_is(
                                                i,
                                                chunk.x as int,
                                                chunk.y as int,
                                                z as int,
                                            ));
                                        }
                                    }
                                }
                            }
                            assert(w1.ladder_paired()) by {
                                assert forall|i: int, x: int, y: int|
                                    0 <= i < w1.num_maps() && TileMap::in_bounds(x, y)
                                        && #[trigger] w1.map_at(i).tile_at_spec(x, y)
                                        == TileType::Ladder implies w1.has_ladder_pair(
                                    i,
                                    x,
                                    y,
                                ) by {
                                    if i == n {
                                        // the fresh map: its one ladder is mirrored at hb
                                        assert(x == lx && y == ly);
                                        assert(w1.map_at(hb as int).tile_at_spec(x, y)
                                            == TileType::Ladder);
                                        assert(w1.tile_map_indexes@[i] == (chunk.x, chunk.y, z));
                                        assert(w1.key_is(
                                            hb as int,
                                            w1.tile_map_indexes@[i].0 as int,
                                            w1.tile_map_indexes@[i].1 as int,
                                            other_floor(w1.tile_map_indexes@[i].2 as int),
                                        ));
                                    } else if i == hb {
                                        // the other floor: its one ladder is the forced
                                        // cell, since it held none before
                                        assert(w0.map_at(hb as int).tile_at_spec(x, y)
                                            != TileType::Ladder);
                                        assert(x == lx && y == ly);
                                        assert(w1.map_at(n).tile_at_spec(x, y)
                                            == TileType::Ladder);
                                        assert(other_floor(other_z as int) == z as int);
                                        assert(w1.key_is(
                                            n,
                                            w1.tile_map_indexes@[i].0 as int,
                                            w1.tile_map_indexes@[i].1 as int,
                                            other_floor(w1.tile_map_indexes@[i].2 as int),
                                        ));
                                    } else {
                                        assert(w0.map_at(i).tile_at_spec(x, y)
                                            == TileType::Ladder);
                                        assert(w0.has_ladder_pair(i, x, y));
                                        let j = choose|j: int|
                                            0 <= j < w0.num_maps() && #[trigger] w0.key_is(
                                                j,
                                                w0.tile_map_indexes@[i].0 as int,
                                                w0.tile_map_indexes@[i].1 as int,
                                                other_floor(w0.tile_map_indexes@[i].2 as int),
                                            ) && w0.map_at(j).tile_at_spec(x, y)
                                                == TileType::Ladder;
                                        if j == hb {
                                            assert(w1.map_at(j).tile_at_spec(x, y)
                                                == TileType::Ladder);
                                        } else {
                                            assert(w1.map_at(j) == w0.map_at(j));
                                        }
                                        assert(w1.key_is(
                                            j,
                                            w1.tile_map_indexes@[i].0 as int,
                                            w1.tile_map_indexes@[i].1 as int,
                                            other_floor(w1.tile_map_indexes@[i].2 as int),
                                        ));
                                    }
                                }
                            }
                        }
                        Ok(h)
                    },
                    None => {
                        // The other floor is missing too: two slots needed.
                        if self.next_tile_map_index + 2 > PREALLOC_TILE_MAPS {
                            return Err(Error::OutOfTileMaps);
                        }
                        if !(memory.next_allocation < memory.data_len && 2 * TILE_MAP_BYTES
                            < memory.data_len - memory.next_allocation) {
                            return Err(Error::OutOfMemory);
                        }
                        let (mut map_b, ladder_b) = generate_tile_map(rng);
                        // Mirror the second map's ladder into the first, as
                        // the second floor's own generation pairing does.
                        if let Some((bx, by)) = ladder_b {
                            map_a.set_tile_at(bx, by, TileType::Ladder);
                        }
                        map_b.set_tile_at(lx, ly, TileType::Ladder);
                        let _ = memory.allocate(TILE_MAP_BYTES);
                        let _ = memory.allocate(TILE_MAP_BYTES);
                        let h = self.next_tile_map_index;
                        self.tile_maps.push(map_a);
                        self.tile_map_indexes.push((chunk.x, chunk.y, z));
                        self.tile_maps.push(map_b);
                        self.tile_map_indexes.push((chunk.x, chunk.y, other_z));
                        self.next_tile_map_index = self.next_tile_map_index + 2;
                        proof {
                            let n = w0.num_maps();
                            let w1 = *self;
                            assert forall|i: int| 0 <= i < w1.num_maps() implies (#[trigger] w1
                                .map_at(i)).wf() by {
                                if i < n {
                                    assert(w1.map_at(i) == w0.map_at(i));
                                    assert(w0.map_at(i).wf());
                                }
                            }
                            assert forall|i: int| 0 <= i < w1.num_maps() implies (#[trigger] w1
                                .tile_map_indexes@[i]).2 < 2 by {
                                if i < n {
                                    assert(w1.tile_map_indexes@[i] == w0.tile_map_indexes@[i]);
                                }
                            }
                            assert(w1.keys_unique()) by {
                                assert forall|i: int, j: int|
                                    0 <= i < w1.num_maps() && 0 <= j < w1.num_maps() && i
                                        != j implies #[trigger] w1.tile_map_indexes@[i]
                                    != #[trigger] w1.tile_map_indexes@[j] by {
                                    if i < n && j < n {
                                        assert(w0.tile_map_indexes@[i] != w0.tile_map_indexes@[j]);
                                    } else {
                                        if w1.tile_map_indexes@[i] == w1.tile_map_indexes@[j] {
                                            if i < n {
                                                assert(w0.key_is(
                                                    i,
                                                    chunk.x as int,
                                                    chunk.y as int,
                                                    w1.tile_map_indexes@[j].2 as int,
                                                ));
                                            } else if j < n {
                                                assert(w0.key_is(
                                                    j,
                                                    chunk.x as int,
                                                    chunk.y as int,
                                                    w1.tile_map_indexes@[i].2 as int,
                                                ));
                                            }
                                        }
                                    }
                                }
                            }
                            assert(w1.ladder_paired()) by {
                                assert forall|i: int, x: int, y: int|
                                    0 <= i < w1.num_maps() && TileMap::in_bounds(x, y)
                                        && #[trigger] w1.map_at(i).tile_at_spec(x, y)
                                        == TileType::Ladder implies w1.has_ladder_pair(
                                    i,
                                    x,
                                    y,
                                ) by {
                                    if i == n {
                                        // ladders of the first new map: its own cell,
                                        // or the second map's mirrored cell
                                        if !(x == lx && y == ly) {
                                            match ladder_b {
                                                Some(bp) => {
                                                    assert(x == bp.0 && y == bp.1);
                                                },
                                                None => {
                                                    assert(false);
                                                },
                                            }
                                        }
                                        assert(w1.map_at(n + 1).tile_at_spec(x, y)
                                            == TileType::Ladder);
                                        assert(w1.key_is(
                                            n + 1,
                                            w1.tile_map_indexes@[i].0 as int,
                                            w1.tile_map_indexes@[i].1 as int,
                                            other_floor(w1.tile_map_indexes@[i].2 as int),
                                        ));
                                    } else if i == n + 1 {
                                        // ladders of the second map: the forced cell,
                                        // or its own cell, both mirrored in the first
                                        if !(x == lx && y == ly) {
                                            match ladder_b {
                                                Some(bp) => {
                                                    assert(x == bp.0 && y == bp.1);
                                                },
                                                None => {
                                                    assert(false);
                                                },
                                            }
                                        }
                                        assert(w1.map_at(n).tile_at_spec(x, y)
                                            == TileType::Ladder);
                                        assert(other_floor(other_z as int) == z as int);
                                        assert(w1.key_is(
                                            n,
                                            w1.tile_map_indexes@[i].0 as int,
                                            w1.tile_map_indexes@[i].1 as int,
                                            other_floor(w1.tile_map_indexes@[i].2 as int),
                                        ));
                                    } else {
                                        assert(w0.map_at(i).tile_at_spec(x, y)
                                            == TileType::Ladder);
                                        assert(w0.has_ladder_pair(i, x, y));
                                        let j = choose|j: int|
                                            0 <= j < w0.num_maps() && #[trigger] w0.key_is(
                                                j,
                                                w0.tile_map_indexes@[i].0 as int,
                                                w0.tile_map_indexes@[i].1 as int,
                                                other_floor(w0.tile_map_indexes@[i].2 as int),
                                            ) && w0.map_at(j).tile_at_spec(x, y)
                                                == TileType::Ladder;
                                        assert(w1.map_at(j) == w0.map_at(j));
                                        assert(w1.key_is(
                                            j,
                                            w1.tile_map_indexes@[i].0 as int,
                                            w1.tile_map_indexes@[i].1 as int,
                                            other_floor(w1.tile_map_indexes@[i].2 as int),
                                        ));
                                    }
                                }
                            }
                        }
                        Ok(h)
                    },
                }
            },
        }
    }

    /// The tile map registered under the key, generating it (and, for a
    /// ladder, its other-floor pair) on first visit. Fails only when the
    /// key is fresh and the registry or arena cannot take the new map(s);
    /// a failed call leaves the world and the arena untouched.
    pub fn get_tilemap_at(&mut self, pos: Vector2<u32>, z: u8, memory: &mut Memory, rng: &mut Rng)
        -> (r: Result<usize, Error>)
        requires
            old(self).wf(),
            old(memory).wf(),
            z < 2,
        ensures
            final(self).wf(),
            final(memory).wf(),
            final(memory).data_len == old(memory).data_len,
            final(memory).initialized == old(memory).initialized,
            final(self).delta_t == old(self).delta_t,
            match r {
                Ok(h) => 0 <= h < final(self).num_maps() && final(self).key_is(
                    h as int,
                    pos.x as int,
                    pos.y as int,
                    z as int,
                ) && old(self).num_maps() <= final(self).num_maps() <= old(self).num_maps() + 2
                    && (!old(self).has_key(pos.x as int, pos.y as int, z as int) ==> border_ok(
                    final(self).map_at(h as int),
                ) && (forall|x: int, y: int|
                    TileMap::in_bounds(x, y) ==> #[trigger] final(self).map_at(
                        h as int,
                    ).tile_at_spec(x, y) == gen_tile(*old(rng), x, y) || Some((x as u16, y as u16))
                        == gen_ladder(gen_end(*old(rng))) && final(self).map_at(
                        h as int,
                    ).tile_at_spec(x, y) == TileType::Ladder)) && (forall|i: int|
                    0 <= i < old(self).num_maps() ==> #[trigger] final(self).tile_map_indexes@[i]
                        == old(self).tile_map_indexes@[i]),
                Err(e) => *final(self) == *old(self) && *final(memory) == *old(memory) && !old(
                    self,
                ).has_key(pos.x as int, pos.y as int, z as int) && (e == Error::OutOfTileMaps || e
                    == Error::OutOfMemory),
            },
            final(memory).next_allocation == old(memory).next_allocation + TILE_MAP_BYTES * (
            final(self).num_maps() - old(self).num_maps()),
            r is Ok ==> forall|i: int|
                0 <= i < old(self).num_maps() && !old(self).key_is(
                    i,
                    pos.x as int,
                    pos.y as int,
                    other_floor(z as int),
                ) ==> #[trigger] final(self).map_at(i) == old(self).map_at(i),
            r is Ok ==> forall|i: int, x: int, y: int|
                0 <= i < old(self).num_maps() && TileMap::in_bounds(x, y)
                    ==> #[trigger] final(self).map_at(i).tile_at_spec(x, y) == old(self).map_at(
                    i,
                ).tile_at_spec(x, y) || old(self).key_is(
                    i,
                    pos.x as int,
                    pos.y as int,
                    other_floor(z as int),
                ) && Some((x as u16, y as u16)) == gen_ladder(*old(rng)) && !is_border(x, y)
                    && final(self).map_at(i).tile_at_spec(x, y) == TileType::Ladder,
            old(self).has_key(pos.x as int, pos.y as int, z as int) ==> r is Ok && *final(self)
                == *old(self) && *final(memory) == *old(memory) && *final(rng) == *old(rng),
            !old(self).has_key(pos.x as int, pos.y as int, z as int) && old(self).num_maps() + 2
                <= PREALLOC_TILE_MAPS && old(memory).next_allocation + 2 * TILE_MAP_BYTES < old(
                memory,
            ).data_len ==> r is Ok,
            !old(self).has_key(pos.x as int, pos.y as int, z as int) && old(self).num_maps()
                == PREALLOC_TILE_MAPS ==> r == Err::<usize, Error>(Error::OutOfTileMaps),
    {
        match self.find_tilemap(pos, z) {
            Some(h) => {
                proof {
                    assert(self.has_key(pos.x as int, pos.y as int, z as int));
                }
                Ok(h)
            },
            None => self.init_tile_map(pos, z, memory, rng),
        }
    }
}

/// Two slots registered under the same key would contradict key
/// uniqueness: a key determines its slot.
pub proof fn lemma_key_index_unique(w: World, i: int, j: int, cx: int, cy: int, z: int)
    requires
        w.wf(),
        0 <= i < w.num_maps(),
        0 <= j < w.num_maps(),
        w.key_is(i, cx, cy, z),
        w.key_is(j, cx, cy, z),
    ensures
        i == j,
{
    if i != j {
        assert(w.tile_map_indexes@[i] != w.tile_map_indexes@[j]);
        assert(w.tile_map_indexes@[i].0 == w.tile_map_indexes@[j].0);
        assert(w.tile_map_indexes@[i].1 == w.tile_map_indexes@[j].1);
        assert(w.tile_map_indexes@[i].2 == w.tile_map_indexes@[j].2);
        lemma_tuple3_eq(w.tile_map_indexes@[i], w.tile_map_indexes@[j]);
    }
}

/// Componentwise equal key triples are equal.
proof fn lemma_tuple3_eq(a: (u32, u32, u8), b: (u32, u32, u8))
    requires
        a.0 == b.0,
        a.1 == b.1,
        a.2 == b.2,
    ensures
        a == b,
{
    let (a0, a1, a2) = a;
    let (b0, b1, b2) = b;
    assert(a == (a0, a1, a2));
    assert(b == (b0, b1, b2));
}

/// The tile the world's lookup yields under a key is the tile of the slot
/// registered under that key.
pub proof fn lemma_tile_of(w: World, h: int, cx: int, cy: int, z: int, x: int, y: int)
    requires
        w.wf(),
        0 <= h < w.num_maps(),
        w.key_is(h, cx, cy, z),
    ensures
        w.has_key(cx, cy, z),
        w.tile_of(cx, cy, z, x, y) == w.map_at(h).tile_at_spec(x, y),
{
    assert(w.has_key(cx, cy, z));
    let i = choose|i: int| 0 <= i < w.num_maps() && #[trigger] w.key_is(i, cx, cy, z);
    lemma_key_index_unique(w, i, h, cx, cy, z);
}

/// Law: ladder pairing symmetry. Whenever the registered map of a chunk on
/// floor `z` has a ladder at (`x`, `y`), the same chunk's other floor is
/// registered too and its map has a ladder at the same cell — whichever
/// floor was generated first.
pub proof fn lemma_ladder_pairing(w: World, cx: int, cy: int, z: int, x: int, y: int)
    requires
        w.wf(),
        w.has_key(cx, cy, z),
        TileMap::in_bounds(x, y),
        w.tile_of(cx, cy, z, x, y) == TileType::Ladder,
    ensures
        w.has_key(cx, cy, other_floor(z)),
        w.tile_of(cx, cy, other_floor(z), x, y) == TileType::Ladder,
{
    let i = choose|i: int| 0 <= i < w.num_maps() && #[trigger] w.key_is(i, cx, cy, z);
    lemma_tile_of(w, i, cx, cy, z, x, y);
    assert(w.map_at(i).tile_at_spec(x, y) == TileType::Ladder);
    assert(w.has_ladder_pair(i, x, y));
    let j = choose|j: int|
        0 <= j < w.num_maps() && #[trigger] w.key_is(
            j,
            w.tile_map_indexes@[i].0 as int,
            w.tile_map_indexes@[i].1 as int,
            other_floor(w.tile_map_indexes@[i].2 as int),
        ) && w.map_at(j).tile_at_spec(x, y) == TileType::Ladder;
    assert(w.key_is(j, cx, cy, other_floor(z)));
    lemma_tile_of(w, j, cx, cy, other_floor(z), x, y);
}

/// When a chunk's floor `z` is not registered, the other floor — if it is
/// registered — holds no ladder anywhere: its ladder would have to be
/// paired on floor `z`.
proof fn lemma_absent_key_pair_has_no_ladder(w: World, hb: int, cx: int, cy: int, z: int)
    requires
        w.wf(),
        0 <= z < 2,
        !w.has_key(cx, cy, z),
        0 <= hb < w.num_maps(),
        w.key_is(hb, cx, cy, other_floor(z)),
    ensures
        forall|x: int, y: int|
            TileMap::in_bounds(x, y) ==> #[trigger] w.map_at(hb).tile_at_spec(x, y)
                != TileType::Ladder,
{
    assert forall|x: int, y: int|
        TileMap::in_bounds(x, y) implies #[trigger] w.map_at(hb).tile_at_spec(x, y)
        != TileType::Ladder by {
        if w.map_at(hb).tile_at_spec(x, y) == TileType::Ladder {
            assert(w.has_ladder_pair(hb, x, y));
            let j = choose|j: int|
                0 <= j < w.num_maps() && #[trigger] w.key_is(
                    j,
                    w.tile_map_indexes@[hb].0 as int,
                    w.tile_map_indexes@[hb].1 as int,
                    other_floor(w.tile_map_indexes@[hb].2 as int),
                ) && w.map_at(j).tile_at_spec(x, y) == TileType::Ladder;
            assert(other_floor(other_floor(z)) == z);
            assert(w.key_is(j, cx, cy, z));
        }
    }
}

/// Procedurally fill one fresh tile map, following the row-major
/// generation law [`gen_tile`]: walls with centered doors along the
/// border, at most one randomly placed ladder in the interior (the first
/// interior cell whose draw is divisible by 64), and random interior walls
/// (a further draw divisible by 16). Returns the map and the cell of its
/// ladder, if one was placed.
fn generate_tile_map(rng: &mut Rng) -> (r: (TileMap, Option<(u16, u16)>))
    ensures
        r.0.wf(),
        border_ok(r.0),
        forall|x: int, y: int|
            TileMap::in_bounds(x, y) ==> #[trigger] r.0.tile_at_spec(x, y) == gen_tile(
                *old(rng),
                x,
                y,
            ),
        r.1 == gen_state(*old(rng), (TILE_MAP_ROWS * TILE_MAP_COLUMNS) as nat).1,
        *final(rng) == rng_warm(
            *old(rng),
            gen_state(*old(rng), (TILE_MAP_ROWS * TILE_MAP_COLUMNS) as nat).0,
        ),
        match r.1 {
            Some(pos) => 0 < pos.0 < TILE_MAP_COLUMNS - 1 && 0 < pos.1 < TILE_MAP_ROWS - 1
                && r.0.tile_at_spec(pos.0 as int, pos.1 as int) == TileType::Ladder && (forall|
                x: int,
                y: int,
            |
                TileMap::in_bounds(x, y) && !(x == pos.0 && y == pos.1)
                    ==> #[trigger] r.0.tile_at_spec(x, y) != TileType::Ladder),
            None => forall|x: int, y: int|
                TileMap::in_bounds(x, y) ==> #[trigger] r.0.tile_at_spec(x, y)
                    != TileType::Ladder,
        },
{
    let ghost r0 = *rng;
    let ghost mut k: nat = 0;
    let mut map = TileMap::new();
    let mut ladder: Option<(u16, u16)> = None;
    let mut y: u16 = 0;
    while y < TILE_MAP_ROWS
        invariant
            map.wf(),
            y <= TILE_MAP_ROWS,
            gen_state(r0, (y * TILE_MAP_COLUMNS) as nat) == (k, ladder),
            *rng == rng_warm(r0, k),
            forall|xx: int, yy: int|
                TileMap::in_bounds(xx, yy) && yy < y ==> #[trigger] map.tile_at_spec(xx, yy)
                    == gen_tile(r0, xx, yy),
            forall|xx: int, yy: int|
                TileMap::in_bounds(xx, yy) && yy >= y ==> #[trigger] map.tile_at_spec(xx, yy)
                    == TileType::Empty,
            forall|xx: int, yy: int|
                TileMap::in_bounds(xx, yy) && yy < y && is_border(xx, yy)
                    ==> #[trigger] map.tile_at_spec(xx, yy) == border_expected(xx, yy),
            match ladder {
                Some(pos) => 0 < pos.0 < TILE_MAP_COLUMNS - 1 && 0 < pos.1 < y
                    && map.tile_at_spec(pos.0 as int, pos.1 as int) == TileType::Ladder && (forall|
                    xx: int,
                    yy: int,
                |
                    TileMap::in_bounds(xx, yy) && !(xx == pos.0 && yy == pos.1)
                        ==> #[trigger] map.tile_at_spec(xx, yy) != TileType::Ladder),
                None => forall|xx: int, yy: int|
                    TileMap::in_bounds(xx, yy) ==> #[trigger] map.tile_at_spec(xx, yy)
                        != TileType::Ladder,
            },
        decreases TILE_MAP_ROWS - y,
    {
        let mut x: u16 = 0;
        while x < TILE_MAP_COLUMNS
            invariant
                map.wf(),
                y < TILE_MAP_ROWS,
                x <= TILE_MAP_COLUMNS,
                gen_state(r0, (y * TILE_MAP_COLUMNS + x) as nat) == (k, ladder),
                *rng == rng_warm(r0, k),
                forall|xx: int, yy: int|
                    TileMap::in_bounds(xx, yy) && (yy < y || (yy == y && xx < x))
                        ==> #[trigger] map.tile_at_spec(xx, yy) == gen_tile(r0, xx, yy),
                forall|xx: int, yy: int|
                    TileMap::in_bounds(xx, yy) && (yy > y || (yy == y && xx >= x))
                        ==> #[trigger] map.tile_at_spec(xx, yy) == TileType::Empty,
                forall|xx: int, yy: int|
                    TileMap::in_bounds(xx, yy) && (yy < y || (yy == y && xx < x)) && is_border(
                        xx,
                        yy,
                    ) ==> #[trigger] map.tile_at_spec(xx, yy) == border_expected(xx, yy),
                match ladder {
                    Some(pos) => 0 < pos.0 < TILE_MAP_COLUMNS - 1 && 0 < pos.1
                        < TILE_MAP_ROWS - 1 && (pos.1 < y || (pos.1 == y && pos.0 < x))
                        && map.tile_at_spec(pos.0 as int, pos.1 as int) == TileType::Ladder && (
                    forall|xx: int, yy: int|
                        TileMap::in_bounds(xx, yy) && !(xx == pos.0 && yy == pos.1)
                            ==> #[trigger] map.tile_at_spec(xx, yy) != TileType::Ladder),
                    None => forall|xx: int, yy: int|
                        TileMap::in_bounds(xx, yy) ==> #[trigger] map.tile_at_spec(xx, yy)
                            != TileType::Ladder,
                },
            decreases TILE_MAP_COLUMNS - x,
        {
            proof {
                // decode the scan index of this cell for the law's recursion
                vstd::arithmetic::div_mod::lemma_fundamental_div_mod_converse(
                    (y * TILE_MAP_COLUMNS + x) as int,
                    TILE_MAP_COLUMNS as int,
                    y as int,
                    x as int,
                );
                assert(gen_state(r0, (y * TILE_MAP_COLUMNS + x + 1) as nat) == ({
                    let prev = gen_state(r0, (y * TILE_MAP_COLUMNS + x) as nat);
                    if is_border(x as int, y as int) {
                        prev
                    } else if prev.1 is None {
                        if draw(r0, prev.0) % 64 == 0 {
                            ((prev.0 + 1) as nat, Some((x, y)))
                        } else {
                            ((prev.0 + 2) as nat, prev.1)
                        }
                    } else {
                        ((prev.0 + 1) as nat, prev.1)
                    }
                }));
            }
            if y == 0 || y == TILE_MAP_ROWS - 1 {
                let mid = TILE_MAP_COLUMNS / 2;
                if mid - 1 <= x && x <= mid + 1 {
                    map.set_tile_at(x, y, TileType::Empty);
                } else {
                    map.set_tile_at(x, y, TileType::Wall);
                }
            } else if x == 0 || x == TILE_MAP_COLUMNS - 1 {
                let mid = TILE_MAP_ROWS / 2;
                if mid - 1 <= y && y <= mid + 1 {
                    map.set_tile_at(x, y, TileType::Empty);
                } else {
                    map.set_tile_at(x, y, TileType::Wall);
                }
            } else {
                let mut placed = false;
                if ladder.is_none() {
                    let d = rng.next();
                    proof {
                        crate::rng::lemma_rng_warm_unfold(r0, k);
                        k = (k + 1) as nat;
                    }
                    if d % 64 == 0 {
                        map.set_tile_at(x, y, TileType::Ladder);
                        ladder = Some((x, y));
                        placed = true;
                    }
                }
                if !placed {
                    let d = rng.next();
                    proof {
                        crate::rng::lemma_rng_warm_unfold(r0, k);
                        k = (k + 1) as nat;
                    }
                    if d % 16 == 0 {
                        map.set_tile_at(x, y, TileType::Wall);
                    }
                }
            }
            x = x + 1;
        }
        y = y + 1;
    }
    (map, ladder)
}

/// Appending one fresh key with a ladder-free map keeps the registry
/// well-formed, provided the key was not registered before.
proof fn lemma_append_preserves_wf(w0: World, w1: World)
    requires
        w0.wf(),
        w0.num_maps() < PREALLOC_TILE_MAPS,
        w1.num_maps() == w0.num_maps() + 1,
        w1.tile_maps@.len() == w1.tile_map_indexes@.len(),
        w1.next_tile_map_index == w1.num_maps(),
        forall|i: int|
            0 <= i < w0.num_maps() ==> #[trigger] w1.tile_map_indexes@[i]
                == w0.tile_map_indexes@[i],
        forall|i: int| 0 <= i < w0.num_maps() ==> #[trigger] w1.map_at(i) == w0.map_at(i),
        (w1.tile_map_indexes@[w0.num_maps()]).2 < 2,
        !w0.has_key(
            w1.tile_map_indexes@[w0.num_maps()].0 as int,
            w1.tile_map_indexes@[w0.num_maps()].1 as int,
            w1.tile_map_indexes@[w0.num_maps()].2 as int,
        ),
        w1.map_at(w0.num_maps()).wf(),
        forall|x: int, y: int|
            TileMap::in_bounds(x, y) ==> #[trigger] w1.map_at(w0.num_maps()).tile_at_spec(x, y)
                != TileType::Ladder,
    ensures
        w1.wf(),
{
    let n = w0.num_maps();
    assert(w1.keys_unique()) by {
        assert forall|i: int, j: int|
            0 <= i < w1.num_maps() && 0 <= j < w1.num_maps() && i != j implies #[trigger] w1
            .tile_map_indexes@[i] != #[trigger] w1.tile_map_indexes@[j] by {
            if i < n && j < n {
                assert(w0.tile_map_indexes@[i] != w0.tile_map_indexes@[j]);
            } else if i == n && j < n {
                if w1.tile_map_indexes@[i] == w1.tile_map_indexes@[j] {
                    assert(w0.key_is(
                        j,
                        w1.tile_map_indexes@[n].0 as int,
                        w1.tile_map_indexes@[n].1 as int,
                        w1.tile_map_indexes@[n].2 as int,
                    ));
                }
            } else if j == n && i < n {
                if w1.tile_map_indexes@[i] == w1.tile_map_indexes@[j] {
                    assert(w0.key_is(
                        i,
                        w1.tile_map_indexes@[n].0 as int,
                        w1.tile_map_indexes@[n].1 as int,
                        w1.tile_map_indexes@[n].2 as int,
                    ));
                }
            }
        }
    }
    assert(w1.ladder_paired()) by {
        assert forall|i: int, x: int, y: int|
            0 <= i < w1.num_maps() && TileMap::in_bounds(x, y) && #[trigger] w1.map_at(
                i,
            ).tile_at_spec(x, y) == TileType::Ladder implies w1.has_ladder_pair(i, x, y) by {
            if i < n {
                assert(w0.map_at(i).tile_at_spec(x, y) == TileType::Ladder);
                assert(w0.has_ladder_pair(i, x, y));
                let j = choose|j: int|
                    0 <= j < w0.num_maps() && #[trigger] w0.key_is(
                        j,
                        w0.tile_map_indexes@[i].0 as int,
                        w0.tile_map_indexes@[i].1 as int,
                        other_floor(w0.tile_map_indexes@[i].2 as int),
                    ) && w0.map_at(j).tile_at_spec(x, y) == TileType::Ladder;
                assert(w1.key_is(
                    j,
                    w1.tile_map_indexes@[i].0 as int,
                    w1.tile_map_indexes@[i].1 as int,
                    other_floor(w1.tile_map_indexes@[i].2 as int),
                ));
            } else {
                assert(w1.map_at(n).tile_at_spec(x, y) != TileType::Ladder);
            }
        }
    }
}

} // verus!

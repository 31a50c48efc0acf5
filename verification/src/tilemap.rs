//! One chunk's tile grid.

use vstd::prelude::*;
use crate::color::Color;
use crate::vector::Vector2;
use crate::{TILE_MAP_COLUMNS, TILE_MAP_ROWS};

verus! {

/// Kind of tile that inhabits a cell of the world.
#[derive(Clone, Copy, Debug, PartialEq, Eq, Structural)]
pub enum TileType {
    /// Passable space.
    Empty,
    /// Impassable wall.
    Wall,
    /// Connection to the other floor.
    Ladder,
}

impl Default for TileType {
    /// A cell starts out passable.
    fn default() -> (r: Self)
        ensures
            r == TileType::Empty,
    {
        TileType::Empty
    }
}

impl TileType {
    /// The color a cell of this kind is painted with.
    pub fn color(self) -> (r: Color)
        ensures
            self == TileType::Wall ==> r == (Color { red: 255u8, green: 255u8, blue: 0u8, alpha: 0u8 }),
            self == TileType::Empty ==> r == (Color { red: 127u8, green: 127u8, blue: 127u8, alpha: 0u8 }),
            self == TileType::Ladder ==> r == (Color { red: 0u8, green: 0u8, blue: 255u8, alpha: 0u8 }),
    {
        match self {
            TileType::Wall => Color::rgb(255, 255, 0),
            TileType::Empty => Color::rgb(127, 127, 127),
            TileType::Ladder => Color::rgb(0, 0, 255),
        }
    }
}

/// A fixed grid of [`TileType`] cells for one chunk and floor.
///
/// Coordinates put y = 0 at the bottom row; storage is addressed top-down,
/// so lookups invert the row index.
#[derive(Clone, Debug, PartialEq, Eq)]
pub struct TileMap {
    /// Cells in row-major storage order, top row first.
    pub data: Vec<TileType>,
}

impl TileMap {
    /// Well-formed: exactly one cell per grid position.
    pub open spec fn wf(self) -> bool {
        self.data@.len() == TILE_MAP_ROWS * TILE_MAP_COLUMNS
    }

    /// The storage index of the cell at (`x`, `y`), y counted from the
    /// bottom.
    pub open spec fn index_of(x: int, y: int) -> int {
        (TILE_MAP_ROWS - 1 - y) * TILE_MAP_COLUMNS + x
    }

    /// The cell at (`x`, `y`), y counted from the bottom.
    pub open spec fn tile_at_spec(self, x: int, y: int) -> TileType {
        self.data@[Self::index_of(x, y)]
    }

    /// Whether (`x`, `y`) addresses a cell of the grid.
    pub open spec fn in_bounds(x: int, y: int) -> bool {
        0 <= x < TILE_MAP_COLUMNS && 0 <= y < TILE_MAP_ROWS
    }

    /// A grid with every cell empty.
    pub fn new() -> (r: TileMap)
        ensures
            r.wf(),
            forall|x: int, y: int|
                Self::in_bounds(x, y) ==> r.tile_at_spec(x, y) == TileType::Empty,
    {
        let mut data: Vec<TileType> = Vec::new();
        let total: usize = (TILE_MAP_ROWS as usize) * (TILE_MAP_COLUMNS as usize);
        while data.len() < total
            invariant
                total == TILE_MAP_ROWS * TILE_MAP_COLUMNS,
                data@.len() <= total,
                forall|i: int| 0 <= i < data@.len() ==> data@[i] == TileType::Empty,
            decreases total - data.len(),
        {
            data.push(TileType::Empty);
        }
        TileMap { data }
    }

    /// The cell at the given grid position.
    pub fn get_tile_at(&self, pos: Vector2<u16>) -> (t: TileType)
        requires
            self.wf(),
            pos.x < TILE_MAP_COLUMNS,
            pos.y < TILE_MAP_ROWS,
        ensures
            t == self.tile_at_spec(pos.x as int, pos.y as int),
    {
        let x = pos.x as usize;
        let y = (TILE_MAP_ROWS - 1 - pos.y) as usize;
        self.data[y * (TILE_MAP_COLUMNS as usize) + x]
    }

    /// Replace the cell at the given grid position; every other cell keeps
    /// its kind.
    pub fn set_tile_at(&mut self, x: u16, y: u16, val: TileType)
        requires
            old(self).wf(),
            x < TILE_MAP_COLUMNS,
            y < TILE_MAP_ROWS,
        ensures
            final(self).wf(),
            final(self).data@ == old(self).data@.update(Self::index_of(x as int, y as int), val),
            final(self).tile_at_spec(x as int, y as int) == val,
            forall|x2: int, y2: int|
                Self::in_bounds(x2, y2) && !(x2 == x && y2 == y) ==> final(self).tile_at_spec(
                    x2,
                    y2,
                ) == old(self).tile_at_spec(x2, y2),
    {
        let xi = x as usize;
        let yi = (TILE_MAP_ROWS - 1 - y) as usize;
        self.data.set(yi * (TILE_MAP_COLUMNS as usize) + xi, val);
        proof {
            assert forall|x2: int, y2: int|
                Self::in_bounds(x2, y2) && !(x2 == x && y2 == y) implies final(self).tile_at_spec(
                x2,
                y2,
            ) == old(self).tile_at_spec(x2, y2) by {
                assert(Self::index_of(x2, y2) != Self::index_of(x as int, y as int));
            }
        }
    }

    /// Every cell with its grid position, bottom row first: entry
    /// `y * TILE_MAP_COLUMNS + x` is (`x`, `y`, cell at (`x`, `y`)).
    pub fn enumerate_tiles(&self) -> (r: Vec<(u16, u16, TileType)>)
        requires
            self.wf(),
        ensures
            r@.len() == TILE_MAP_ROWS * TILE_MAP_COLUMNS,
            forall|i: int|
                0 <= i < r@.len() ==> r@[i].0 == i % (TILE_MAP_COLUMNS as int) && r@[i].1 == i / (
                TILE_MAP_COLUMNS as int) && r@[i].2 == self.tile_at_spec(
                    i % (TILE_MAP_COLUMNS as int),
                    i / (TILE_MAP_COLUMNS as int),
                ),
    {
        let mut r: Vec<(u16, u16, TileType)> = Vec::new();
        let mut y: u16 = 0;
        while y < TILE_MAP_ROWS
            invariant
                y <= TILE_MAP_ROWS,
                self.wf(),
                r@.len() == y * TILE_MAP_COLUMNS,
                forall|i: int|
                    0 <= i < r@.len() ==> r@[i].0 == i % (TILE_MAP_COLUMNS as int) && r@[i].1 == i
                        / (TILE_MAP_COLUMNS as int) && r@[i].2 == self.tile_at_spec(
                        i % (TILE_MAP_COLUMNS as int),
                        i / (TILE_MAP_COLUMNS as int),
                    ),
            decreases TILE_MAP_ROWS - y,
        {
            let mut x: u16 = 0;
            while x < TILE_MAP_COLUMNS
                invariant
                    x <= TILE_MAP_COLUMNS,
                    y < TILE_MAP_ROWS,
                    self.wf(),
                    r@.len() == y * TILE_MAP_COLUMNS + x,
                    forall|i: int|
                        0 <= i < r@.len() ==> r@[i].0 == i % (TILE_MAP_COLUMNS as int) && r@[i].1
                            == i / (TILE_MAP_COLUMNS as int) && r@[i].2 == self.tile_at_spec(
                            i % (TILE_MAP_COLUMNS as int),
                            i / (TILE_MAP_COLUMNS as int),
                        ),
                decreases TILE_MAP_COLUMNS - x,
            {
                let t = self.get_tile_at(Vector2 { x, y });
                r.push((x, y, t));
                proof {
                    let i = r@.len() - 1;
                    vstd::arithmetic::div_mod::lemma_fundamental_div_mod_converse(
                        i,
                        TILE_MAP_COLUMNS as int,
                        y as int,
                        x as int,
                    );
                }
                x = x + 1;
            }
            y = y + 1;
        }
        r
    }
}

} // verus!

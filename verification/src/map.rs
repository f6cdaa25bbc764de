//! The dungeon grid: tiles, the rooms it was built from, and the per-turn
//! index of which tiles are blocked and who stands on them.

use crate::dice::{draw_range, new_generator, roll_dice};
use crate::rect::{overlapping, Rect};
use rltk::Point;
use specs::Entity;
use vstd::prelude::*;

verus! {

/// A grid position of the `rltk` crate: two public `i32` fields, `x` and `y`.
#[verifier::external_type_specification]
pub struct ExPoint(Point);

/// Width of a generated dungeon, in tiles.
pub const WIDTH: usize = 80;

/// Height of a generated dungeon, in tiles.
pub const HEIGHT: usize = 50;

/// The most rooms that a generated dungeon can have.
pub const MAX_ROOMS: i32 = 30;

/// The least width and height of a generated room.
pub const MIN_SIZE: i32 = 6;

/// The bound that the width and height of a generated room stay below.
pub const MAX_SIZE: i32 = 10;

/// The cost of a step to a tile that shares an edge, in hundredths.
pub const STRAIGHT_COST: u32 = 100;

/// The cost of a step to a tile that shares only a corner, in hundredths.
pub const DIAGONAL_COST: u32 = 145;

/// What a tile is made of.
#[derive(PartialEq, Eq, Copy, Clone, Debug, Structural)]
pub enum TileType {
    Wall,
    Floor,
}

/// A dungeon: a grid of tiles kept row by row, with what is known of each
/// tile.
pub struct GameMap {
    pub tiles: Vec<TileType>,
    /// The rooms that were dug, in the order in which they were placed.
    pub rooms: Vec<Rect>,
    pub width: i32,
    pub height: i32,
    /// Whether a player has ever seen the tile.
    pub revealed_tiles: Vec<bool>,
    /// Whether the tile could not be entered when the index was last built.
    pub blocked: Vec<bool>,
    /// The entities that stood on the tile when the index was last built.
    pub tile_content: Vec<Vec<Entity>>,
}

/// The index of the tile in column `x` of row `y`, in a grid `width` wide.
pub open spec fn cell(width: int, x: int, y: int) -> int {
    y * width + x
}

/// The column of the tile at `idx`.
pub open spec fn col_of(width: int, idx: int) -> int {
    idx % width
}

/// The row of the tile at `idx`.
pub open spec fn row_of(width: int, idx: int) -> int {
    idx / width
}

/// Whether column `x` of row `y` lies strictly inside `room`, past its top
/// and left edges: the part of a room that is dug out.
pub open spec fn inside(room: Rect, x: int, y: int) -> bool {
    room.x1 < x <= room.x2 && room.y1 < y <= room.y2
}

/// `tiles` with the inside of `room` turned to floor.
pub open spec fn carved(tiles: Seq<TileType>, width: int, room: Rect) -> Seq<TileType> {
    Seq::new(
        tiles.len(),
        |i: int|
            if inside(room, col_of(width, i), row_of(width, i)) {
                TileType::Floor
            } else {
                tiles[i]
            },
    )
}

/// Whether the tile at `idx` is on the stretch of row `y` between columns
/// `lo` and `hi`, both included.
pub open spec fn on_row(width: int, lo: int, hi: int, y: int, idx: int) -> bool {
    exists|x: int| lo <= x <= hi && #[trigger] cell(width, x, y) == idx
}

/// Whether the tile at `idx` is on the stretch of column `x` between rows
/// `lo` and `hi`, both included.
pub open spec fn on_column(width: int, lo: int, hi: int, x: int, idx: int) -> bool {
    exists|y: int| lo <= y <= hi && #[trigger] cell(width, x, y) == idx
}

/// The lesser of `a` and `b`.
pub open spec fn lesser(a: int, b: int) -> int {
    if a <= b {
        a
    } else {
        b
    }
}

/// The greater of `a` and `b`.
pub open spec fn greater(a: int, b: int) -> int {
    if a >= b {
        a
    } else {
        b
    }
}

/// `tiles` with a corridor dug along row `y` from column `x1` to `x2`: every
/// tile of that stretch whose index is one of the grid becomes floor.
pub open spec fn tunneled_across(tiles: Seq<TileType>, width: int, x1: int, x2: int, y: int) -> Seq<
    TileType,
> {
    Seq::new(
        tiles.len(),
        |i: int|
            if on_row(width, lesser(x1, x2), greater(x1, x2), y, i) {
                TileType::Floor
            } else {
                tiles[i]
            },
    )
}

/// `tiles` with a corridor dug along column `x` from row `y1` to `y2`: every
/// tile of that stretch whose index is one of the grid becomes floor.
pub open spec fn tunneled_down(tiles: Seq<TileType>, width: int, y1: int, y2: int, x: int) -> Seq<
    TileType,
> {
    Seq::new(
        tiles.len(),
        |i: int|
            if on_column(width, lesser(y1, y2), greater(y1, y2), x, i) {
                TileType::Floor
            } else {
                tiles[i]
            },
    )
}

/// A corridor is the same dug from either end.
pub proof fn lemma_tunnel_either_way(tiles: Seq<TileType>, width: int, a: int, b: int, c: int)
    ensures
        tunneled_across(tiles, width, a, b, c) == tunneled_across(tiles, width, b, a, c),
        tunneled_down(tiles, width, a, b, c) == tunneled_down(tiles, width, b, a, c),
{
    assert(tunneled_across(tiles, width, a, b, c) =~= tunneled_across(tiles, width, b, a, c));
    assert(tunneled_down(tiles, width, a, b, c) =~= tunneled_down(tiles, width, b, a, c));
}

/// In a grid `width` wide, the tile in column `x` of row `y` has index
/// `y * width + x`, and that index leads back to `x` and `y`.
pub proof fn lemma_cell_roundtrip(width: int, x: int, y: int)
    requires
        0 <= x < width,
        0 <= y,
    ensures
        0 <= cell(width, x, y),
        col_of(width, cell(width, x, y)) == x,
        row_of(width, cell(width, x, y)) == y,
{
    vstd::arithmetic::div_mod::lemma_fundamental_div_mod_converse(y * width + x, width, y, x);
    assert(y * width >= 0) by (nonlinear_arith)
        requires
            y >= 0,
            width > 0,
    ;
}

/// In a grid `width` wide and `height` high, every index below
/// `width * height` names a column and a row of the grid.
pub proof fn lemma_index_roundtrip(width: int, height: int, idx: int)
    requires
        0 < width,
        0 <= idx < width * height,
    ensures
        0 <= col_of(width, idx) < width,
        0 <= row_of(width, idx) < height,
        cell(width, col_of(width, idx), row_of(width, idx)) == idx,
{
    vstd::arithmetic::div_mod::lemma_fundamental_div_mod(idx, width);
    vstd::arithmetic::div_mod::lemma_mod_bound(idx, width);
    let q = idx / width;
    assert(width * q == q * width) by (nonlinear_arith);
    assert(q < height) by (nonlinear_arith)
        requires
            q * width <= idx,
            idx < width * height,
            0 < width,
    ;
    assert(q >= 0) by (nonlinear_arith)
        requires
            q * width + idx % width == idx,
            0 <= idx % width < width,
            idx >= 0,
            0 < width,
    ;
}

/// A tile inside the grid has an index below the number of tiles.
pub proof fn lemma_cell_in_grid(width: int, height: int, x: int, y: int)
    requires
        0 <= x < width,
        0 <= y < height,
    ensures
        0 <= cell(width, x, y) < width * height,
{
    assert(y * width + x < width * height) by (nonlinear_arith)
        requires
            0 <= x < width,
            0 <= y < height,
    ;
    assert(y * width >= 0) by (nonlinear_arith)
        requires
            y >= 0,
            width > 0,
    ;
}

impl GameMap {
    /// The grid has a positive size that an `i32` can index, and every
    /// per-tile list has one entry for each tile.
    pub open spec fn wf(&self) -> bool {
        &&& 0 < self.width
        &&& 0 < self.height
        &&& self.width * self.height <= i32::MAX
        &&& self.tiles@.len() == self.width * self.height
        &&& self.revealed_tiles@.len() == self.width * self.height
        &&& self.blocked@.len() == self.width * self.height
        &&& self.tile_content@.len() == self.width * self.height
    }

    /// Whether column `x` of row `y` is a tile of the grid.
    pub open spec fn in_bounds(&self, x: int, y: int) -> bool {
        0 <= x < self.width && 0 <= y < self.height
    }

    /// Whether the dungeon is well formed.
    pub fn is_well_formed(&self) -> (ok: bool)
        ensures
            ok == self.wf(),
    {
        if self.width <= 0 || self.height <= 0 {
            return false;
        }
        assert(0 < self.width * self.height <= 0x4000_0000_0000_0000) by (nonlinear_arith)
            requires
                0 < self.width <= 0x8000_0000,
                0 < self.height <= 0x8000_0000,
        ;
        let count: i64 = self.width as i64 * self.height as i64;
        if count > 0x7fff_ffff {
            return false;
        }
        let count: usize = count as usize;
        self.tiles.len() == count && self.revealed_tiles.len() == count && self.blocked.len()
            == count && self.tile_content.len() == count
    }

    /// The index of the tile in column `x` of row `y`.
    pub fn xy_idx(&self, x: i32, y: i32) -> (idx: usize)
        requires
            0 <= x,
            0 <= y,
            0 <= self.width,
            cell(self.width as int, x as int, y as int) <= usize::MAX,
        ensures
            idx == cell(self.width as int, x as int, y as int),
    {
        assert(y * self.width >= 0) by (nonlinear_arith)
            requires
                y >= 0,
                self.width >= 0,
        ;
        (y as usize * self.width as usize) + x as usize
    }

    /// The column and the row of the tile at `idx`.
    pub fn idx_xy(&self, idx: usize) -> (r: (i32, i32))
        requires
            0 < self.width,
            idx <= i32::MAX,
        ensures
            r.0 == col_of(self.width as int, idx as int),
            r.1 == row_of(self.width as int, idx as int),
    {
        (idx as i32 % self.width, idx as i32 / self.width)
    }

    /// Whether the size of the grid and what is recorded per tile, the tiles
    /// themselves apart, are as in `other`.
    pub open spec fn same_index(&self, other: &GameMap) -> bool {
        &&& self.width == other.width
        &&& self.height == other.height
        &&& self.revealed_tiles == other.revealed_tiles
        &&& self.blocked == other.blocked
        &&& self.tile_content == other.tile_content
    }

    /// Whether every field but `tiles` is as in `other`.
    pub open spec fn same_frame(&self, other: &GameMap) -> bool {
        self.rooms == other.rooms && self.same_index(other)
    }

    /// Digs `room` out of the grid: every tile inside it becomes floor, and
    /// its top row and left column stay as they are.
    pub fn apply_room_to_map(&mut self, room: &Rect)
        requires
            old(self).wf(),
            -1 <= room.x1,
            room.x2 < old(self).width,
            -1 <= room.y1,
            room.y2 < old(self).height,
        ensures
            final(self).tiles@ == carved(old(self).tiles@, old(self).width as int, *room),
            final(self).same_frame(old(self)),
    {
        let ghost before = self.tiles@;
        let ghost w = self.width as int;
        let ghost h = self.height as int;
        assert forall|i: int| 0 <= i < before.len() implies cell(w, col_of(w, i), row_of(w, i))
            == i by {
            lemma_index_roundtrip(w, h, i);
        }
        let mut y: i64 = room.y1 as i64 + 1;
        while y <= room.y2 as i64
            invariant
                self.wf(),
                self.same_frame(old(self)),
                w == self.width,
                h == self.height,
                before.len() == self.tiles@.len(),
                -1 <= room.x1,
                room.x2 < w,
                room.y2 < h,
                room.y1 < y <= room.y2 + 1 || y == room.y1 + 1,
                0 <= y,
                forall|i: int| 0 <= i < before.len() ==> cell(w, col_of(w, i), row_of(w, i)) == i,
                forall|i: int|
                    0 <= i < before.len() ==> self.tiles@[i] == if inside(
                        *room,
                        col_of(w, i),
                        row_of(w, i),
                    ) && row_of(w, i) < y {
                        TileType::Floor
                    } else {
                        before[i]
                    },
            decreases room.y2 + 1 - y,
        {
            let mut x: i64 = room.x1 as i64 + 1;
            while x <= room.x2 as i64
                invariant
                    self.wf(),
                    self.same_frame(old(self)),
                    w == self.width,
                    h == self.height,
                    before.len() == self.tiles@.len(),
                    -1 <= room.x1,
                    room.x2 < w,
                    room.x1 < x <= room.x2 + 1 || x == room.x1 + 1,
                    0 <= x,
                    room.y1 < y <= room.y2,
                    0 <= y < h,
                    forall|i: int|
                        0 <= i < before.len() ==> cell(w, col_of(w, i), row_of(w, i)) == i,
                    forall|i: int|
                        0 <= i < before.len() ==> self.tiles@[i] == if inside(
                            *room,
                            col_of(w, i),
                            row_of(w, i),
                        ) && (row_of(w, i) < y || (row_of(w, i) == y && col_of(w, i) < x)) {
                            TileType::Floor
                        } else {
                            before[i]
                        },
                decreases room.x2 + 1 - x,
            {
                proof {
                    lemma_cell_roundtrip(w, x as int, y as int);
                    lemma_cell_in_grid(w, h, x as int, y as int);
                }
                let idx = self.xy_idx(x as i32, y as i32);
                self.tiles.set(idx, TileType::Floor);
                x = x + 1;
            }
            y = y + 1;
        }
        assert(self.tiles@ =~= carved(before, w, *room));
    }
}

impl GameMap {
    /// Digs a corridor along row `y` from column `x1` to `x2`. Tiles whose
    /// index falls outside the grid are passed over.
    pub fn apply_horizontal_tunnel(&mut self, x1: i32, x2: i32, y: i32)
        ensures
            final(self).tiles@ == tunneled_across(
                old(self).tiles@,
                old(self).width as int,
                x1 as int,
                x2 as int,
                y as int,
            ),
            final(self).same_frame(old(self)),
    {
        let ghost before = self.tiles@;
        let ghost w = self.width as int;
        let lo: i64 = if x1 <= x2 { x1 as i64 } else { x2 as i64 };
        let hi: i64 = if x1 <= x2 { x2 as i64 } else { x1 as i64 };
        let len: u64 = self.tiles.len() as u64;
        let mut x: i64 = lo;
        while x <= hi
            invariant
                self.same_frame(old(self)),
                w == self.width,
                before.len() == self.tiles@.len(),
                len == before.len(),
                len <= usize::MAX,
                lo == lesser(x1 as int, x2 as int),
                hi == greater(x1 as int, x2 as int),
                lo <= x <= hi + 1,
                forall|i: int|
                    0 <= i < before.len() ==> self.tiles@[i] == if on_row(
                        w,
                        lo as int,
                        x - 1,
                        y as int,
                        i,
                    ) {
                        TileType::Floor
                    } else {
                        before[i]
                    },
            decreases hi + 1 - x,
        {
            let idx: i64 = tile_index(self.width, x, y as i64);
            assert(idx == cell(w, x as int, y as int));
            if idx >= 0 && (idx as u64) < len {
                self.tiles.set(idx as usize, TileType::Floor);
            }
            x = x + 1;
        }
        assert(self.tiles@ =~= tunneled_across(before, w, x1 as int, x2 as int, y as int));
    }

    /// Digs a corridor along column `x` from row `y1` to `y2`. Tiles whose
    /// index falls outside the grid are passed over.
    pub fn apply_vertical_tunnel(&mut self, y1: i32, y2: i32, x: i32)
        ensures
            final(self).tiles@ == tunneled_down(
                old(self).tiles@,
                old(self).width as int,
                y1 as int,
                y2 as int,
                x as int,
            ),
            final(self).same_frame(old(self)),
    {
        let ghost before = self.tiles@;
        let ghost w = self.width as int;
        let lo: i64 = if y1 <= y2 { y1 as i64 } else { y2 as i64 };
        let hi: i64 = if y1 <= y2 { y2 as i64 } else { y1 as i64 };
        let len: u64 = self.tiles.len() as u64;
        let mut y: i64 = lo;
        while y <= hi
            invariant
                self.same_frame(old(self)),
                w == self.width,
                before.len() == self.tiles@.len(),
                len == before.len(),
                len <= usize::MAX,
                lo == lesser(y1 as int, y2 as int),
                hi == greater(y1 as int, y2 as int),
                lo <= y <= hi + 1,
                forall|i: int|
                    0 <= i < before.len() ==> self.tiles@[i] == if on_column(
                        w,
                        lo as int,
                        y - 1,
                        x as int,
                        i,
                    ) {
                        TileType::Floor
                    } else {
                        before[i]
                    },
            decreases hi + 1 - y,
        {
            let idx: i64 = tile_index(self.width, x as i64, y);
            assert(idx == cell(w, x as int, y as int));
            if idx >= 0 && (idx as u64) < len {
                self.tiles.set(idx as usize, TileType::Floor);
            }
            y = y + 1;
        }
        assert(self.tiles@ =~= tunneled_down(before, w, y1 as int, y2 as int, x as int));
    }
}

impl GameMap {
    /// Whether a walker may step onto column `x` of row `y`: the tile is
    /// off the outer ring of the grid and nothing blocks it.
    pub open spec fn exit_valid(&self, x: int, y: int) -> bool {
        &&& 1 <= x < self.width - 1
        &&& 1 <= y < self.height - 1
        &&& !self.blocked@[cell(self.width as int, x, y)]
    }

    /// The exit onto column `x` of row `y` at `cost`, if that step is
    /// valid, and nothing otherwise.
    pub open spec fn exit_toward(&self, x: int, y: int, cost: u32) -> Seq<(usize, u32)> {
        if self.exit_valid(x, y) {
            seq![(cell(self.width as int, x, y) as usize, cost)]
        } else {
            Seq::empty()
        }
    }

    /// The exits of the tile at `idx`, each with its cost in hundredths:
    /// east, west, south, north, then the four diagonals.
    pub open spec fn exits(&self, idx: int) -> Seq<(usize, u32)> {
        let x = col_of(self.width as int, idx);
        let y = row_of(self.width as int, idx);
        self.exit_toward(x + 1, y, STRAIGHT_COST) + self.exit_toward(x - 1, y, STRAIGHT_COST)
            + self.exit_toward(x, y + 1, STRAIGHT_COST) + self.exit_toward(x, y - 1, STRAIGHT_COST)
            + self.exit_toward(x + 1, y + 1, DIAGONAL_COST) + self.exit_toward(
            x + 1,
            y - 1,
            DIAGONAL_COST,
        ) + self.exit_toward(x - 1, y + 1, DIAGONAL_COST) + self.exit_toward(
            x - 1,
            y - 1,
            DIAGONAL_COST,
        )
    }

    /// Whether the tile at `idx` stops the eye: walls do, and so does
    /// everything beyond the grid.
    pub open spec fn opaque_at(&self, idx: int) -> bool {
        idx >= self.tiles@.len() || self.tiles@[idx] == TileType::Wall
    }

    /// Whether a walker may step onto column `x` of row `y`.
    pub fn is_exit_valid(&self, x: i32, y: i32) -> (r: bool)
        requires
            self.wf(),
        ensures
            r == self.exit_valid(x as int, y as int),
    {
        if x < 1 || x >= self.width - 1 || y < 1 || y >= self.height - 1 {
            return false;
        }
        proof {
            lemma_cell_in_grid(self.width as int, self.height as int, x as int, y as int);
        }
        !self.blocked[self.xy_idx(x, y)]
    }

    /// Adds to `exits` the step onto column `x` of row `y`, if it is valid.
    fn push_exit(&self, exits: &mut Vec<(usize, u32)>, x: i32, y: i32, cost: u32)
        requires
            self.wf(),
        ensures
            final(exits)@ == old(exits)@ + self.exit_toward(x as int, y as int, cost),
    {
        if self.is_exit_valid(x, y) {
            proof {
                lemma_cell_in_grid(self.width as int, self.height as int, x as int, y as int);
            }
            exits.push((self.xy_idx(x, y), cost));
            assert(exits@ =~= old(exits)@ + self.exit_toward(x as int, y as int, cost));
        } else {
            assert(exits@ =~= old(exits)@ + self.exit_toward(x as int, y as int, cost));
        }
    }

    /// The tiles that can be reached in one step from the tile at `idx`, each
    /// with the cost of the step in hundredths.
    pub fn get_available_exits(&self, idx: usize) -> (exits: Vec<(usize, u32)>)
        requires
            self.wf(),
            idx < self.tiles@.len(),
        ensures
            exits@ == self.exits(idx as int),
    {
        proof {
            lemma_index_roundtrip(self.width as int, self.height as int, idx as int);
        }
        let (x, y) = self.idx_xy(idx);
        let mut exits: Vec<(usize, u32)> = Vec::new();
        assert(exits@ =~= Seq::empty());
        self.push_exit(&mut exits, x + 1, y, STRAIGHT_COST);
        self.push_exit(&mut exits, x - 1, y, STRAIGHT_COST);
        self.push_exit(&mut exits, x, y + 1, STRAIGHT_COST);
        self.push_exit(&mut exits, x, y - 1, STRAIGHT_COST);
        self.push_exit(&mut exits, x + 1, y + 1, DIAGONAL_COST);
        self.push_exit(&mut exits, x + 1, y - 1, DIAGONAL_COST);
        self.push_exit(&mut exits, x - 1, y + 1, DIAGONAL_COST);
        self.push_exit(&mut exits, x - 1, y - 1, DIAGONAL_COST);
        assert(exits@ =~= self.exits(idx as int));
        exits
    }

    /// Empties the list of occupants of every tile.
    pub fn clear_all_content(&mut self)
        ensures
            final(self).tile_content@.len() == old(self).tile_content@.len(),
            forall|i: int|
                0 <= i < final(self).tile_content@.len() ==> (#[trigger] final(
                    self
                ).tile_content@[i])@ == Seq::<Entity>::empty(),
            final(self).tiles == old(self).tiles,
            final(self).rooms == old(self).rooms,
            final(self).width == old(self).width,
            final(self).height == old(self).height,
            final(self).revealed_tiles == old(self).revealed_tiles,
            final(self).blocked == old(self).blocked,
    {
        let n: usize = self.tile_content.len();
        let mut i: usize = 0;
        while i < n
            invariant
                i <= n,
                n == self.tile_content@.len(),
                n == old(self).tile_content@.len(),
                forall|k: int|
                    0 <= k < i ==> (#[trigger] self.tile_content@[k])@ == Seq::<Entity>::empty(),
                self.tiles == old(self).tiles,
                self.rooms == old(self).rooms,
                self.width == old(self).width,
                self.height == old(self).height,
                self.revealed_tiles == old(self).revealed_tiles,
                self.blocked == old(self).blocked,
            decreases n - i,
        {
            self.tile_content[i].clear();
            i = i + 1;
        }
    }

    /// Marks as blocked exactly the tiles that are walls.
    pub fn populates_blocked(&mut self)
        requires
            old(self).blocked@.len() == old(self).tiles@.len(),
        ensures
            final(self).blocked@.len() == old(self).blocked@.len(),
            forall|i: int|
                0 <= i < final(self).blocked@.len() ==> final(self).blocked@[i] == (old(
                    self
                ).tiles@[i] == TileType::Wall),
            final(self).tiles == old(self).tiles,
            final(self).rooms == old(self).rooms,
            final(self).width == old(self).width,
            final(self).height == old(self).height,
            final(self).revealed_tiles == old(self).revealed_tiles,
            final(self).tile_content == old(self).tile_content,
    {
        let n: usize = self.tiles.len();
        let mut i: usize = 0;
        while i < n
            invariant
                i <= n,
                n == self.tiles@.len(),
                n == self.blocked@.len(),
                forall|k: int| 0 <= k < i ==> self.blocked@[k] == (self.tiles@[k] == TileType::Wall),
                self.tiles == old(self).tiles,
                self.rooms == old(self).rooms,
                self.width == old(self).width,
                self.height == old(self).height,
                self.revealed_tiles == old(self).revealed_tiles,
                self.tile_content == old(self).tile_content,
            decreases n - i,
        {
            let wall = self.tiles[i] == TileType::Wall;
            self.blocked.set(i, wall);
            i = i + 1;
        }
    }
}

/// What the field of view of the `rltk` crate asks of a map. The exits and
/// distances that its route search asks for are not given here and stay at
/// the trait's defaults: see `get_available_exits` for the exits of a tile.
impl rltk::BaseMap for GameMap {
    /// Whether the tile at `idx` stops the eye.
    fn is_opaque(&self, idx: usize) -> (r: bool)
        ensures
            r == self.opaque_at(idx as int),
    {
        idx >= self.tiles.len() || self.tiles[idx] == TileType::Wall
    }
}

/// The size of the grid, from which the `rltk` crate works out its own
/// indexing: row by row, as `xy_idx` does.
impl rltk::Algorithm2D for GameMap {
    /// The width and the height of the grid.
    fn dimensions(&self) -> (r: Point)
        ensures
            r.x == self.width,
            r.y == self.height,
    {
        Point { x: self.width, y: self.height }
    }
}

/// `tiles` with an L-shaped corridor dug from `a` to `b`: along the row of
/// `a` and then the column of `b`, or, if not `horizontal_first`, along the
/// column of `a` and then the row of `b`.
pub open spec fn linked(
    tiles: Seq<TileType>,
    width: int,
    a: (int, int),
    b: (int, int),
    horizontal_first: bool,
) -> Seq<TileType> {
    if horizontal_first {
        tunneled_down(tunneled_across(tiles, width, a.0, b.0, a.1), width, a.1, b.1, b.0)
    } else {
        tunneled_across(tunneled_down(tiles, width, a.1, b.1, a.0), width, a.0, b.0, b.1)
    }
}

/// Whether the tile at `idx` is in the first or last column or row of a grid
/// `width` wide and `height` high.
pub open spec fn on_ring(width: int, height: int, idx: int) -> bool {
    ||| col_of(width, idx) == 0
    ||| col_of(width, idx) == width - 1
    ||| row_of(width, idx) == 0
    ||| row_of(width, idx) == height - 1
}

/// Whether `after` is `before` with some walls turned to floor, none of
/// them on the outer ring.
pub open spec fn dug_within(
    before: Seq<TileType>,
    after: Seq<TileType>,
    width: int,
    height: int,
) -> bool {
    &&& after.len() == before.len()
    &&& forall|i: int|
        0 <= i < before.len() && on_ring(width, height, i) ==> #[trigger] after[i] == before[i]
    &&& forall|i: int|
        0 <= i < before.len() && before[i] == TileType::Floor ==> #[trigger] after[i]
            == TileType::Floor
}

/// A corridor along a row off the outer ring, between columns off the outer
/// ring, leaves the ring alone.
pub proof fn lemma_tunnel_across_within(
    tiles: Seq<TileType>,
    width: int,
    height: int,
    x1: int,
    x2: int,
    y: int,
)
    requires
        1 <= x1 < width - 1,
        1 <= x2 < width - 1,
        1 <= y < height - 1,
    ensures
        dug_within(tiles, tunneled_across(tiles, width, x1, x2, y), width, height),
{
    let lo = lesser(x1, x2);
    let hi = greater(x1, x2);
    assert forall|i: int| 0 <= i < tiles.len() && on_ring(width, height, i) implies !on_row(
        width,
        lo,
        hi,
        y,
        i,
    ) by {
        if on_row(width, lo, hi, y, i) {
            let x = choose|x: int| lo <= x <= hi && #[trigger] cell(width, x, y) == i;
            lemma_cell_roundtrip(width, x, y);
        }
    }
}

/// A corridor along a column off the outer ring, between rows off the outer
/// ring, leaves the ring alone.
pub proof fn lemma_tunnel_down_within(
    tiles: Seq<TileType>,
    width: int,
    height: int,
    y1: int,
    y2: int,
    x: int,
)
    requires
        1 <= y1 < height - 1,
        1 <= y2 < height - 1,
        1 <= x < width - 1,
    ensures
        dug_within(tiles, tunneled_down(tiles, width, y1, y2, x), width, height),
{
    let lo = lesser(y1, y2);
    let hi = greater(y1, y2);
    assert forall|i: int| 0 <= i < tiles.len() && on_ring(width, height, i) implies !on_column(
        width,
        lo,
        hi,
        x,
        i,
    ) by {
        if on_column(width, lo, hi, x, i) {
            let y = choose|y: int| lo <= y <= hi && #[trigger] cell(width, x, y) == i;
            lemma_cell_roundtrip(width, x, y);
        }
    }
}

/// Whether the tile at `idx` is on an L-shaped path from `a` to `b`, one way
/// round or the other.
pub open spec fn on_elbow(width: int, a: (int, int), b: (int, int), idx: int) -> bool {
    ||| on_row(width, lesser(a.0, b.0), greater(a.0, b.0), a.1, idx)
    ||| on_column(width, lesser(a.1, b.1), greater(a.1, b.1), b.0, idx)
    ||| on_column(width, lesser(a.1, b.1), greater(a.1, b.1), a.0, idx)
    ||| on_row(width, lesser(a.0, b.0), greater(a.0, b.0), b.1, idx)
}

/// Whether the tile at `idx` lies inside the room at place `k` of `rooms`.
pub open spec fn in_room(rooms: Seq<Rect>, width: int, k: int, idx: int) -> bool {
    0 <= k < rooms.len() && inside(rooms[k], col_of(width, idx), row_of(width, idx))
}

/// Whether the tile at `idx` lies between the centers of the room at place
/// `k` of `rooms` and the room before it.
pub open spec fn in_corridor(rooms: Seq<Rect>, width: int, k: int, idx: int) -> bool {
    1 <= k < rooms.len() && on_elbow(
        width,
        rooms[k].spec_center(),
        rooms[k - 1].spec_center(),
        idx,
    )
}

/// Whether the tile at `idx` is one that `rooms` give cause to dig: it
/// lies inside one of them, or between the centers of two in a row.
pub open spec fn dug_for(rooms: Seq<Rect>, width: int, idx: int) -> bool {
    ||| exists|k: int| #[trigger] in_room(rooms, width, k, idx)
    ||| exists|k: int| #[trigger] in_corridor(rooms, width, k, idx)
}

/// Whether `tiles` hold an L-shaped corridor of floor from the center of
/// `a` to the center of `b`: digging it, one way round or the other, would
/// change nothing.
pub open spec fn joined(tiles: Seq<TileType>, width: int, a: Rect, b: Rect) -> bool {
    exists|horizontal_first: bool| #[trigger]
        linked(tiles, width, a.spec_center(), b.spec_center(), horizontal_first) == tiles
}

/// A corridor stays when more floor is dug.
pub proof fn lemma_joined_stays(
    before: Seq<TileType>,
    after: Seq<TileType>,
    width: int,
    a: Rect,
    b: Rect,
)
    requires
        joined(before, width, a, b),
        after.len() == before.len(),
        forall|i: int|
            0 <= i < before.len() && before[i] == TileType::Floor ==> #[trigger] after[i]
                == TileType::Floor,
    ensures
        joined(after, width, a, b),
{
    let hf = choose|hf: bool| #[trigger]
        linked(before, width, a.spec_center(), b.spec_center(), hf) == before;
    let dug = linked(before, width, a.spec_center(), b.spec_center(), hf);
    let again = linked(after, width, a.spec_center(), b.spec_center(), hf);
    assert forall|i: int| 0 <= i < after.len() implies again[i] == after[i] by {
        assert(dug[i] == before[i]);
    }
    assert(again =~= after);
}

/// Whether `room` has the width and the height of a generated room.
pub open spec fn sized(room: Rect) -> bool {
    &&& MIN_SIZE <= room.x2 - room.x1 < MAX_SIZE
    &&& MIN_SIZE <= room.y2 - room.y1 < MAX_SIZE
}

impl GameMap {
    /// Whether the tile at `idx` is on the outer ring of the grid.
    pub open spec fn on_border(&self, idx: int) -> bool {
        on_ring(self.width as int, self.height as int, idx)
    }

    /// Whether `room` lies in the grid and leaves its last column and row free.
    pub open spec fn room_in_grid(&self, room: Rect) -> bool {
        &&& 0 <= room.x1 <= room.x2 < self.width - 1
        &&& 0 <= room.y1 <= room.y2 < self.height - 1
    }

    /// Whether `room` overlaps none of the rooms placed so far.
    pub open spec fn clear_of_rooms(&self, room: Rect) -> bool {
        forall|k: int| 0 <= k < self.rooms@.len() ==> !overlapping(room, #[trigger] self.rooms@[k])
    }

    /// Whether nothing has been revealed, blocked or indexed yet.
    pub open spec fn unvisited(&self) -> bool {
        &&& forall|i: int| 0 <= i < self.revealed_tiles@.len() ==> !self.revealed_tiles@[i]
        &&& forall|i: int| 0 <= i < self.blocked@.len() ==> !self.blocked@[i]
        &&& forall|i: int|
            0 <= i < self.tile_content@.len() ==> (#[trigger] self.tile_content@[i])@
                == Seq::<Entity>::empty()
    }

    /// What holds of a dungeon while and after it is generated: its rooms
    /// have the generated sizes, lie in the grid and do not overlap one
    /// another; the outer ring of the grid is wall; the inside of each room
    /// is floor; a corridor runs from each room but the first to the room
    /// before it; and there is no floor but in rooms and corridors.
    pub open spec fn laid_out(&self) -> bool {
        &&& self.wf()
        &&& forall|k: int|
            0 <= k < self.rooms@.len() ==> sized(#[trigger] self.rooms@[k]) && self.room_in_grid(
                self.rooms@[k],
            )
        &&& forall|j: int, k: int|
            0 <= j < k < self.rooms@.len() ==> !overlapping(
                #[trigger] self.rooms@[j],
                #[trigger] self.rooms@[k],
            )
        &&& forall|i: int|
            0 <= i < self.tiles@.len() && self.on_border(i) ==> #[trigger] self.tiles@[i]
                == TileType::Wall
        &&& forall|k: int, i: int|
            0 <= k < self.rooms@.len() && 0 <= i < self.tiles@.len() && inside(
                #[trigger] self.rooms@[k],
                col_of(self.width as int, i),
                row_of(self.width as int, i),
            ) ==> #[trigger] self.tiles@[i] == TileType::Floor
        &&& forall|k: int|
            1 <= k < self.rooms@.len() ==> joined(
                self.tiles@,
                self.width as int,
                #[trigger] self.rooms@[k],
                self.rooms@[k - 1],
            )
        &&& forall|i: int|
            0 <= i < self.tiles@.len() && #[trigger] self.tiles@[i] == TileType::Floor ==> dug_for(
                self.rooms@,
                self.width as int,
                i,
            )
    }

    /// A grid of the given size that is all wall, with no room and with
    /// nothing revealed, blocked or indexed.
    pub fn walled(width: i32, height: i32) -> (map: GameMap)
        requires
            0 < width,
            0 < height,
            width * height <= i32::MAX,
        ensures
            map.wf(),
            map.width == width,
            map.height == height,
            map.rooms@.len() == 0,
            map.unvisited(),
            forall|i: int| 0 <= i < map.tiles@.len() ==> map.tiles@[i] == TileType::Wall,
    {
        assert(0 <= width * height) by (nonlinear_arith)
            requires
                0 < width,
                0 < height,
        ;
        let n: usize = (width as usize) * (height as usize);
        let mut tiles: Vec<TileType> = Vec::new();
        let mut revealed_tiles: Vec<bool> = Vec::new();
        let mut blocked: Vec<bool> = Vec::new();
        let mut tile_content: Vec<Vec<Entity>> = Vec::new();
        let mut i: usize = 0;
        while i < n
            invariant
                i <= n,
                tiles@.len() == i,
                revealed_tiles@.len() == i,
                blocked@.len() == i,
                tile_content@.len() == i,
                forall|k: int| 0 <= k < i ==> tiles@[k] == TileType::Wall,
                forall|k: int| 0 <= k < i ==> !revealed_tiles@[k],
                forall|k: int| 0 <= k < i ==> !blocked@[k],
                forall|k: int| 0 <= k < i ==> (#[trigger] tile_content@[k])@ == Seq::<Entity>::empty(),
            decreases n - i,
        {
            tiles.push(TileType::Wall);
            revealed_tiles.push(false);
            blocked.push(false);
            tile_content.push(Vec::new());
            i = i + 1;
        }
        GameMap { tiles, rooms: Vec::new(), width, height, revealed_tiles, blocked, tile_content }
    }

    /// Whether `room` overlaps none of the rooms placed so far.
    pub fn can_place(&self, room: &Rect) -> (r: bool)
        ensures
            r == self.clear_of_rooms(*room),
    {
        let mut k: usize = 0;
        while k < self.rooms.len()
            invariant
                k <= self.rooms@.len(),
                forall|j: int| 0 <= j < k ==> !overlapping(*room, #[trigger] self.rooms@[j]),
            decreases self.rooms@.len() - k,
        {
            if room.intersect(&self.rooms[k]) {
                return false;
            }
            k = k + 1;
        }
        true
    }

    /// Digs `room` out, links its center to the center of the room placed
    /// last, if there is one, and adds it to the rooms.
    pub fn place_room(&mut self, room: Rect, horizontal_first: bool)
        requires
            old(self).wf(),
            -1 <= room.x1,
            room.x2 < old(self).width,
            -1 <= room.y1,
            room.y2 < old(self).height,
        ensures
            final(self).rooms@ == old(self).rooms@.push(room),
            final(self).same_index(old(self)),
            final(self).tiles@ == if old(self).rooms@.len() == 0 {
                carved(old(self).tiles@, old(self).width as int, room)
            } else {
                linked(
                    carved(old(self).tiles@, old(self).width as int, room),
                    old(self).width as int,
                    room.spec_center(),
                    old(self).rooms@.last().spec_center(),
                    horizontal_first,
                )
            },
    {
        self.apply_room_to_map(&room);
        let count: usize = self.rooms.len();
        if count > 0 {
            let (x1, y1) = room.center();
            let (x2, y2) = self.rooms[count - 1].center();
            if horizontal_first {
                self.apply_horizontal_tunnel(x1, x2, y1);
                self.apply_vertical_tunnel(y1, y2, x2);
            } else {
                self.apply_vertical_tunnel(y1, y2, x1);
                self.apply_horizontal_tunnel(x1, x2, y2);
            }
        }
        self.rooms.push(room);
    }
}

/// Placing a room of a generated size, that lies in the grid and overlaps no
/// earlier room, keeps a dungeon laid out.
pub proof fn lemma_place_keeps_layout(
    before: GameMap,
    after: GameMap,
    room: Rect,
    horizontal_first: bool,
)
    requires
        before.laid_out(),
        sized(room),
        before.room_in_grid(room),
        before.clear_of_rooms(room),
        after.rooms@ == before.rooms@.push(room),
        after.same_index(&before),
        after.tiles@ == if before.rooms@.len() == 0 {
            carved(before.tiles@, before.width as int, room)
        } else {
            linked(
                carved(before.tiles@, before.width as int, room),
                before.width as int,
                room.spec_center(),
                before.rooms@.last().spec_center(),
                horizontal_first,
            )
        },
    ensures
        after.laid_out(),
{
    let w = before.width as int;
    let h = before.height as int;
    let t0 = before.tiles@;
    let t1 = carved(t0, w, room);
    assert(dug_within(t0, t1, w, h));
    if before.rooms@.len() == 0 {
        assert(dug_within(t0, after.tiles@, w, h));
    } else {
        let a = room.spec_center();
        let last = before.rooms@.last();
        assert(sized(last) && before.room_in_grid(last));
        let b = last.spec_center();
        if horizontal_first {
            let t2 = tunneled_across(t1, w, a.0, b.0, a.1);
            lemma_tunnel_across_within(t1, w, h, a.0, b.0, a.1);
            lemma_tunnel_down_within(t2, w, h, a.1, b.1, b.0);
            assert(dug_within(t0, after.tiles@, w, h));
        } else {
            let t2 = tunneled_down(t1, w, a.1, b.1, a.0);
            lemma_tunnel_down_within(t1, w, h, a.1, b.1, a.0);
            lemma_tunnel_across_within(t2, w, h, a.0, b.0, b.1);
            assert(dug_within(t0, after.tiles@, w, h));
        }
    }
    assert forall|k: int, i: int|
        0 <= k < after.rooms@.len() && 0 <= i < after.tiles@.len() && inside(
            #[trigger] after.rooms@[k],
            col_of(w, i),
            row_of(w, i),
        ) implies #[trigger] after.tiles@[i] == TileType::Floor by {
        if k < before.rooms@.len() {
            assert(after.rooms@[k] == before.rooms@[k]);
            assert(t0[i] == TileType::Floor);
        } else {
            assert(t1[i] == TileType::Floor);
        }
    }
    assert forall|k: int| 1 <= k < after.rooms@.len() implies joined(
        after.tiles@,
        w,
        #[trigger] after.rooms@[k],
        after.rooms@[k - 1],
    ) by {
        assert(after.rooms@[k - 1] == before.rooms@[k - 1]);
        if k < before.rooms@.len() {
            assert(after.rooms@[k] == before.rooms@[k]);
            lemma_joined_stays(t0, after.tiles@, w, before.rooms@[k], before.rooms@[k - 1]);
        } else {
            let again = linked(
                after.tiles@,
                w,
                room.spec_center(),
                before.rooms@.last().spec_center(),
                horizontal_first,
            );
            assert(again =~= after.tiles@);
        }
    }
    assert forall|i: int|
        0 <= i < after.tiles@.len() && #[trigger] after.tiles@[i]
            == TileType::Floor implies dug_for(after.rooms@, w, i) by {
        let last = before.rooms@.len() as int;
        if t0[i] == TileType::Floor {
            assert(dug_for(before.rooms@, w, i));
            if exists|k: int| #[trigger] in_room(before.rooms@, w, k, i) {
                let k = choose|k: int| #[trigger] in_room(before.rooms@, w, k, i);
                assert(after.rooms@[k] == before.rooms@[k]);
                assert(in_room(after.rooms@, w, k, i));
            } else {
                let k = choose|k: int| #[trigger] in_corridor(before.rooms@, w, k, i);
                assert(after.rooms@[k] == before.rooms@[k]);
                assert(after.rooms@[k - 1] == before.rooms@[k - 1]);
                assert(in_corridor(after.rooms@, w, k, i));
            }
        } else if t1[i] == TileType::Floor {
            assert(in_room(after.rooms@, w, last, i));
        } else {
            assert(after.rooms@[last - 1] == before.rooms@.last());
            assert(in_corridor(after.rooms@, w, last, i));
        }
    }
    assert forall|j: int, k: int| 0 <= j < k < after.rooms@.len() implies !overlapping(
        #[trigger] after.rooms@[j],
        #[trigger] after.rooms@[k],
    ) by {
        assert(after.rooms@[j] == before.rooms@[j]);
        if k < before.rooms@.len() {
            assert(after.rooms@[k] == before.rooms@[k]);
        } else {
            assert(!overlapping(room, before.rooms@[j]));
        }
    }
}

impl GameMap {
    /// Generates a dungeon: a grid of `WIDTH` by `HEIGHT` walls into which up
    /// to `MAX_ROOMS` rooms of random size are dug at random places. A room
    /// that would overlap an earlier one is dropped; every other room but
    /// the first is linked to the room before it by a corridor.
    pub fn new_map_rooms_and_corridors() -> (map: GameMap)
        ensures
            map.laid_out(),
            map.unvisited(),
            map.width == WIDTH,
            map.height == HEIGHT,
            1 <= map.rooms@.len() <= MAX_ROOMS,
    {
        let mut map = GameMap::walled(WIDTH as i32, HEIGHT as i32);
        let mut rng = new_generator();
        let mut round: i32 = 0;
        while round < MAX_ROOMS
            invariant
                0 <= round <= MAX_ROOMS,
                map.laid_out(),
                map.unvisited(),
                map.width == WIDTH,
                map.height == HEIGHT,
                map.rooms@.len() <= round,
                round > 0 ==> map.rooms@.len() >= 1,
            decreases MAX_ROOMS - round,
        {
            let w: i32 = draw_range(&mut rng, MIN_SIZE, MAX_SIZE);
            let h: i32 = draw_range(&mut rng, MIN_SIZE, MAX_SIZE);
            let x: i32 = roll_dice(&mut rng, 1, map.width - 1 - w) - 1;
            let y: i32 = roll_dice(&mut rng, 1, map.height - 1 - h) - 1;
            let new_room = Rect::new(x, y, w, h);
            if map.can_place(&new_room) {
                let horizontal_first = !map.rooms.is_empty() && draw_range(&mut rng, 0, 2) == 1;
                let ghost before = map;
                map.place_room(new_room, horizontal_first);
                proof {
                    lemma_place_keeps_layout(before, map, new_room, horizontal_first);
                }
            }
            round = round + 1;
        }
        map
    }
}

/// `y * width + x`, for any column and row that an `i32` can hold.
fn tile_index(width: i32, x: i64, y: i64) -> (idx: i64)
    requires
        i32::MIN <= x <= i32::MAX,
        i32::MIN <= y <= i32::MAX,
    ensures
        idx == cell(width as int, x as int, y as int),
{
    assert(-0x4000_0000_0000_0000 <= y * width <= 0x4000_0000_0000_0000) by (nonlinear_arith)
        requires
            -0x8000_0000 <= y <= 0x8000_0000,
            -0x8000_0000 <= width <= 0x8000_0000,
    ;
    y * (width as i64) + x
}

} // verus!

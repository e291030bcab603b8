//! Carving floor out of the rock: room interiors and the straight runs of a
//! corridor.

use vstd::prelude::*;
use vstd::arithmetic::div_mod::{lemma_fundamental_div_mod, lemma_fundamental_div_mod_converse};
use crate::geometry::{Position, Room};
use crate::grid::{DungeonMap, Grid, TileType};

verus! {

/// The smaller of two coordinates.
pub open spec fn lower(a: int, b: int) -> int {
    if a <= b {
        a
    } else {
        b
    }
}

/// The larger of two coordinates.
pub open spec fn upper(a: int, b: int) -> int {
    if a <= b {
        b
    } else {
        a
    }
}

/// For a positive `width`, `offset` is the `row`-th multiple of `width`
/// exactly when it divides evenly with quotient `row`.
proof fn lemma_whole_rows(offset: int, width: int, row: int)
    requires
        0 < width,
    ensures
        (offset % width == 0 && offset / width == row) <==> offset == row * width,
{
    if offset == row * width {
        lemma_fundamental_div_mod_converse(offset, width, row, 0);
    }
    if offset % width == 0 && offset / width == row {
        lemma_fundamental_div_mod(offset, width);
        assert(width * row == row * width) by (nonlinear_arith);
    }
}

impl Room {
    /// Whether the cell `(x, y)` is carved when the room is dug: the low row
    /// and the low column of the stored rectangle stay rock.
    pub open spec fn carves(self, x: int, y: int) -> bool {
        self.first.x < x <= self.second.x && self.first.y < y <= self.second.y
    }
}

impl Grid {
    /// Whether every cell that `room` carves lies inside the grid.
    pub open spec fn fits(self, room: Room) -> bool {
        ||| room.second.x <= room.first.x
        ||| room.second.y <= room.first.y
        ||| {
            &&& 0 <= room.first.x + 1
            &&& room.second.x < self.width
            &&& 0 <= room.first.y + 1
            &&& room.second.y < self.height
        }
    }

    /// Whether the tile at `index` lies on the horizontal run from `x1` to
    /// `x2` (in either order) in row `y`. The run is taken by index, so a
    /// column outside the grid lands in a neighbouring row.
    pub open spec fn on_row_run(self, index: int, x1: int, x2: int, y: int) -> bool {
        lower(x1, x2) <= index - y * self.width <= upper(x1, x2)
    }

    /// Whether the tile at `index` lies on the vertical run from `y1` to `y2`
    /// (in either order) in column `x`, taken by index as for a row.
    pub open spec fn on_column_run(self, index: int, y1: int, y2: int, x: int) -> bool {
        &&& (index - x) % self.width == 0
        &&& lower(y1, y2) <= (index - x) / self.width <= upper(y1, y2)
    }

    /// The grid with the interior of `room` turned to floor.
    pub open spec fn with_room_carved(self, room: Room) -> Grid {
        Grid {
            tiles: Seq::new(
                self.tiles.len(),
                |i: int|
                    if room.carves(i % self.width, i / self.width) {
                        TileType::Floor
                    } else {
                        self.tiles[i]
                    },
            ),
            ..self
        }
    }

    /// The grid with a horizontal corridor run turned to floor. The tile at
    /// index 0 is never carved by a corridor.
    pub open spec fn with_row_carved(self, x1: int, x2: int, y: int) -> Grid {
        Grid {
            tiles: Seq::new(
                self.tiles.len(),
                |i: int|
                    if 0 < i && self.on_row_run(i, x1, x2, y) {
                        TileType::Floor
                    } else {
                        self.tiles[i]
                    },
            ),
            ..self
        }
    }

    /// The grid with a vertical corridor run turned to floor. The tile at
    /// index 0 is never carved by a corridor.
    pub open spec fn with_column_carved(self, y1: int, y2: int, x: int) -> Grid {
        Grid {
            tiles: Seq::new(
                self.tiles.len(),
                |i: int|
                    if 0 < i && self.on_column_run(i, y1, y2, x) {
                        TileType::Floor
                    } else {
                        self.tiles[i]
                    },
            ),
            ..self
        }
    }

    /// The grid with an L-shaped corridor from `from` to `to`: the horizontal
    /// run first, in the row of `from`, then the vertical one in the column of
    /// `to`; or the vertical run first, in the column of `from`, then the
    /// horizontal one in the row of `to`. Where a run passes over the cell
    /// `(0, 0)`, that one tile is left as it was.
    pub open spec fn with_link(self, from: Position, to: Position, horizontal_first: bool) -> Grid {
        if horizontal_first {
            self.with_row_carved(from.x as int, to.x as int, from.y as int).with_column_carved(
                from.y as int,
                to.y as int,
                to.x as int,
            )
        } else {
            self.with_column_carved(from.y as int, to.y as int, from.x as int).with_row_carved(
                from.x as int,
                to.x as int,
                to.y as int,
            )
        }
    }
}

impl Grid {
    /// A horizontal run between two cells of the grid is the straight line
    /// between them: the cells of row `y` from the one column to the other.
    pub proof fn lemma_row_run_is_straight(self, index: int, x1: int, x2: int, y: int)
        requires
            self.wf(),
            0 <= index < self.tiles.len(),
            self.in_bound(x1, y),
            self.in_bound(x2, y),
        ensures
            self.on_row_run(index, x1, x2, y) <==> self.position_of(index).1 == y && lower(x1, x2)
                <= self.position_of(index).0 <= upper(x1, x2),
    {
        self.lemma_position_round_trip(index);
        if self.on_row_run(index, x1, x2, y) {
            self.lemma_index_round_trip(index - y * self.width, y);
        }
    }

    /// A vertical run between two cells of the grid is the straight line
    /// between them: the cells of column `x` from the one row to the other.
    pub proof fn lemma_column_run_is_straight(self, index: int, y1: int, y2: int, x: int)
        requires
            self.wf(),
            0 <= index < self.tiles.len(),
            self.in_bound(x, y1),
            self.in_bound(x, y2),
        ensures
            self.on_column_run(index, y1, y2, x) <==> self.position_of(index).0 == x && lower(
                y1,
                y2,
            ) <= self.position_of(index).1 <= upper(y1, y2),
    {
        self.lemma_position_round_trip(index);
        lemma_whole_rows(index - x, self.width, (index - x) / self.width);
        lemma_whole_rows(index - x, self.width, self.position_of(index).1);
        if self.on_column_run(index, y1, y2, x) {
            self.lemma_index_round_trip(x, (index - x) / self.width);
        }
    }
}

impl DungeonMap {
    /// Turns the interior of `room` to floor: the rows `first.y + 1 ..= second.y`
    /// of the columns `first.x + 1 ..= second.x`.
    pub fn add_room(&mut self, room: &Room)
        requires
            old(self).wf(),
            old(self)@.fits(*room),
        ensures
            final(self)@ == old(self)@.with_room_carved(*room),
            final(self).wf(),
    {
        let ghost before = self@;
        let mut y: i32 = room.first.y;
        while y < room.second.y
            invariant
                self.wf(),
                before.wf(),
                before.fits(*room),
                room.first.y <= y,
                y <= upper(room.first.y as int, room.second.y as int),
                self@ == (Grid { tiles: self.tiles@, ..before }),
                self.tiles.len() == before.tiles.len(),
                forall|i: int|
                    0 <= i < self.tiles.len() ==> self.tiles[i] == if room.first.x < i
                        % before.width <= room.second.x && room.first.y < i / before.width <= y {
                        TileType::Floor
                    } else {
                        before.tiles[i]
                    },
            decreases room.second.y - y,
        {
            y += 1;
            let mut x: i32 = room.first.x;
            while x < room.second.x
                invariant
                    self.wf(),
                    before.wf(),
                    before.fits(*room),
                    room.first.y < y <= room.second.y,
                    room.first.x <= x,
                    x <= upper(room.first.x as int, room.second.x as int),
                    self@ == (Grid { tiles: self.tiles@, ..before }),
                    self.tiles.len() == before.tiles.len(),
                    forall|i: int|
                        0 <= i < self.tiles.len() ==> self.tiles[i] == if (room.first.x < i
                            % before.width <= room.second.x && room.first.y < i / before.width < y)
                            || (room.first.x < i % before.width <= x && i / before.width == y) {
                            TileType::Floor
                        } else {
                            before.tiles[i]
                        },
                decreases room.second.x - x,
            {
                x += 1;
                let index = self.index_of(x, y);
                let ghost earlier = self.tiles@;
                self.tiles.set(index, TileType::Floor);
                proof {
                    before.lemma_index_round_trip(x as int, y as int);
                    assert forall|i: int| 0 <= i < self.tiles.len() implies self.tiles[i] == if (
                    room.first.x < i % before.width <= room.second.x && room.first.y < i
                        / before.width < y) || (room.first.x < i % before.width <= x && i
                        / before.width == y) {
                        TileType::Floor
                    } else {
                        before.tiles[i]
                    } by {
                        before.lemma_position_round_trip(i);
                        assert(self.tiles[i] == if i == index {
                            TileType::Floor
                        } else {
                            earlier[i]
                        });
                    }
                    assert(self@ =~= (Grid { tiles: self.tiles@, ..before }));
                }
            }
        }
        assert(self@ =~= before.with_room_carved(*room));
    }

    /// Carves the horizontal run of a corridor: every tile whose index is
    /// `y * width + x` for an `x` between `x1` and `x2`, as far as that index
    /// is above 0 and below the tile count.
    pub fn add_horizontal_tunnel(&mut self, x1: i32, x2: i32, y: i32)
        requires
            old(self).wf(),
        ensures
            final(self)@ == old(self)@.with_row_carved(x1 as int, x2 as int, y as int),
            final(self).wf(),
    {
        let ghost before = self@;
        let map_size: i64 = self.tiles.len() as i64;
        let low: i64 = if x1 <= x2 { x1 as i64 } else { x2 as i64 };
        let high: i64 = if x1 <= x2 { x2 as i64 } else { x1 as i64 };
        assert(-0x4000_0000_0000_0000 <= y * self.width <= 0x4000_0000_0000_0000)
            by (nonlinear_arith)
            requires
                -0x8000_0000 <= y <= 0x8000_0000,
                0 < self.width <= 0x8000_0000,
        ;
        let row_start: i64 = y as i64 * self.width as i64;
        let mut x: i64 = low;
        while x <= high
            invariant
                self.wf(),
                before.wf(),
                map_size == before.tiles.len(),
                low == lower(x1 as int, x2 as int),
                high == upper(x1 as int, x2 as int),
                low <= x <= high + 1,
                row_start == y * before.width,
                -0x4000_0000_0000_0000 <= row_start <= 0x4000_0000_0000_0000,
                self@ == (Grid { tiles: self.tiles@, ..before }),
                self.tiles.len() == before.tiles.len(),
                forall|i: int|
                    0 <= i < self.tiles.len() ==> self.tiles[i] == if 0 < i && low <= i - row_start
                        < x {
                        TileType::Floor
                    } else {
                        before.tiles[i]
                    },
            decreases high + 1 - x,
        {
            let index: i64 = row_start + x;
            if index > 0 && index < map_size {
                self.tiles.set(index as usize, TileType::Floor);
                assert(self@ =~= (Grid { tiles: self.tiles@, ..before }));
            }
            x += 1;
        }
        assert(self@ =~= before.with_row_carved(x1 as int, x2 as int, y as int));
    }

    /// Carves the vertical run of a corridor: every tile whose index is
    /// `y * width + x` for a `y` between `y1` and `y2`, as far as that index is
    /// above 0 and below the tile count.
    pub fn add_vertical_tunnel(&mut self, y1: i32, y2: i32, x: i32)
        requires
            old(self).wf(),
        ensures
            final(self)@ == old(self)@.with_column_carved(y1 as int, y2 as int, x as int),
            final(self).wf(),
    {
        let ghost before = self@;
        let map_size: i64 = self.tiles.len() as i64;
        let low: i64 = if y1 <= y2 { y1 as i64 } else { y2 as i64 };
        let high: i64 = if y1 <= y2 { y2 as i64 } else { y1 as i64 };
        let width: i64 = self.width as i64;
        let mut y: i64 = low;
        while y <= high
            invariant
                self.wf(),
                before.wf(),
                map_size == before.tiles.len(),
                width == before.width,
                low == lower(y1 as int, y2 as int),
                high == upper(y1 as int, y2 as int),
                low <= y <= high + 1,
                self@ == (Grid { tiles: self.tiles@, ..before }),
                self.tiles.len() == before.tiles.len(),
                forall|i: int|
                    0 <= i < self.tiles.len() ==> self.tiles[i] == if 0 < i && (i - x) % (
                    before.width) == 0 && low <= (i - x) / before.width < y {
                        TileType::Floor
                    } else {
                        before.tiles[i]
                    },
            decreases high + 1 - y,
        {
            assert(-0x4000_0000_0000_0000 <= y * width <= 0x4000_0000_0000_0000)
                by (nonlinear_arith)
                requires
                    -0x8000_0000 <= y <= 0x8000_0000,
                    0 < width <= 0x8000_0000,
            ;
            let index: i64 = y * width + x as i64;
            let ghost earlier = self.tiles@;
            if index > 0 && index < map_size {
                self.tiles.set(index as usize, TileType::Floor);
            }
            proof {
                assert forall|i: int| 0 <= i < self.tiles.len() implies self.tiles[i] == if 0 < i
                    && (i - x) % (before.width) == 0 && low <= (i - x) / before.width < y + 1 {
                    TileType::Floor
                } else {
                    before.tiles[i]
                } by {
                    lemma_whole_rows(i - x, before.width, y as int);
                    assert(self.tiles[i] == if i == index && 0 < index {
                        TileType::Floor
                    } else {
                        earlier[i]
                    });
                }
                assert(self@ =~= (Grid { tiles: self.tiles@, ..before }));
            }
            y += 1;
        }
        assert(self@ =~= before.with_column_carved(y1 as int, y2 as int, x as int));
    }
}

} // verus!

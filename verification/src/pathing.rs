//! What a pathfinder or a field-of-view algorithm asks of the map: the size of
//! the grid and, for a tile, the neighbours that can be stepped on and what
//! the step costs.

use vstd::prelude::*;
use crate::grid::{DungeonMap, Grid, TileType};
use crate::outside::{copy_exits, empty_exits, exit_list, push_exit, ExitList};

verus! {

/// The cost of a step to one of the four cardinal neighbours, in hundredths.
pub const CARDINAL_COST: u32 = 100;

/// The cost of a step to one of the four diagonal neighbours, in hundredths:
/// a little above the square root of two.
pub const DIAGONAL_COST: u32 = 145;

/// Eight sequences appended one by one to an empty one make up the first four
/// joined, followed by the last four joined.
proof fn lemma_four_and_four<T>(
    a: Seq<T>,
    b: Seq<T>,
    c: Seq<T>,
    d: Seq<T>,
    e: Seq<T>,
    f: Seq<T>,
    g: Seq<T>,
    h: Seq<T>,
)
    ensures
        Seq::<T>::empty() + a + b + c + d + e + f + g + h == (a + b + c + d) + (e + f + g + h),
{
    assert(Seq::<T>::empty() + a + b + c + d + e + f + g + h =~= (a + b + c + d) + (e + f + g + h));
}

impl View for ExitList {
    type V = Seq<(usize, u32)>;

    open spec fn view(&self) -> Seq<(usize, u32)> {
        exit_list(*self)
    }
}

impl ExitList {
    /// The exits as a vector, in their order.
    pub fn to_vec(&self) -> (items: Vec<(usize, u32)>)
        ensures
            items@ == self@,
    {
        copy_exits(self)
    }
}

impl Grid {
    /// Whether `(x, y)` is a cell of the grid that the blocked cache lets
    /// through.
    pub open spec fn passable(self, x: int, y: int) -> bool {
        self.in_bound(x, y) && !self.blocked[self.index_of(x, y)]
    }

    /// The exit to the cell `(x, y)`: one entry, with the index of the cell
    /// and `cost`, if the cell is passable, none if not.
    pub open spec fn exit_at(self, x: int, y: int, cost: u32) -> Seq<(usize, u32)> {
        if self.passable(x, y) {
            seq![(self.index_of(x, y) as usize, cost)]
        } else {
            Seq::empty()
        }
    }

    /// The exit from the tile at `index` to its neighbour `dx` columns and
    /// `dy` rows away.
    pub open spec fn exit_toward(self, index: int, dx: int, dy: int, cost: u32) -> Seq<
        (usize, u32),
    > {
        self.exit_at(self.position_of(index).0 + dx, self.position_of(index).1 + dy, cost)
    }

    /// The exits from the tile at `index` to its cardinal neighbours: west,
    /// east, north, south.
    pub open spec fn cardinal_exits(self, index: int) -> Seq<(usize, u32)> {
        self.exit_toward(index, -1, 0, CARDINAL_COST) + self.exit_toward(index, 1, 0, CARDINAL_COST)
            + self.exit_toward(index, 0, -1, CARDINAL_COST) + self.exit_toward(
            index,
            0,
            1,
            CARDINAL_COST,
        )
    }

    /// The exits from the tile at `index` to its diagonal neighbours:
    /// north-west, north-east, south-west, south-east. A diagonal step needs
    /// only its target to be passable.
    pub open spec fn diagonal_exits(self, index: int) -> Seq<(usize, u32)> {
        self.exit_toward(index, -1, -1, DIAGONAL_COST) + self.exit_toward(
            index,
            1,
            -1,
            DIAGONAL_COST,
        ) + self.exit_toward(index, -1, 1, DIAGONAL_COST) + self.exit_toward(
            index,
            1,
            1,
            DIAGONAL_COST,
        )
    }

    /// The exits from the tile at `index`: the cardinal ones, then the
    /// diagonal ones.
    pub open spec fn exits(self, index: int) -> Seq<(usize, u32)> {
        self.cardinal_exits(index) + self.diagonal_exits(index)
    }

    /// How many of the two neighbours of `at` on one axis lie within
    /// `0 .. extent`.
    pub open spec fn neighbours_on_axis(at: int, extent: int) -> int {
        (if 0 < at { 1int } else { 0int }) + (if at < extent - 1 { 1int } else { 0int })
    }

    /// The neighbour `dx` columns and `dy` rows from the tile at `index`, where
    /// it is a cell of the grid, has the index `index + dy * width + dx`.
    pub proof fn lemma_neighbour_index(self, index: int, dx: int, dy: int)
        requires
            self.wf(),
            0 <= index < self.tiles.len(),
            self.in_bound(self.position_of(index).0 + dx, self.position_of(index).1 + dy),
        ensures
            self.index_of(self.position_of(index).0 + dx, self.position_of(index).1 + dy) == index
                + dy * self.width + dx,
            0 <= index + dy * self.width + dx < self.tiles.len(),
    {
        let (x, y) = self.position_of(index);
        self.lemma_position_round_trip(index);
        self.lemma_index_round_trip(x + dx, y + dy);
        assert((y + dy) * self.width == y * self.width + dy * self.width) by (nonlinear_arith);
    }

    /// On a grid of floor only whose blocked cache is up to date, the exit
    /// toward a neighbour exists exactly when the neighbour is a cell.
    proof fn lemma_open_exit(self, index: int, dx: int, dy: int, cost: u32)
        requires
            self.wf(),
            0 <= index < self.tiles.len(),
            -1 <= dx <= 1,
            -1 <= dy <= 1,
            forall|i: int| 0 <= i < self.tiles.len() ==> !self.blocked[i],
        ensures
            self.exit_toward(index, dx, dy, cost) == if self.in_bound(
                self.position_of(index).0 + dx,
                self.position_of(index).1 + dy,
            ) {
                seq![((index + dy * self.width + dx) as usize, cost)]
            } else {
                Seq::empty()
            },
    {
        let (x, y) = self.position_of(index);
        if self.in_bound(x + dx, y + dy) {
            self.lemma_neighbour_index(index, dx, dy);
        }
    }

    /// Every cardinal exit costs `CARDINAL_COST` and every diagonal exit
    /// `DIAGONAL_COST`.
    pub proof fn lemma_exit_costs(self, index: int)
        ensures
            forall|k: int|
                0 <= k < self.cardinal_exits(index).len() ==> (#[trigger] self.cardinal_exits(
                    index,
                )[k]).1 == CARDINAL_COST,
            forall|k: int|
                0 <= k < self.diagonal_exits(index).len() ==> (#[trigger] self.diagonal_exits(
                    index,
                )[k]).1 == DIAGONAL_COST,
    {
    }

    /// With no wall on the grid and the blocked cache up to date, a tile has
    /// one exit for each neighbouring cell: with `across` neighbouring columns
    /// and `down` neighbouring rows, `across + down` cardinal exits and
    /// `across * down` diagonal ones. That is four of each in the interior,
    /// 3 and 2 on an edge, 2 and 1 in a corner of a grid at least two cells
    /// wide and high.
    pub proof fn lemma_exits_without_walls(self, index: int)
        requires
            self.wf(),
            0 <= index < self.tiles.len(),
            forall|i: int| 0 <= i < self.tiles.len() ==> self.tiles[i] == TileType::Floor,
            forall|i: int|
                0 <= i < self.tiles.len() ==> self.blocked[i] == (self.tiles[i] == TileType::Wall),
        ensures
            ({
                let (x, y) = self.position_of(index);
                let across = Grid::neighbours_on_axis(x, self.width);
                let down = Grid::neighbours_on_axis(y, self.height);
                &&& self.cardinal_exits(index).len() == across + down
                &&& self.diagonal_exits(index).len() == across * down
                &&& self.exits(index).len() == (across + 1) * (down + 1) - 1
                &&& 0 < x < self.width - 1 && 0 < y < self.height - 1 ==> self.exits(index) == seq![
                    ((index - 1) as usize, CARDINAL_COST),
                    ((index + 1) as usize, CARDINAL_COST),
                    ((index - self.width) as usize, CARDINAL_COST),
                    ((index + self.width) as usize, CARDINAL_COST),
                    ((index - self.width - 1) as usize, DIAGONAL_COST),
                    ((index - self.width + 1) as usize, DIAGONAL_COST),
                    ((index + self.width - 1) as usize, DIAGONAL_COST),
                    ((index + self.width + 1) as usize, DIAGONAL_COST),
                ]
            }),
    {
        let (x, y) = self.position_of(index);
        let width = self.width;
        self.lemma_position_round_trip(index);
        self.lemma_open_exit(index, -1, 0, CARDINAL_COST);
        self.lemma_open_exit(index, 1, 0, CARDINAL_COST);
        self.lemma_open_exit(index, 0, -1, CARDINAL_COST);
        self.lemma_open_exit(index, 0, 1, CARDINAL_COST);
        self.lemma_open_exit(index, -1, -1, DIAGONAL_COST);
        self.lemma_open_exit(index, 1, -1, DIAGONAL_COST);
        self.lemma_open_exit(index, -1, 1, DIAGONAL_COST);
        self.lemma_open_exit(index, 1, 1, DIAGONAL_COST);
        assert(1 * width == width && (-1) * width == -width && 0 * width == 0);
        let west: int = if 0 < x { 1 } else { 0 };
        let east: int = if x < self.width - 1 { 1 } else { 0 };
        let north: int = if 0 < y { 1 } else { 0 };
        let south: int = if y < self.height - 1 { 1 } else { 0 };
        assert(self.exit_toward(index, -1, 0, CARDINAL_COST).len() == west);
        assert(self.exit_toward(index, 1, 0, CARDINAL_COST).len() == east);
        assert(self.exit_toward(index, 0, -1, CARDINAL_COST).len() == north);
        assert(self.exit_toward(index, 0, 1, CARDINAL_COST).len() == south);
        assert(self.exit_toward(index, -1, -1, DIAGONAL_COST).len() == west * north);
        assert(self.exit_toward(index, 1, -1, DIAGONAL_COST).len() == east * north);
        assert(self.exit_toward(index, -1, 1, DIAGONAL_COST).len() == west * south);
        assert(self.exit_toward(index, 1, 1, DIAGONAL_COST).len() == east * south);
        assert(west * north + east * north + west * south + east * south == (west + east) * (north
            + south)) by (nonlinear_arith);
        assert(((west + east) + 1) * ((north + south) + 1) - 1 == (west + east) + (north + south) + (
        west + east) * (north + south)) by (nonlinear_arith);
    }
}

impl DungeonMap {
    /// Whether `(x, y)` is a cell that can be stepped on, by the blocked cache.
    pub fn is_exit_valid(&self, x: i32, y: i32) -> (valid: bool)
        requires
            self.wf(),
        ensures
            valid == self@.passable(x as int, y as int),
    {
        if !self.is_in_bound(x, y) {
            return false;
        }
        let index = self.index_of(x, y);
        !self.blocked_tiles[index]
    }

    /// Appends the exit to the cell `(x, y)` if that cell can be stepped on.
    fn push_if_valid(&self, exits: &mut ExitList, x: i32, y: i32, cost: u32)
        requires
            self.wf(),
            old(exits)@.len() < 10,
        ensures
            final(exits)@ == old(exits)@ + self@.exit_at(x as int, y as int, cost),
    {
        if self.is_exit_valid(x, y) {
            push_exit(exits, (self.index_of(x, y), cost));
        }
        assert(exits@ =~= old(exits)@ + self@.exit_at(x as int, y as int, cost));
    }

    /// The neighbours of the tile at `index` that can be stepped on, each with
    /// the cost of the step in hundredths.
    pub fn get_available_exits(&self, index: usize) -> (exits: ExitList)
        requires
            self.wf(),
            index < i32::MAX,
        ensures
            exits@ == self@.exits(index as int),
    {
        let mut exits = empty_exits();
        let (x, y) = self.position_of(index);
        proof {
            let grid = self@;
            let i = index as int;
            vstd::arithmetic::div_mod::lemma_mod_bound(i, grid.width);
            vstd::arithmetic::div_mod::lemma_div_pos_is_pos(i, grid.width);
            vstd::arithmetic::div_mod::lemma_div_nonincreasing(i, grid.width);
            lemma_four_and_four(
                grid.exit_toward(i, -1, 0, CARDINAL_COST),
                grid.exit_toward(i, 1, 0, CARDINAL_COST),
                grid.exit_toward(i, 0, -1, CARDINAL_COST),
                grid.exit_toward(i, 0, 1, CARDINAL_COST),
                grid.exit_toward(i, -1, -1, DIAGONAL_COST),
                grid.exit_toward(i, 1, -1, DIAGONAL_COST),
                grid.exit_toward(i, -1, 1, DIAGONAL_COST),
                grid.exit_toward(i, 1, 1, DIAGONAL_COST),
            );
        }

        // Cardinal directions
        self.push_if_valid(&mut exits, x - 1, y, CARDINAL_COST);
        self.push_if_valid(&mut exits, x + 1, y, CARDINAL_COST);
        self.push_if_valid(&mut exits, x, y - 1, CARDINAL_COST);
        self.push_if_valid(&mut exits, x, y + 1, CARDINAL_COST);

        // Diagonals
        self.push_if_valid(&mut exits, x - 1, y - 1, DIAGONAL_COST);
        self.push_if_valid(&mut exits, x + 1, y - 1, DIAGONAL_COST);
        self.push_if_valid(&mut exits, x - 1, y + 1, DIAGONAL_COST);
        self.push_if_valid(&mut exits, x + 1, y + 1, DIAGONAL_COST);

        exits
    }

    /// The width and the height of the grid.
    pub fn dimensions(&self) -> (size: (i32, i32))
        ensures
            size == (self.width, self.height),
    {
        (self.width, self.height)
    }
}

} // verus!

//! The tile grid: flat row-major storage, its mathematical model, and the
//! conversions between a linear index and a coordinate pair.

use vstd::prelude::*;
use vstd::arithmetic::div_mod::{lemma_fundamental_div_mod, lemma_fundamental_div_mod_converse};
use specs::Entity;
use crate::geometry::{Position, Room};

verus! {

/// What one cell of the grid holds.
#[derive(Clone, Copy, Debug, PartialEq, Eq, Structural)]
pub enum TileType {
    Wall,
    Floor,
}

/// The dungeon of one level.
///
/// `tiles`, `blocked_tiles` and `entities` are parallel, row-major and
/// `width * height` long. `blocked_tiles` is a cache of `tiles` that
/// [`DungeonMap::update_blocked_tiles`] refreshes; `entities` is the per-tile
/// occupant list that the caller rebuilds every tick.
pub struct DungeonMap {
    pub width: i32,
    pub height: i32,
    pub tiles: Vec<TileType>,
    pub rooms: Vec<Room>,
    pub blocked_tiles: Vec<bool>,
    pub entities: Vec<Vec<Entity>>,
}

/// The mathematical model of a [`DungeonMap`].
#[verifier::ext_equal]
pub struct Grid {
    pub width: int,
    pub height: int,
    pub tiles: Seq<TileType>,
    pub rooms: Seq<Room>,
    pub blocked: Seq<bool>,
    pub occupants: Seq<Seq<Entity>>,
}

impl Grid {
    /// The dimensions are positive, the cell count fits an `i32`, and the three
    /// per-tile sequences hold one entry per cell.
    pub open spec fn wf(self) -> bool {
        &&& 0 < self.width
        &&& 0 < self.height
        &&& self.width * self.height <= i32::MAX
        &&& self.tiles.len() == self.width * self.height
        &&& self.blocked.len() == self.tiles.len()
        &&& self.occupants.len() == self.tiles.len()
    }

    /// Whether `(x, y)` names a cell of the grid.
    pub open spec fn in_bound(self, x: int, y: int) -> bool {
        0 <= x < self.width && 0 <= y < self.height
    }

    /// The row-major index of `(x, y)`.
    pub open spec fn index_of(self, x: int, y: int) -> int {
        y * self.width + x
    }

    /// The coordinates `(x, y)` of the cell at `index`.
    pub open spec fn position_of(self, index: int) -> (int, int) {
        (index % self.width, index / self.width)
    }

    /// The grid once its blocked cache has been recomputed from its tiles.
    pub open spec fn refreshed(self) -> Grid {
        Grid {
            blocked: Seq::new(self.tiles.len(), |i: int| self.tiles[i] == TileType::Wall),
            ..self
        }
    }

    /// The grid with every occupant list emptied.
    pub open spec fn vacated(self) -> Grid {
        Grid {
            occupants: Seq::new(self.occupants.len(), |i: int| Seq::<Entity>::empty()),
            ..self
        }
    }

    /// Converting an in-bound coordinate to its index and back gives the
    /// coordinate again, and the index names a tile.
    pub proof fn lemma_index_round_trip(self, x: int, y: int)
        requires
            self.wf(),
            self.in_bound(x, y),
        ensures
            0 <= self.index_of(x, y) < self.tiles.len(),
            self.position_of(self.index_of(x, y)) == (x, y),
    {
        let w = self.width;
        let h = self.height;
        assert(0 <= y * w && y * w + w <= h * w) by (nonlinear_arith)
            requires
                0 <= y < h,
                0 < w,
        ;
        lemma_fundamental_div_mod_converse(y * w + x, w, y, x);
    }

    /// Every tile index is the index of exactly the in-bound coordinate that
    /// `position_of` gives for it.
    pub proof fn lemma_position_round_trip(self, index: int)
        requires
            self.wf(),
            0 <= index < self.tiles.len(),
        ensures
            self.in_bound(self.position_of(index).0, self.position_of(index).1),
            self.index_of(self.position_of(index).0, self.position_of(index).1) == index,
    {
        let w = self.width;
        let h = self.height;
        let q = index / w;
        lemma_fundamental_div_mod(index, w);
        assert(w * q == q * w) by (nonlinear_arith);
        assert(0 <= q < h) by (nonlinear_arith)
            requires
                0 < w,
                0 <= index < w * h,
                index == q * w + index % w,
                0 <= index % w < w,
        ;
    }
}

impl View for DungeonMap {
    type V = Grid;

    open spec fn view(&self) -> Grid {
        Grid {
            width: self.width as int,
            height: self.height as int,
            tiles: self.tiles@,
            rooms: self.rooms@,
            blocked: self.blocked_tiles@,
            occupants: Seq::new(self.entities@.len(), |i: int| self.entities@[i]@),
        }
    }
}

impl DungeonMap {
    /// The invariant of the type: see [`Grid::wf`].
    pub open spec fn wf(&self) -> bool {
        self@.wf()
    }

    /// The row-major index of the in-bound coordinate `(x, y)`.
    pub fn index_of(&self, x: i32, y: i32) -> (index: usize)
        requires
            self.wf(),
            self@.in_bound(x as int, y as int),
        ensures
            index == self@.index_of(x as int, y as int),
            index < self.tiles.len(),
    {
        proof {
            self@.lemma_index_round_trip(x as int, y as int);
            assert(0 <= y * self.width) by (nonlinear_arith)
                requires
                    0 <= y,
                    0 < self.width,
            ;
        }
        (y as usize * self.width as usize) + x as usize
    }

    /// The coordinates of the cell at `index`.
    pub fn position_of(&self, index: usize) -> (position: (i32, i32))
        requires
            self.wf(),
            index <= i32::MAX,
        ensures
            position.0 == self@.position_of(index as int).0,
            position.1 == self@.position_of(index as int).1,
    {
        (index as i32 % self.width, index as i32 / self.width)
    }

    /// Where the first actor is placed: the centre of the first room.
    pub fn starting_position(&self) -> (start: Position)
        requires
            self.rooms.len() > 0,
        ensures
            start == self.rooms[0].spec_center(),
    {
        self.rooms[0].center()
    }

    /// Whether `(x, y)` names a cell of the grid.
    pub fn is_in_bound(&self, x: i32, y: i32) -> (inside: bool)
        ensures
            inside == self@.in_bound(x as int, y as int),
    {
        x >= 0 && x < self.width && y >= 0 && y < self.height
    }

    /// Whether the tile at `index` blocks the line of sight.
    pub fn is_opaque(&self, index: usize) -> (opaque: bool)
        requires
            index < self.tiles.len(),
        ensures
            opaque == (self.tiles[index as int] == TileType::Wall),
    {
        self.tiles[index] == TileType::Wall
    }

    /// Recomputes the blocked cache from the tiles. To be called after any
    /// change of `tiles`, before the grid is walked again.
    pub fn update_blocked_tiles(&mut self)
        requires
            old(self).wf(),
        ensures
            final(self)@ == old(self)@.refreshed(),
            final(self).wf(),
            forall|i: int|
                0 <= i < final(self).tiles.len() ==> final(self).blocked_tiles[i] == (final(self).tiles[i]
                    == TileType::Wall),
    {
        let count = self.tiles.len();
        let mut index: usize = 0;
        while index < count
            invariant
                index <= count,
                count == self.tiles.len(),
                self.blocked_tiles.len() == count,
                self.width == old(self).width,
                self.height == old(self).height,
                self.tiles == old(self).tiles,
                self.rooms == old(self).rooms,
                self.entities == old(self).entities,
                forall|i: int|
                    0 <= i < index ==> self.blocked_tiles[i] == (self.tiles[i] == TileType::Wall),
            decreases count - index,
        {
            let opaque = self.is_opaque(index);
            self.blocked_tiles.set(index, opaque);
            index += 1;
        }
        assert(self@ =~= old(self)@.refreshed());
    }

    /// Empties the occupant list of every tile.
    pub fn clear_entities(&mut self)
        ensures
            final(self)@ == old(self)@.vacated(),
    {
        let count = self.entities.len();
        let mut index: usize = 0;
        while index < count
            invariant
                index <= count,
                count == self.entities.len(),
                self.width == old(self).width,
                self.height == old(self).height,
                self.tiles == old(self).tiles,
                self.rooms == old(self).rooms,
                self.blocked_tiles == old(self).blocked_tiles,
                forall|i: int| 0 <= i < index ==> self.entities[i]@.len() == 0,
            decreases count - index,
        {
            self.entities[index].clear();
            index += 1;
        }
        assert(self@ =~~= old(self)@.vacated());
    }
}

} // verus!

//! What of the map an actor gets to see: one draw call for each tile that the
//! actor has ever seen, dimmed where the tile is out of sight now.

use vstd::prelude::*;
use crate::grid::{DungeonMap, Grid, TileType};
use crate::outside::to_cp437;

verus! {

/// What one actor sees and has seen, by tile index.
pub struct Viewshed {
    /// The tiles in sight now.
    pub visible_tiles: Vec<bool>,
    /// The tiles that were ever in sight.
    pub revealed_tiles: Vec<bool>,
}

/// One write to the display: the cell, the glyph, and what selects the
/// colour. The foreground is the base colour of `tile`, turned to greyscale
/// where `greyscale` is set; the background is black.
#[derive(Clone, Copy, Debug, PartialEq, Eq, Structural)]
pub struct DrawCall {
    pub x: i32,
    pub y: i32,
    pub glyph: u16,
    pub tile: TileType,
    pub greyscale: bool,
}

/// The code page 437 number of the full stop, the glyph of a floor tile.
pub const FLOOR_GLYPH: u16 = 46;

/// The code page 437 number of the hash, the glyph of a wall tile.
pub const WALL_GLYPH: u16 = 35;

/// The glyph that stands for a tile.
pub open spec fn glyph_of(tile: TileType) -> u16 {
    match tile {
        TileType::Floor => FLOOR_GLYPH,
        TileType::Wall => WALL_GLYPH,
    }
}

impl Grid {
    /// The draw call for the tile at `index`, in or out of sight.
    pub open spec fn draw_call(self, index: int, visible: bool) -> DrawCall {
        DrawCall {
            x: self.position_of(index).0 as i32,
            y: self.position_of(index).1 as i32,
            glyph: glyph_of(self.tiles[index]),
            tile: self.tiles[index],
            greyscale: !visible,
        }
    }

    /// The draw calls for the first `count` tiles, in index order: one for
    /// each revealed tile.
    pub open spec fn draw_calls(self, revealed: Seq<bool>, visible: Seq<bool>, count: int) -> Seq<
        DrawCall,
    >
        decreases count,
    {
        if count <= 0 {
            Seq::empty()
        } else {
            let before = self.draw_calls(revealed, visible, count - 1);
            if revealed[count - 1] {
                before.push(self.draw_call(count - 1, visible[count - 1]))
            } else {
                before
            }
        }
    }

    /// Whether a viewshed can be drawn on this grid: it says of every tile
    /// whether it is revealed, and of every revealed tile whether it is
    /// visible.
    pub open spec fn can_show(self, revealed: Seq<bool>, visible: Seq<bool>) -> bool {
        &&& self.tiles.len() <= revealed.len()
        &&& forall|i: int| 0 <= i < self.tiles.len() && revealed[i] ==> i < visible.len()
    }

    /// What the draw calls for the first `count` tiles hold: the call of every
    /// revealed tile among them, greyscale exactly where the tile is not
    /// visible; nothing but such calls; and no call at the cell of a tile that
    /// is not revealed.
    pub proof fn lemma_draw_calls(self, revealed: Seq<bool>, visible: Seq<bool>, count: int)
        requires
            self.wf(),
            0 <= count <= self.tiles.len(),
        ensures
            forall|i: int|
                0 <= i < count && revealed[i] ==> self.draw_calls(revealed, visible, count).contains(
                    #[trigger] self.draw_call(i, visible[i]),
                ),
            forall|k: int|
                0 <= k < self.draw_calls(revealed, visible, count).len() ==> exists|i: int|
                    0 <= i < count && revealed[i] && #[trigger] self.draw_calls(
                        revealed,
                        visible,
                        count,
                    )[k] == #[trigger] self.draw_call(i, visible[i]),
            forall|i: int, k: int|
                0 <= i < self.tiles.len() && !revealed[i] && 0 <= k < self.draw_calls(
                    revealed,
                    visible,
                    count,
                ).len() ==> !({
                    let call = #[trigger] self.draw_calls(revealed, visible, count)[k];
                    call.x == #[trigger] self.position_of(i).0 && call.y == self.position_of(i).1
                }),
        decreases count,
    {
        let calls = self.draw_calls(revealed, visible, count);
        if count > 0 {
            let last = count - 1;
            let before = self.draw_calls(revealed, visible, last);
            self.lemma_draw_calls(revealed, visible, last);
            self.lemma_position_round_trip(last);
            assert forall|i: int| 0 <= i < count && revealed[i] implies calls.contains(
                #[trigger] self.draw_call(i, visible[i]),
            ) by {
                if i < last {
                    let k = before.index_of(self.draw_call(i, visible[i]));
                    assert(calls[k] == self.draw_call(i, visible[i]));
                } else {
                    assert(calls[calls.len() - 1] == self.draw_call(i, visible[i]));
                }
            }
            assert forall|k: int| 0 <= k < calls.len() implies exists|i: int|
                0 <= i < count && revealed[i] && #[trigger] calls[k] == #[trigger] self.draw_call(
                    i,
                    visible[i],
                ) by {
                if k < before.len() {
                    let i = choose|i: int|
                        0 <= i < last && revealed[i] && before[k] == self.draw_call(i, visible[i]);
                    assert(calls[k] == self.draw_call(i, visible[i]));
                } else {
                    assert(calls[k] == self.draw_call(last, visible[last]));
                }
            }
            assert forall|i: int, k: int|
                0 <= i < self.tiles.len() && !revealed[i] && 0 <= k < calls.len() implies !({
                let call = #[trigger] calls[k];
                call.x == #[trigger] self.position_of(i).0 && call.y == self.position_of(i).1
            }) by {
                if k >= before.len() {
                    self.lemma_position_round_trip(i);
                }
            }
        }
    }
}

impl DungeonMap {
    /// The draw calls that show the map to the actor with this viewshed, in
    /// row-major order: one for every revealed tile, none for any other, each
    /// with the glyph of its tile and greyscale where the tile is revealed but
    /// not visible now. Neither the map nor the viewshed is changed.
    pub fn draw(&self, viewshed: &Viewshed) -> (calls: Vec<DrawCall>)
        requires
            self.wf(),
            self@.can_show(viewshed.revealed_tiles@, viewshed.visible_tiles@),
        ensures
            calls@ == self@.draw_calls(
                viewshed.revealed_tiles@,
                viewshed.visible_tiles@,
                self.tiles.len() as int,
            ),
            forall|i: int|
                0 <= i < self.tiles.len() && viewshed.revealed_tiles[i] ==> calls@.contains(
                    #[trigger] self@.draw_call(i, viewshed.visible_tiles[i]),
                ),
            forall|k: int|
                0 <= k < calls.len() ==> exists|i: int|
                    0 <= i < self.tiles.len() && viewshed.revealed_tiles[i] && #[trigger] calls[k]
                        == #[trigger] self@.draw_call(i, viewshed.visible_tiles[i]),
            forall|i: int, k: int|
                0 <= i < self.tiles.len() && !viewshed.revealed_tiles[i] && 0 <= k < calls.len()
                    ==> !((#[trigger] calls[k]).x == #[trigger] self@.position_of(i).0 && calls[k].y
                    == self@.position_of(i).1),
    {
        let mut calls: Vec<DrawCall> = Vec::new();
        let mut y: i32 = 0;
        let mut x: i32 = 0;
        let count = self.tiles.len();
        let ghost grid = self@;
        let ghost revealed = viewshed.revealed_tiles@;
        let ghost visible = viewshed.visible_tiles@;

        let mut index: usize = 0;
        while index < count
            invariant
                self.wf(),
                grid == self@,
                revealed == viewshed.revealed_tiles@,
                visible == viewshed.visible_tiles@,
                grid.can_show(revealed, visible),
                count == self.tiles.len(),
                index <= count,
                x == index % (self.width as usize),
                y == index / (self.width as usize),
                calls@ == grid.draw_calls(revealed, visible, index as int),
            decreases count - index,
        {
            let tile = self.tiles[index];
            proof {
                grid.lemma_position_round_trip(index as int);
            }
            if viewshed.revealed_tiles[index] {
                let glyph = match tile {
                    TileType::Floor => to_cp437('.'),
                    TileType::Wall => to_cp437('#'),
                };
                let greyscale = !viewshed.visible_tiles[index];
                calls.push(DrawCall { x, y, glyph, tile, greyscale });
            }
            proof {
                let w = self.width as int;
                let next = index as int + 1;
                if x + 1 < w {
                    vstd::arithmetic::div_mod::lemma_fundamental_div_mod_converse(
                        next,
                        w,
                        y as int,
                        x as int + 1,
                    );
                } else {
                    assert((y + 1) * w == y * w + w) by (nonlinear_arith);
                    vstd::arithmetic::div_mod::lemma_fundamental_div_mod_converse(
                        next,
                        w,
                        y as int + 1,
                        0,
                    );
                }
            }

            x += 1;
            if x > self.width - 1 {
                x = 0;
                y += 1;
            }
            index += 1;
        }
        proof {
            grid.lemma_draw_calls(revealed, visible, count as int);
        }
        calls
    }
}

} // verus!

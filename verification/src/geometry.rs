//! Positions and axis-aligned rooms.

use vstd::prelude::*;

verus! {

/// A cell coordinate.
#[derive(Clone, Copy, Debug, PartialEq, Eq, Structural)]
pub struct Position {
    pub x: i32,
    pub y: i32,
}

/// An axis-aligned rectangle, stored by its two inclusive corners.
///
/// `first` is the top-left corner and `second` the bottom-right one. A room
/// built by [`Room::new`] from a positive width and height has
/// `first.x <= second.x` and `first.y <= second.y`.
#[derive(Clone, Copy, Debug, PartialEq, Eq, Structural)]
pub struct Room {
    pub first: Position,
    pub second: Position,
}

/// The midpoint of `low` and `high`, rounded toward `low`.
pub open spec fn midpoint(low: int, high: int) -> int {
    if low <= high {
        low + (high - low) / 2
    } else {
        low - (low - high) / 2
    }
}

fn midpoint_of(low: i32, high: i32) -> (mid: i32)
    ensures
        mid == midpoint(low as int, high as int),
{
    if low <= high {
        let half: i64 = (high as i64 - low as i64) / 2;
        (low as i64 + half) as i32
    } else {
        let half: i64 = (low as i64 - high as i64) / 2;
        (low as i64 - half) as i32
    }
}

impl Room {
    /// Whether the corners are in order on both axes.
    pub open spec fn well_formed(self) -> bool {
        self.first.x <= self.second.x && self.first.y <= self.second.y
    }

    /// Whether the two rectangles share a cell, corners included.
    pub open spec fn overlaps(self, other: Room) -> bool {
        &&& self.first.x <= other.second.x
        &&& self.second.x >= other.first.x
        &&& self.first.y <= other.second.y
        &&& self.second.y >= other.first.y
    }

    /// The cell midway between the corners, rounded toward `first`.
    pub open spec fn spec_center(self) -> Position {
        Position {
            x: midpoint(self.first.x as int, self.second.x as int) as i32,
            y: midpoint(self.first.y as int, self.second.y as int) as i32,
        }
    }

    /// The room whose top-left corner is `top_left` and which spans `width`
    /// columns and `height` rows. The sizes are not validated.
    pub fn new(top_left: Position, width: i32, height: i32) -> (room: Room)
        requires
            i32::MIN <= top_left.x + width - 1 <= i32::MAX,
            i32::MIN <= top_left.y + height - 1 <= i32::MAX,
        ensures
            room.first == top_left,
            room.second.x == top_left.x + width - 1,
            room.second.y == top_left.y + height - 1,
            room.well_formed() <==> 1 <= width && 1 <= height,
    {
        let x: i64 = top_left.x as i64 + width as i64 - 1;
        let y: i64 = top_left.y as i64 + height as i64 - 1;
        Room { first: top_left, second: Position { x: x as i32, y: y as i32 } }
    }

    /// Whether this room and `other` overlap.
    pub fn intersect(&self, other: &Room) -> (hit: bool)
        ensures
            hit == self.overlaps(*other),
    {
        self.first.x <= other.second.x && self.second.x >= other.first.x
            && self.first.y <= other.second.y && self.second.y >= other.first.y
    }

    /// The midpoint of the room, rounded toward `first` on each axis.
    pub fn center(&self) -> (center: Position)
        ensures
            center == self.spec_center(),
    {
        Position {
            x: midpoint_of(self.first.x, self.second.x),
            y: midpoint_of(self.first.y, self.second.y),
        }
    }
}

} // verus!

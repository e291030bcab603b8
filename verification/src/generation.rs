//! Building a level: a fixed number of attempts to place a random room, each
//! accepted room dug out and joined to the one accepted before it. No attempt
//! is repeated, so a level may come out with few rooms; the first room drawn
//! overlaps nothing and is always placed.

use vstd::prelude::*;
use specs::Entity;
use crate::geometry::{Position, Room};
use crate::grid::{DungeonMap, Grid, TileType};
use crate::outside::{new_generator, random_in_range, roll_dice};

verus! {

/// How many rooms the generator tries to place, unless told otherwise.
pub const MAX_ROOMS: i32 = 30;

/// The smallest width and height of a generated room, unless told otherwise.
pub const MIN_SIZE: i32 = 6;

/// One more than the largest width and height of a generated room, unless
/// told otherwise.
pub const MAX_SIZE: i32 = 10;

/// What the generator goes by: how many rooms it tries to place, each once,
/// and the sizes that it draws for them, from `min_size` up to but not
/// including `max_size`.
#[derive(Clone, Copy, Debug, PartialEq, Eq, Structural)]
pub struct GeneratorSettings {
    pub max_rooms: i32,
    pub min_size: i32,
    pub max_size: i32,
}

impl GeneratorSettings {
    /// The settings of [`DungeonMap::new`].
    pub open spec fn standard() -> GeneratorSettings {
        GeneratorSettings { max_rooms: MAX_ROOMS, min_size: MIN_SIZE, max_size: MAX_SIZE }
    }

    /// Whether a grid of `width` by `height` tiles can be generated with these
    /// settings: there is a size to draw, of at least one cell, and the
    /// largest room leaves a free column and a free row beside it.
    pub open spec fn suit(self, width: int, height: int) -> bool {
        &&& 1 <= self.min_size < self.max_size
        &&& self.max_size < width
        &&& self.max_size < height
    }
}

impl Default for GeneratorSettings {
    fn default() -> (settings: GeneratorSettings)
        ensures
            settings == GeneratorSettings::standard(),
    {
        GeneratorSettings { max_rooms: MAX_ROOMS, min_size: MIN_SIZE, max_size: MAX_SIZE }
    }
}

impl Grid {
    /// The grid of solid rock: every tile a wall and marked blocked, no room,
    /// no occupant.
    pub open spec fn blank(width: int, height: int) -> Grid {
        Grid {
            width,
            height,
            tiles: Seq::new((width * height) as nat, |i: int| TileType::Wall),
            rooms: Seq::empty(),
            blocked: Seq::new((width * height) as nat, |i: int| true),
            occupants: Seq::new((width * height) as nat, |i: int| Seq::<Entity>::empty()),
        }
    }

    /// Whether `room` overlaps none of the rooms placed so far.
    pub open spec fn accepts(self, room: Room) -> bool {
        forall|k: int| 0 <= k < self.rooms.len() ==> !room.overlaps(#[trigger] self.rooms[k])
    }

    /// Whether no two rooms of the grid overlap.
    pub open spec fn rooms_apart(self) -> bool {
        forall|j: int, k: int|
            0 <= j < self.rooms.len() && 0 <= k < self.rooms.len() && j != k ==> !(
            #[trigger] self.rooms[j]).overlaps(#[trigger] self.rooms[k])
    }

    /// The grid after `room` was accepted: its interior dug out, a corridor
    /// carved from the centre of the last room before it (if there is one) to
    /// its own centre, and the room appended to the list.
    pub open spec fn with_room(self, room: Room, horizontal_first: bool) -> Grid {
        let carved = self.with_room_carved(room);
        let linked = if self.rooms.len() > 0 {
            carved.with_link(self.rooms.last().spec_center(), room.spec_center(), horizontal_first)
        } else {
            carved
        };
        Grid { rooms: self.rooms.push(room), ..linked }
    }

    /// The grid after one attempt to place `room`: unchanged where the room
    /// overlaps an earlier one.
    pub open spec fn attempt(self, room: Room, horizontal_first: bool) -> Grid {
        if self.accepts(room) {
            self.with_room(room, horizontal_first)
        } else {
            self
        }
    }

    /// The level that results from accepting `rooms` in order on solid rock,
    /// the corridor to the `k`-th room laid out as `flips[k]` says.
    pub open spec fn generated(width: int, height: int, rooms: Seq<Room>, flips: Seq<bool>) -> Grid
        decreases rooms.len(),
    {
        if rooms.len() == 0 {
            Grid::blank(width, height)
        } else {
            Grid::generated(width, height, rooms.drop_last(), flips.drop_last()).with_room(
                rooms.last(),
                flips.last(),
            )
        }
    }

    /// Whether `room` is one that the generator may draw for a grid of this
    /// size: of a width and a height within the settings, and at least two
    /// cells away from the right and the bottom edge.
    pub open spec fn may_draw(self, settings: GeneratorSettings, room: Room) -> bool {
        &&& 0 <= room.first.x
        &&& 0 <= room.first.y
        &&& settings.min_size <= room.second.x - room.first.x + 1 < settings.max_size
        &&& settings.min_size <= room.second.y - room.first.y + 1 < settings.max_size
        &&& room.second.x <= self.width - 3
        &&& room.second.y <= self.height - 3
    }
}

impl DungeonMap {
    /// A map of solid rock.
    pub fn blank(width: i32, height: i32) -> (map: DungeonMap)
        requires
            0 < width,
            0 < height,
            width * height <= i32::MAX,
        ensures
            map@ == Grid::blank(width as int, height as int),
            map.wf(),
    {
        assert(0 < width * height) by (nonlinear_arith)
            requires
                0 < width,
                0 < height,
        ;
        let map_size = (width * height) as usize;
        let mut tiles: Vec<TileType> = Vec::new();
        let mut blocked_tiles: Vec<bool> = Vec::new();
        let mut entities: Vec<Vec<Entity>> = Vec::new();
        let mut index: usize = 0;
        while index < map_size
            invariant
                index <= map_size,
                tiles.len() == index,
                blocked_tiles.len() == index,
                entities.len() == index,
                forall|i: int| 0 <= i < index ==> tiles[i] == TileType::Wall,
                forall|i: int| 0 <= i < index ==> blocked_tiles[i],
                forall|i: int| 0 <= i < index ==> entities[i]@.len() == 0,
            decreases map_size - index,
        {
            tiles.push(TileType::Wall);
            blocked_tiles.push(true);
            entities.push(Vec::new());
            index += 1;
        }
        let map = DungeonMap { width, height, tiles, rooms: Vec::new(), blocked_tiles, entities };
        assert(map@ =~~= Grid::blank(width as int, height as int));
        map
    }

    /// Whether `room` overlaps none of the rooms placed so far.
    pub fn is_placement_valid(&self, room: &Room) -> (valid: bool)
        ensures
            valid == self@.accepts(*room),
    {
        let mut index: usize = 0;
        while index < self.rooms.len()
            invariant
                index <= self.rooms.len(),
                forall|k: int| 0 <= k < index ==> !room.overlaps(#[trigger] self.rooms[k]),
            decreases self.rooms.len() - index,
        {
            if room.intersect(&self.rooms[index]) {
                assert(room.overlaps(self@.rooms[index as int]));
                return false;
            }
            index += 1;
        }
        true
    }

    /// Joins the centre of the room placed last to the centre of `new_room` by
    /// an L-shaped corridor, laid out as `horizontal_first` says.
    pub fn link_rooms_with_tunnels(&mut self, new_room: &Room, horizontal_first: bool)
        requires
            old(self).wf(),
            old(self).rooms.len() > 0,
        ensures
            final(self)@ == old(self)@.with_link(
                old(self).rooms@.last().spec_center(),
                new_room.spec_center(),
                horizontal_first,
            ),
            final(self).wf(),
    {
        let new_room_center = new_room.center();
        let previous_room_center = self.rooms[self.rooms.len() - 1].center();

        if horizontal_first {
            self.add_horizontal_tunnel(
                previous_room_center.x,
                new_room_center.x,
                previous_room_center.y,
            );
            self.add_vertical_tunnel(previous_room_center.y, new_room_center.y, new_room_center.x);
        } else {
            self.add_vertical_tunnel(
                previous_room_center.y,
                new_room_center.y,
                previous_room_center.x,
            );
            self.add_horizontal_tunnel(previous_room_center.x, new_room_center.x, new_room_center.y);
        }
    }

    /// Digs `room` out, joins it to the room placed last and appends it.
    fn insert_room(&mut self, room: Room, horizontal_first: bool)
        requires
            old(self).wf(),
            old(self)@.fits(room),
        ensures
            final(self)@ == old(self)@.with_room(room, horizontal_first),
            final(self).wf(),
    {
        self.add_room(&room);
        if !self.rooms.is_empty() {
            self.link_rooms_with_tunnels(&room, horizontal_first);
        }
        self.rooms.push(room);
        assert(self@ =~= old(self)@.with_room(room, horizontal_first));
    }

    /// One attempt of the generator, with the room and the corridor layout
    /// that were drawn for it: the room is placed unless it overlaps a room
    /// placed before, and the map is left as it was if it does.
    pub fn place_room(&mut self, room: Room, horizontal_first: bool) -> (placed: bool)
        requires
            old(self).wf(),
            old(self)@.accepts(room) ==> old(self)@.fits(room),
        ensures
            placed == old(self)@.accepts(room),
            final(self)@ == old(self)@.attempt(room, horizontal_first),
            final(self).wf(),
            old(self)@.rooms_apart() ==> final(self)@.rooms_apart(),
    {
        if self.is_placement_valid(&room) {
            self.insert_room(room, horizontal_first);
            true
        } else {
            false
        }
    }

    /// Generates a level of `width` by `height` tiles from a freshly seeded
    /// random stream, by the given settings.
    ///
    /// `max_rooms` times a room is drawn and placed if it overlaps no earlier
    /// one; a room that overlaps is dropped and not drawn again. So the level
    /// is [`Grid::generated`] from the rooms that were accepted and from one
    /// coin flip for each. The first room drawn is always accepted, so the
    /// level has at least one room, and a place to start in, unless
    /// `max_rooms` is below 1; beyond that the rooms may be few. The blocked
    /// cache is left all-blocked: call [`DungeonMap::update_blocked_tiles`]
    /// before walking the map.
    pub fn generate(width: i32, height: i32, settings: &GeneratorSettings) -> (map: DungeonMap)
        requires
            settings.suit(width as int, height as int),
            width * height <= i32::MAX,
        ensures
            map.wf(),
            map.width == width,
            map.height == height,
            map.rooms.len() <= settings.max_rooms || map.rooms.len() == 0,
            settings.max_rooms >= 1 ==> map.rooms.len() >= 1,
            exists|flips: Seq<bool>|
                flips.len() == map.rooms.len() && map@ == #[trigger] Grid::generated(
                    width as int,
                    height as int,
                    map.rooms@,
                    flips,
                ),
            forall|k: int|
                0 <= k < map.rooms.len() ==> map@.may_draw(*settings, #[trigger] map.rooms[k]),
            map@.rooms_apart(),
            forall|i: int| 0 <= i < map.blocked_tiles.len() ==> map.blocked_tiles[i],
            forall|i: int| 0 <= i < map.entities.len() ==> (#[trigger] map.entities[i])@.len() == 0,
            forall|i: int|
                0 <= i < map.tiles.len() && map.tiles[i] == TileType::Floor ==> map@.in_bound(
                    map@.position_of(i).0,
                    map@.position_of(i).1,
                ),
    {
        let mut map = DungeonMap::blank(width, height);
        let mut rng = new_generator();
        let ghost mut flips: Seq<bool> = Seq::empty();

        let mut attempt: i32 = 0;
        while attempt < settings.max_rooms
            invariant
                settings.suit(width as int, height as int),
                0 <= attempt,
                map.wf(),
                map.width == width,
                map.height == height,
                map.rooms.len() <= attempt,
                attempt >= 1 ==> map.rooms.len() >= 1,
                attempt <= settings.max_rooms || attempt == 0,
                flips.len() == map.rooms.len(),
                map@ == Grid::generated(width as int, height as int, map.rooms@, flips),
                forall|k: int|
                    0 <= k < map.rooms.len() ==> map@.may_draw(*settings, #[trigger] map.rooms[k]),
                map@.rooms_apart(),
                map@.blocked == Grid::blank(width as int, height as int).blocked,
                map@.occupants == Grid::blank(width as int, height as int).occupants,
            decreases settings.max_rooms - attempt,
        {
            let room_width = random_in_range(&mut rng, settings.min_size, settings.max_size);
            let room_height = random_in_range(&mut rng, settings.min_size, settings.max_size);
            let x = roll_dice(&mut rng, 1, width - room_width - 1) - 1;
            let y = roll_dice(&mut rng, 1, height - room_height - 1) - 1;

            let new_room = Room::new(Position { x, y }, room_width, room_height);

            if map.is_placement_valid(&new_room) {
                let horizontal_first = !map.rooms.is_empty() && random_in_range(&mut rng, 0, 2)
                    == 1;
                let ghost earlier = map@;
                let ghost earlier_flips = flips;
                map.insert_room(new_room, horizontal_first);
                proof {
                    flips = flips.push(horizontal_first);
                    assert(map.rooms@.drop_last() =~= earlier.rooms);
                    assert(flips.drop_last() =~= earlier_flips);
                }
            }
            attempt += 1;
        }
        proof {
            assert forall|i: int| 0 <= i < map.entities.len() implies (#[trigger] map.entities[i])@.len()
                == 0 by {
                assert(map@.occupants[i] == map.entities[i]@);
            }
            assert forall|i: int|
                0 <= i < map.tiles.len() && map.tiles[i] == TileType::Floor implies map@.in_bound(
                map@.position_of(i).0,
                map@.position_of(i).1,
            ) by {
                map@.lemma_position_round_trip(i);
            }
        }
        map
    }

    /// Generates a level of `width` by `height` tiles from a freshly seeded
    /// random stream: `MAX_ROOMS` attempts at a room of `MIN_SIZE` to
    /// `MAX_SIZE - 1` cells each way, of which the first always succeeds. See
    /// [`DungeonMap::generate`].
    pub fn new(width: i32, height: i32) -> (map: DungeonMap)
        requires
            MAX_SIZE < width,
            MAX_SIZE < height,
            width * height <= i32::MAX,
        ensures
            map.wf(),
            map.width == width,
            map.height == height,
            1 <= map.rooms.len() <= MAX_ROOMS,
            exists|flips: Seq<bool>|
                flips.len() == map.rooms.len() && map@ == #[trigger] Grid::generated(
                    width as int,
                    height as int,
                    map.rooms@,
                    flips,
                ),
            forall|k: int|
                0 <= k < map.rooms.len() ==> map@.may_draw(
                    GeneratorSettings::standard(),
                    #[trigger] map.rooms[k],
                ),
            map@.rooms_apart(),
            forall|i: int| 0 <= i < map.blocked_tiles.len() ==> map.blocked_tiles[i],
            forall|i: int| 0 <= i < map.entities.len() ==> (#[trigger] map.entities[i])@.len() == 0,
            forall|i: int|
                0 <= i < map.tiles.len() && map.tiles[i] == TileType::Floor ==> map@.in_bound(
                    map@.position_of(i).0,
                    map@.position_of(i).1,
                ),
    {
        let settings = GeneratorSettings { max_rooms: MAX_ROOMS, min_size: MIN_SIZE, max_size: MAX_SIZE };
        DungeonMap::generate(width, height, &settings)
    }
}

} // verus!

//! A procedurally generated dungeon map: a bounded grid of tiles, carved by
//! random room placement and corridor linking, with the neighbour and opacity
//! queries that a pathfinder or a field-of-view algorithm walks it by.

pub mod carving;
pub mod generation;
pub mod geometry;
pub mod grid;
pub mod outside;
pub mod pathing;
pub mod render;

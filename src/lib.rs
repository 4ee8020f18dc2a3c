//! The world model, visibility, pathfinding, movement, menus and quest
//! reactions of a small tile-based role-playing game.
//!
//! - `geometry`: grid positions and rectangles.
//! - `tiles`: level layers, tile ids and which sprites block the way.
//! - `state`: the world map model, line of sight and the revealed tiles.
//! - `path`: planning a walk through revealed, passable cells.
//! - `movement`: moves, clicks, pick-ups, tile removals.
//! - `world`: the level's rooms, affordances, items and characters.
//! - `quest`: inventory, spells, talents, quest flags and journal.
//! - `menu` and `ui`: the menu stack and the messages it shows.
//! - `castle`: the castle level and its scripted reactions.
//! - `laws`: properties that hold across sequences of operations.

pub mod geometry;
pub mod text;
pub mod tiles;
pub mod state;
pub mod path;
pub mod quest;
pub mod world;
pub mod ui;
pub mod menu;
pub mod movement;
pub mod castle;
pub mod laws;

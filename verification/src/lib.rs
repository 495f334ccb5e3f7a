//! A tile-based overworld simulation core: coordinates and directions,
//! movement codes and elevation, map queries, chunk connections, warp
//! transitions, route finding and the per-frame map manager.

pub mod actions;
pub mod battle;
pub mod character;
pub mod groups;
pub mod manager;
pub mod map;
pub mod maps;
pub mod movement;
pub mod pathfind;
pub mod player;
pub mod positions;
pub mod queue;
pub mod random;
pub mod strings;
pub mod table;
pub mod tile;
pub mod transition;

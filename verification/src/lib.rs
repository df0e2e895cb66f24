//! Core of a headless Minecraft (Java Edition) client: packet codec,
//! connection state machine, chunked world storage, collision shapes,
//! movement prediction, and an A* pathfinder.

pub mod astar;
pub mod auto_tool;
pub mod bitset;
pub mod chat;
pub mod codec;
pub mod connection;
pub mod crypto;
pub mod goals;
pub mod inventory;
pub mod movement;
pub mod moves;
pub mod nbt;
pub mod packets;
pub mod palette;
pub mod pathfinder;
pub mod position;
pub mod registry;
pub mod voxel_shape;
pub mod world;

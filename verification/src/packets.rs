//! Packet data types that carry their fields as plain values; the JSON
//! and wire encodings around them live at the edges.

use crate::position::BlockPos;
use vstd::prelude::*;

verus! {

/// The server software and protocol of a status response.
#[derive(Debug, Clone, PartialEq, Eq)]
pub struct Version {
    pub name: String,
    pub protocol: i32,
}

/// One sampled player of a status response.
#[derive(Debug, Clone, PartialEq, Eq)]
pub struct SamplePlayer {
    pub id: String,
    pub name: String,
}

/// The player counts of a status response.
#[derive(Debug, Clone, PartialEq, Eq)]
pub struct Players {
    pub max: i32,
    pub online: i32,
    pub sample: Vec<SamplePlayer>,
}

/// A whole status response; the description is kept as its raw JSON
/// text.
#[derive(Debug, Clone, PartialEq, Eq)]
pub struct ClientboundStatusResponsePacket {
    pub description: String,
    pub favicon: Option<String>,
    pub players: Players,
    pub version: Version,
    pub enforces_secure_chat: Option<bool>,
}

/// The server opened a sign editor at this block.
#[derive(Debug, Clone, Copy, PartialEq, Eq, Structural)]
pub struct ClientboundOpenSignEditorPacket {
    pub pos: BlockPos,
}

/// The server changed the chunk view radius.
#[derive(Debug, Clone, Copy, PartialEq, Eq, Structural)]
pub struct ClientboundSetChunkCacheRadiusPacket {
    pub radius: u32,
}

/// A chunk and its light, as received; the chunk payload stays raw until
/// the world parses it.
#[derive(Debug, Clone, PartialEq, Eq)]
pub struct ClientboundLevelChunkWithLightPacket {
    pub x: i32,
    pub z: i32,
    pub chunk_data: ClientboundLevelChunkPacketData,
}

/// The chunk payload of a chunk packet: raw section bytes and the block
/// entities.
#[derive(Debug, Clone, PartialEq, Eq)]
pub struct ClientboundLevelChunkPacketData {
    pub data: Vec<u8>,
    pub block_entities: Vec<BlockEntity>,
}

/// One block entity of a chunk packet.
#[derive(Debug, Clone, PartialEq, Eq)]
pub struct BlockEntity {
    pub packed_xz: u8,
    pub y: u16,
    pub kind: u32,
    pub data: Vec<u8>,
}

/// A new entity appeared.
#[derive(Debug, Clone, Copy, PartialEq, Eq, Structural)]
pub struct ClientboundAddEntityPacket {
    pub id: u32,
    pub uuid: u128,
    pub entity_type: u32,
    pub x: i64,
    pub y: i64,
    pub z: i64,
    pub x_rot: i8,
    pub y_rot: i8,
    pub y_head_rot: i8,
    pub data: u32,
    pub x_vel: i16,
    pub y_vel: i16,
    pub z_vel: i16,
}

} // verus!

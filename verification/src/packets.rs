//! The packet catalogue.
//!
//! Every packet on the wire is a one-byte identifier followed by a
//! type-specific body. Inbound packets decode through [`decode_server_packet`],
//! which turns the identifier into one closed variant of [`ServerPacket`];
//! outbound packets serialize themselves to a byte vector. Each decoder is
//! specified exactly by a `parse_*` spec function over the byte sequence, and
//! each serializer by a `*_bytes` spec function; round-trip lemmas at the end
//! of the module tie the two together for the packet types that have both.
//!
//! 64-bit and 32-bit float fields are carried as their raw IEEE-754 bits:
//! the protocol moves them, nothing here computes with them.

use vstd::prelude::*;

use crate::attributes::{
    map_of, parse_attributes, read_entity_attributes, AttrValue, EntityAttributes,
};
use crate::block::Block;
use crate::codec::{
    parse_bool, parse_bytes, parse_i16, parse_i32, parse_i64, parse_i8, parse_u32, parse_u64,
    parse_u8, spec_be2, spec_be4, spec_be8, u16_of, DecodeError, Reader, write_u32, write_u64,
    write_u8,
};
use crate::inflate::{inflate_zlib, zlib_decoded};
use crate::text::{parse_str, read_str, str_bytes, utf16_units, valid_chars, write_str};

verus! {

/// The protocol revision this client speaks.
pub const PROTOCOL_VERSION: i32 = 14;

// ---------------------------------------------------------------------------
// Packet types. Fields mirror the wire layout; strings stay `String`, float
// fields carry raw bits.
// ---------------------------------------------------------------------------

#[derive(Debug, Clone, PartialEq)]
pub struct Login {
    pub protocol_version: i32,
    pub username: String,
    pub seed: i64,
    pub dimension: i8,
}

/// The mathematical value of a [`Login`].
pub struct LoginView {
    pub protocol_version: i32,
    pub username: Seq<char>,
    pub seed: i64,
    pub dimension: i8,
}

impl View for Login {
    type V = LoginView;

    open spec fn view(&self) -> LoginView {
        LoginView {
            protocol_version: self.protocol_version,
            username: self.username@,
            seed: self.seed,
            dimension: self.dimension,
        }
    }
}

#[derive(Debug, Clone, PartialEq)]
pub struct Handshake {
    pub username: String,
}

pub struct HandshakeView {
    pub username: Seq<char>,
}

impl View for Handshake {
    type V = HandshakeView;

    open spec fn view(&self) -> HandshakeView {
        HandshakeView { username: self.username@ }
    }
}

#[derive(Debug, Clone, PartialEq)]
pub struct Chat {
    pub message: String,
}

pub struct ChatView {
    pub message: Seq<char>,
}

impl View for Chat {
    type V = ChatView;

    open spec fn view(&self) -> ChatView {
        ChatView { message: self.message@ }
    }
}

#[derive(Debug, Clone, Copy, PartialEq, Eq, Structural)]
pub struct SetTime {
    pub time: i64,
}

#[derive(Debug, Clone, Copy, PartialEq, Eq, Structural)]
pub struct SetEntityItem {
    pub entity_id: i32,
    pub slot: i16,
    pub item_id: i16,
    pub item_data: i16,
}

#[derive(Debug, Clone, Copy, PartialEq, Eq, Structural)]
pub struct SpawnPos {
    pub x: i32,
    pub y: i32,
    pub z: i32,
}

#[derive(Debug, Clone, Copy, PartialEq, Eq, Structural)]
pub struct SetHealth {
    pub health: i16,
}

/// Player position; the four coordinates are IEEE-754 double bits.
#[derive(Debug, Clone, Copy, PartialEq, Eq, Structural)]
pub struct Position {
    pub x_bits: u64,
    pub y_bits: u64,
    pub stance_bits: u64,
    pub z_bits: u64,
    pub grounded: bool,
}

/// Player position and look; coordinates are double bits, angles float bits.
#[derive(Debug, Clone, Copy, PartialEq, Eq, Structural)]
pub struct PosRot {
    pub x_bits: u64,
    pub y_bits: u64,
    pub stance_bits: u64,
    pub z_bits: u64,
    pub yaw_bits: u32,
    pub pitch_bits: u32,
    pub grounded: bool,
}

#[derive(Debug, Clone, PartialEq)]
pub struct SpawnPlayer {
    pub id: i32,
    pub name: String,
    pub x: i32,
    pub y: i32,
    pub z: i32,
    pub yaw: u8,
    pub pitch: u8,
    pub held_item: i16,
}

pub struct SpawnPlayerView {
    pub id: i32,
    pub name: Seq<char>,
    pub x: i32,
    pub y: i32,
    pub z: i32,
    pub yaw: u8,
    pub pitch: u8,
    pub held_item: i16,
}

impl View for SpawnPlayer {
    type V = SpawnPlayerView;

    open spec fn view(&self) -> SpawnPlayerView {
        SpawnPlayerView {
            id: self.id,
            name: self.name@,
            x: self.x,
            y: self.y,
            z: self.z,
            yaw: self.yaw,
            pitch: self.pitch,
            held_item: self.held_item,
        }
    }
}

#[derive(Debug, Clone, Copy, PartialEq, Eq, Structural)]
pub struct SpawnItemEntity {
    pub entity_id: i32,
    pub item_id: i16,
    pub count: i8,
    pub data: i16,
    pub x: i32,
    pub y: i32,
    pub z: i32,
    pub vel_x: i8,
    pub vel_y: i8,
    pub vel_z: i8,
}

#[derive(Debug, Clone, Copy, PartialEq, Eq)]
pub struct SpawnInsentientEntity {
    pub id: i32,
    pub ty: u8,
    pub x: i32,
    pub y: i32,
    pub z: i32,
    pub shooter: i32,
    pub projectile_velocity: Option<(i16, i16, i16)>,
}

#[derive(Debug, Clone, Copy, PartialEq, Eq, Structural)]
pub struct EntityVelocity {
    pub id: i32,
    pub x: i16,
    pub y: i16,
    pub z: i16,
}

#[derive(Debug, Clone, Copy, PartialEq, Eq, Structural)]
pub struct RemoveEntity {
    pub id: i32,
}

#[derive(Debug, Clone, Copy, PartialEq, Eq, Structural)]
pub struct MoveEntity {
    pub id: i32,
    pub x: i8,
    pub y: i8,
    pub z: i8,
}

#[derive(Debug, Clone, Copy, PartialEq, Eq, Structural)]
pub struct EntityMoveRot {
    pub id: i32,
    pub x: i8,
    pub y: i8,
    pub z: i8,
    pub yaw: i8,
    pub pitch: i8,
}

#[derive(Debug, Clone, Copy, PartialEq, Eq, Structural)]
pub struct EntityPosRot {
    pub id: i32,
    pub x: i32,
    pub y: i32,
    pub z: i32,
    pub yaw: u8,
    pub pitch: u8,
}

#[derive(Debug, Clone, Copy, PartialEq, Eq, Structural)]
pub struct SetEntityHealth {
    pub id: i32,
    pub health: i8,
}

#[derive(Debug, Clone, Copy, PartialEq, Eq, Structural)]
pub struct InitChunk {
    pub chunk_x: i32,
    pub chunk_z: i32,
    pub init: bool,
}

#[derive(Debug, Clone, Copy, PartialEq, Eq, Structural)]
pub struct SetBlock {
    pub x: i32,
    pub y: u8,
    pub z: i32,
    pub block: Block,
}

#[derive(Debug, Clone, Copy, PartialEq, Eq, Structural)]
pub enum AfterRespawn {
    BedMissing,
    StartRaining,
    StopRaining,
}

#[derive(Debug, Clone, Copy, PartialEq, Eq)]
pub struct SetInventorySlot {
    pub inventory_id: i8,
    pub slot: i16,
    pub item: Option<(i16, i8, i16)>,
}

#[derive(Debug, Clone, Copy, PartialEq, Eq, Structural)]
pub struct Statistic {
    pub id: i32,
    pub delta_value: i8,
}

#[derive(Debug, Clone, PartialEq)]
pub struct Disconnect {
    pub message: String,
}

pub struct DisconnectView {
    pub message: Seq<char>,
}

impl View for Disconnect {
    type V = DisconnectView;

    open spec fn view(&self) -> DisconnectView {
        DisconnectView { message: self.message@ }
    }
}

// ---------------------------------------------------------------------------
// Spec parsers for the packet bodies (the identifier byte is handled by the
// dispatcher).
// ---------------------------------------------------------------------------

pub open spec fn parse_login(s: Seq<u8>, i: int) -> Result<(LoginView, int), DecodeError> {
    match parse_i32(s, i) {
        Err(e) => Err(e),
        Ok((protocol_version, i)) => match parse_str(s, i, 16) {
            Err(e) => Err(e),
            Ok((username, i)) => match parse_i64(s, i) {
                Err(e) => Err(e),
                Ok((seed, i)) => match parse_i8(s, i) {
                    Err(e) => Err(e),
                    Ok((dimension, i)) => Ok(
                        (LoginView { protocol_version, username, seed, dimension }, i),
                    ),
                },
            },
        },
    }
}

pub open spec fn parse_handshake(s: Seq<u8>, i: int) -> Result<(HandshakeView, int), DecodeError> {
    match parse_str(s, i, 16) {
        Err(e) => Err(e),
        Ok((username, i)) => Ok((HandshakeView { username }, i)),
    }
}

pub open spec fn parse_chat(s: Seq<u8>, i: int) -> Result<(ChatView, int), DecodeError> {
    match parse_str(s, i, 119) {
        Err(e) => Err(e),
        Ok((message, i)) => Ok((ChatView { message }, i)),
    }
}

pub open spec fn parse_set_time(s: Seq<u8>, i: int) -> Result<(SetTime, int), DecodeError> {
    match parse_i64(s, i) {
        Err(e) => Err(e),
        Ok((time, i)) => Ok((SetTime { time }, i)),
    }
}

pub open spec fn parse_set_entity_item(s: Seq<u8>, i: int) -> Result<
    (SetEntityItem, int),
    DecodeError,
> {
    match parse_i32(s, i) {
        Err(e) => Err(e),
        Ok((entity_id, i)) => match parse_i16(s, i) {
            Err(e) => Err(e),
            Ok((slot, i)) => match parse_i16(s, i) {
                Err(e) => Err(e),
                Ok((item_id, i)) => match parse_i16(s, i) {
                    Err(e) => Err(e),
                    Ok((item_data, i)) => Ok((SetEntityItem { entity_id, slot, item_id, item_data }, i)),
                },
            },
        },
    }
}

pub open spec fn parse_spawn_pos(s: Seq<u8>, i: int) -> Result<(SpawnPos, int), DecodeError> {
    match parse_i32(s, i) {
        Err(e) => Err(e),
        Ok((x, i)) => match parse_i32(s, i) {
            Err(e) => Err(e),
            Ok((y, i)) => match parse_i32(s, i) {
                Err(e) => Err(e),
                Ok((z, i)) => Ok((SpawnPos { x, y, z }, i)),
            },
        },
    }
}

pub open spec fn parse_set_health(s: Seq<u8>, i: int) -> Result<(SetHealth, int), DecodeError> {
    match parse_i16(s, i) {
        Err(e) => Err(e),
        Ok((health, i)) => Ok((SetHealth { health }, i)),
    }
}

pub open spec fn parse_position(s: Seq<u8>, i: int) -> Result<(Position, int), DecodeError> {
    match parse_u64(s, i) {
        Err(e) => Err(e),
        Ok((x_bits, i)) => match parse_u64(s, i) {
            Err(e) => Err(e),
            Ok((y_bits, i)) => match parse_u64(s, i) {
                Err(e) => Err(e),
                Ok((stance_bits, i)) => match parse_u64(s, i) {
                    Err(e) => Err(e),
                    Ok((z_bits, i)) => match parse_bool(s, i) {
                        Err(e) => Err(e),
                        Ok((grounded, i)) => Ok(
                            (Position { x_bits, y_bits, stance_bits, z_bits, grounded }, i),
                        ),
                    },
                },
            },
        },
    }
}

pub open spec fn parse_pos_rot(s: Seq<u8>, i: int) -> Result<(PosRot, int), DecodeError> {
    match parse_u64(s, i) {
        Err(e) => Err(e),
        Ok((x_bits, i)) => match parse_u64(s, i) {
            Err(e) => Err(e),
            Ok((y_bits, i)) => match parse_u64(s, i) {
                Err(e) => Err(e),
                Ok((stance_bits, i)) => match parse_u64(s, i) {
                    Err(e) => Err(e),
                    Ok((z_bits, i)) => match parse_u32(s, i) {
                        Err(e) => Err(e),
                        Ok((yaw_bits, i)) => match parse_u32(s, i) {
                            Err(e) => Err(e),
                            Ok((pitch_bits, i)) => match parse_bool(s, i) {
                                Err(e) => Err(e),
                                Ok((grounded, i)) => Ok(
                                    (
                                        PosRot {
                                            x_bits,
                                            y_bits,
                                            stance_bits,
                                            z_bits,
                                            yaw_bits,
                                            pitch_bits,
                                            grounded,
                                        },
                                        i,
                                    ),
                                ),
                            },
                        },
                    },
                },
            },
        },
    }
}

pub open spec fn parse_spawn_player(s: Seq<u8>, i: int) -> Result<
    (SpawnPlayerView, int),
    DecodeError,
> {
    match parse_i32(s, i) {
        Err(e) => Err(e),
        Ok((id, i)) => match parse_str(s, i, 16) {
            Err(e) => Err(e),
            Ok((name, i)) => match parse_i32(s, i) {
                Err(e) => Err(e),
                Ok((x, i)) => match parse_i32(s, i) {
                    Err(e) => Err(e),
                    Ok((y, i)) => match parse_i32(s, i) {
                        Err(e) => Err(e),
                        Ok((z, i)) => match parse_u8(s, i) {
                            Err(e) => Err(e),
                            Ok((yaw, i)) => match parse_u8(s, i) {
                                Err(e) => Err(e),
                                Ok((pitch, i)) => match parse_i16(s, i) {
                                    Err(e) => Err(e),
                                    Ok((held_item, i)) => Ok(
                                        (
                                            SpawnPlayerView {
                                                id,
                                                name,
                                                x,
                                                y,
                                                z,
                                                yaw,
                                                pitch,
                                                held_item,
                                            },
                                            i,
                                        ),
                                    ),
                                },
                            },
                        },
                    },
                },
            },
        },
    }
}

pub open spec fn parse_spawn_item_entity(s: Seq<u8>, i: int) -> Result<
    (SpawnItemEntity, int),
    DecodeError,
> {
    match parse_i32(s, i) {
        Err(e) => Err(e),
        Ok((entity_id, i)) => match parse_i16(s, i) {
            Err(e) => Err(e),
            Ok((item_id, i)) => match parse_i8(s, i) {
                Err(e) => Err(e),
                Ok((count, i)) => match parse_i16(s, i) {
                    Err(e) => Err(e),
                    Ok((data, i)) => match parse_i32(s, i) {
                        Err(e) => Err(e),
                        Ok((x, i)) => match parse_i32(s, i) {
                            Err(e) => Err(e),
                            Ok((y, i)) => match parse_i32(s, i) {
                                Err(e) => Err(e),
                                Ok((z, i)) => match parse_i8(s, i) {
                                    Err(e) => Err(e),
                                    Ok((vel_x, i)) => match parse_i8(s, i) {
                                        Err(e) => Err(e),
                                        Ok((vel_y, i)) => match parse_i8(s, i) {
                                            Err(e) => Err(e),
                                            Ok((vel_z, i)) => Ok(
                                                (
                                                    SpawnItemEntity {
                                                        entity_id,
                                                        item_id,
                                                        count,
                                                        data,
                                                        x,
                                                        y,
                                                        z,
                                                        vel_x,
                                                        vel_y,
                                                        vel_z,
                                                    },
                                                    i,
                                                ),
                                            ),
                                        },
                                    },
                                },
                            },
                        },
                    },
                },
            },
        },
    }
}

pub open spec fn parse_spawn_insentient_entity(s: Seq<u8>, i: int) -> Result<
    (SpawnInsentientEntity, int),
    DecodeError,
> {
    match parse_i32(s, i) {
        Err(e) => Err(e),
        Ok((id, i)) => match parse_u8(s, i) {
            Err(e) => Err(e),
            Ok((ty, i)) => match parse_i32(s, i) {
                Err(e) => Err(e),
                Ok((x, i)) => match parse_i32(s, i) {
                    Err(e) => Err(e),
                    Ok((y, i)) => match parse_i32(s, i) {
                        Err(e) => Err(e),
                        Ok((z, i)) => match parse_i32(s, i) {
                            Err(e) => Err(e),
                            Ok((shooter, i)) => if shooter > 0 {
                                match parse_i16(s, i) {
                                    Err(e) => Err(e),
                                    Ok((vx, i)) => match parse_i16(s, i) {
                                        Err(e) => Err(e),
                                        Ok((vy, i)) => match parse_i16(s, i) {
                                            Err(e) => Err(e),
                                            Ok((vz, i)) => Ok(
                                                (
                                                    SpawnInsentientEntity {
                                                        id,
                                                        ty,
                                                        x,
                                                        y,
                                                        z,
                                                        shooter,
                                                        projectile_velocity: Some((vx, vy, vz)),
                                                    },
                                                    i,
                                                ),
                                            ),
                                        },
                                    },
                                }
                            } else {
                                Ok(
                                    (
                                        SpawnInsentientEntity {
                                            id,
                                            ty,
                                            x,
                                            y,
                                            z,
                                            shooter,
                                            projectile_velocity: None,
                                        },
                                        i,
                                    ),
                                )
                            },
                        },
                    },
                },
            },
        },
    }
}

pub open spec fn parse_entity_velocity(s: Seq<u8>, i: int) -> Result<
    (EntityVelocity, int),
    DecodeError,
> {
    match parse_i32(s, i) {
        Err(e) => Err(e),
        Ok((id, i)) => match parse_i16(s, i) {
            Err(e) => Err(e),
            Ok((x, i)) => match parse_i16(s, i) {
                Err(e) => Err(e),
                Ok((y, i)) => match parse_i16(s, i) {
                    Err(e) => Err(e),
                    Ok((z, i)) => Ok((EntityVelocity { id, x, y, z }, i)),
                },
            },
        },
    }
}

pub open spec fn parse_remove_entity(s: Seq<u8>, i: int) -> Result<
    (RemoveEntity, int),
    DecodeError,
> {
    match parse_i32(s, i) {
        Err(e) => Err(e),
        Ok((id, i)) => Ok((RemoveEntity { id }, i)),
    }
}

pub open spec fn parse_move_entity(s: Seq<u8>, i: int) -> Result<(MoveEntity, int), DecodeError> {
    match parse_i32(s, i) {
        Err(e) => Err(e),
        Ok((id, i)) => match parse_i8(s, i) {
            Err(e) => Err(e),
            Ok((x, i)) => match parse_i8(s, i) {
                Err(e) => Err(e),
                Ok((y, i)) => match parse_i8(s, i) {
                    Err(e) => Err(e),
                    Ok((z, i)) => Ok((MoveEntity { id, x, y, z }, i)),
                },
            },
        },
    }
}

pub open spec fn parse_entity_move_rot(s: Seq<u8>, i: int) -> Result<
    (EntityMoveRot, int),
    DecodeError,
> {
    match parse_i32(s, i) {
        Err(e) => Err(e),
        Ok((id, i)) => match parse_i8(s, i) {
            Err(e) => Err(e),
            Ok((x, i)) => match parse_i8(s, i) {
                Err(e) => Err(e),
                Ok((y, i)) => match parse_i8(s, i) {
                    Err(e) => Err(e),
                    Ok((z, i)) => match parse_i8(s, i) {
                        Err(e) => Err(e),
                        Ok((yaw, i)) => match parse_i8(s, i) {
                            Err(e) => Err(e),
                            Ok((pitch, i)) => Ok((EntityMoveRot { id, x, y, z, yaw, pitch }, i)),
                        },
                    },
                },
            },
        },
    }
}

pub open spec fn parse_entity_pos_rot(s: Seq<u8>, i: int) -> Result<
    (EntityPosRot, int),
    DecodeError,
> {
    match parse_i32(s, i) {
        Err(e) => Err(e),
        Ok((id, i)) => match parse_i32(s, i) {
            Err(e) => Err(e),
            Ok((x, i)) => match parse_i32(s, i) {
                Err(e) => Err(e),
                Ok((y, i)) => match parse_i32(s, i) {
                    Err(e) => Err(e),
                    Ok((z, i)) => match parse_u8(s, i) {
                        Err(e) => Err(e),
                        Ok((yaw, i)) => match parse_u8(s, i) {
                            Err(e) => Err(e),
                            Ok((pitch, i)) => Ok((EntityPosRot { id, x, y, z, yaw, pitch }, i)),
                        },
                    },
                },
            },
        },
    }
}

pub open spec fn parse_set_entity_health(s: Seq<u8>, i: int) -> Result<
    (SetEntityHealth, int),
    DecodeError,
> {
    match parse_i32(s, i) {
        Err(e) => Err(e),
        Ok((id, i)) => match parse_i8(s, i) {
            Err(e) => Err(e),
            Ok((health, i)) => Ok((SetEntityHealth { id, health }, i)),
        },
    }
}

pub open spec fn parse_init_chunk(s: Seq<u8>, i: int) -> Result<(InitChunk, int), DecodeError> {
    match parse_i32(s, i) {
        Err(e) => Err(e),
        Ok((chunk_x, i)) => match parse_i32(s, i) {
            Err(e) => Err(e),
            Ok((chunk_z, i)) => match parse_bool(s, i) {
                Err(e) => Err(e),
                Ok((init, i)) => Ok((InitChunk { chunk_x, chunk_z, init }, i)),
            },
        },
    }
}

/// The material a block byte decodes to, unknown ids falling back to stone.
/// One policy for every decode path.
pub open spec fn block_or_stone(ty: u8) -> Block {
    match Block::spec_read(ty) {
        Some(b) => b,
        None => Block::Stone,
    }
}

pub open spec fn parse_set_block(s: Seq<u8>, i: int) -> Result<(SetBlock, int), DecodeError> {
    match parse_i32(s, i) {
        Err(e) => Err(e),
        Ok((x, i)) => match parse_u8(s, i) {
            Err(e) => Err(e),
            Ok((y, i)) => match parse_i32(s, i) {
                Err(e) => Err(e),
                Ok((z, i)) => match parse_u8(s, i) {
                    Err(e) => Err(e),
                    Ok((ty, i)) => match parse_u8(s, i) {
                        Err(e) => Err(e),
                        Ok((_data, i)) => Ok((SetBlock { x, y, z, block: block_or_stone(ty) }, i)),
                    },
                },
            },
        },
    }
}

pub open spec fn parse_after_respawn(s: Seq<u8>, i: int) -> Result<
    (AfterRespawn, int),
    DecodeError,
> {
    match parse_i8(s, i) {
        Err(e) => Err(e),
        Ok((action, i)) => if action == 0 {
            Ok((AfterRespawn::BedMissing, i))
        } else if action == 1 {
            Ok((AfterRespawn::StartRaining, i))
        } else if action == 2 {
            Ok((AfterRespawn::StopRaining, i))
        } else {
            Err(DecodeError::RespawnAction(action))
        },
    }
}

pub open spec fn parse_set_inventory_slot(s: Seq<u8>, i: int) -> Result<
    (SetInventorySlot, int),
    DecodeError,
> {
    match parse_i8(s, i) {
        Err(e) => Err(e),
        Ok((inventory_id, i)) => match parse_i16(s, i) {
            Err(e) => Err(e),
            Ok((slot, i)) => match parse_i16(s, i) {
                Err(e) => Err(e),
                Ok((id, i)) => if id < 0 {
                    Ok((SetInventorySlot { inventory_id, slot, item: None }, i))
                } else {
                    match parse_i8(s, i) {
                        Err(e) => Err(e),
                        Ok((count, i)) => match parse_i16(s, i) {
                            Err(e) => Err(e),
                            Ok((data, i)) => Ok(
                                (
                                    SetInventorySlot {
                                        inventory_id,
                                        slot,
                                        item: Some((id, count, data)),
                                    },
                                    i,
                                ),
                            ),
                        },
                    }
                },
            },
        },
    }
}

pub open spec fn parse_statistic(s: Seq<u8>, i: int) -> Result<(Statistic, int), DecodeError> {
    match parse_i32(s, i) {
        Err(e) => Err(e),
        Ok((id, i)) => match parse_i8(s, i) {
            Err(e) => Err(e),
            Ok((delta_value, i)) => Ok((Statistic { id, delta_value }, i)),
        },
    }
}

pub open spec fn parse_disconnect(s: Seq<u8>, i: int) -> Result<(DisconnectView, int), DecodeError> {
    match parse_str(s, i, 100) {
        Err(e) => Err(e),
        Ok((message, i)) => Ok((DisconnectView { message }, i)),
    }
}

// ---------------------------------------------------------------------------
// Packets carrying attribute maps, inventories and bulk block arrays.
// ---------------------------------------------------------------------------

#[derive(Debug)]
pub struct SpawnEntity {
    pub id: i32,
    pub ty: i8,
    pub x: i32,
    pub y: i32,
    pub z: i32,
    pub yaw: i8,
    pub pitch: i8,
    pub attributes: EntityAttributes,
}

pub struct SpawnEntityView {
    pub id: i32,
    pub ty: i8,
    pub x: i32,
    pub y: i32,
    pub z: i32,
    pub yaw: i8,
    pub pitch: i8,
    pub attributes: Map<u8, AttrValue>,
}

impl View for SpawnEntity {
    type V = SpawnEntityView;

    open spec fn view(&self) -> SpawnEntityView {
        SpawnEntityView {
            id: self.id,
            ty: self.ty,
            x: self.x,
            y: self.y,
            z: self.z,
            yaw: self.yaw,
            pitch: self.pitch,
            attributes: self.attributes@,
        }
    }
}

#[derive(Debug)]
pub struct UpdateEntityAttributes {
    pub id: i32,
    pub attributes: EntityAttributes,
}

pub struct UpdateEntityAttributesView {
    pub id: i32,
    pub attributes: Map<u8, AttrValue>,
}

impl View for UpdateEntityAttributes {
    type V = UpdateEntityAttributesView;

    open spec fn view(&self) -> UpdateEntityAttributesView {
        UpdateEntityAttributesView { id: self.id, attributes: self.attributes@ }
    }
}

/// A rectangular region of blocks, row-major in `x`, then `z`, then `y`.
#[derive(Debug, Clone, PartialEq)]
pub struct SetContiguousBlocks {
    pub x: i32,
    pub y: i32,
    pub z: i32,
    pub x_size: i32,
    pub y_size: i32,
    pub z_size: i32,
    pub blocks: Vec<Block>,
}

pub struct SetContiguousBlocksView {
    pub x: i32,
    pub y: i32,
    pub z: i32,
    pub x_size: i32,
    pub y_size: i32,
    pub z_size: i32,
    pub blocks: Seq<Block>,
}

impl View for SetContiguousBlocks {
    type V = SetContiguousBlocksView;

    open spec fn view(&self) -> SetContiguousBlocksView {
        SetContiguousBlocksView {
            x: self.x,
            y: self.y,
            z: self.z,
            x_size: self.x_size,
            y_size: self.y_size,
            z_size: self.z_size,
            blocks: self.blocks@,
        }
    }
}

#[derive(Debug, Clone, PartialEq)]
pub struct SetBlocks {
    pub chunk_x: i32,
    pub chunk_z: i32,
    pub positions: Vec<(u8, u8, u8)>,
    pub types: Vec<u8>,
    pub data: Vec<u8>,
}

pub struct SetBlocksView {
    pub chunk_x: i32,
    pub chunk_z: i32,
    pub positions: Seq<(u8, u8, u8)>,
    pub types: Seq<u8>,
    pub data: Seq<u8>,
}

impl View for SetBlocks {
    type V = SetBlocksView;

    open spec fn view(&self) -> SetBlocksView {
        SetBlocksView {
            chunk_x: self.chunk_x,
            chunk_z: self.chunk_z,
            positions: self.positions@,
            types: self.types@,
            data: self.data@,
        }
    }
}

#[derive(Debug, Clone, PartialEq)]
pub struct SetInventoryItems {
    pub inventory_id: i8,
    pub items: Vec<Option<(i16, i8, i16)>>,
}

pub struct SetInventoryItemsView {
    pub inventory_id: i8,
    pub items: Seq<Option<(i16, i8, i16)>>,
}

impl View for SetInventoryItems {
    type V = SetInventoryItemsView;

    open spec fn view(&self) -> SetInventoryItemsView {
        SetInventoryItemsView { inventory_id: self.inventory_id, items: self.items@ }
    }
}

pub open spec fn parse_spawn_entity(s: Seq<u8>, i: int) -> Result<
    (SpawnEntityView, int),
    DecodeError,
> {
    match parse_i32(s, i) {
        Err(e) => Err(e),
        Ok((id, i)) => match parse_i8(s, i) {
            Err(e) => Err(e),
            Ok((ty, i)) => match parse_i32(s, i) {
                Err(e) => Err(e),
                Ok((x, i)) => match parse_i32(s, i) {
                    Err(e) => Err(e),
                    Ok((y, i)) => match parse_i32(s, i) {
                        Err(e) => Err(e),
                        Ok((z, i)) => match parse_i8(s, i) {
                            Err(e) => Err(e),
                            Ok((yaw, i)) => match parse_i8(s, i) {
                                Err(e) => Err(e),
                                Ok((pitch, i)) => match parse_attributes(s, i) {
                                    Err(e) => Err(e),
                                    Ok((pairs, i)) => Ok(
                                        (
                                            SpawnEntityView {
                                                id,
                                                ty,
                                                x,
                                                y,
                                                z,
                                                yaw,
                                                pitch,
                                                attributes: map_of(pairs),
                                            },
                                            i,
                                        ),
                                    ),
                                },
                            },
                        },
                    },
                },
            },
        },
    }
}

pub open spec fn parse_update_entity_attributes(s: Seq<u8>, i: int) -> Result<
    (UpdateEntityAttributesView, int),
    DecodeError,
> {
    match parse_i32(s, i) {
        Err(e) => Err(e),
        Ok((id, i)) => match parse_attributes(s, i) {
            Err(e) => Err(e),
            Ok((pairs, i)) => Ok((UpdateEntityAttributesView { id, attributes: map_of(pairs) }, i)),
        },
    }
}

pub open spec fn parse_set_contiguous_blocks(s: Seq<u8>, i: int) -> Result<
    (SetContiguousBlocksView, int),
    DecodeError,
> {
    match parse_i32(s, i) {
        Err(e) => Err(e),
        Ok((x, i)) => match parse_i16(s, i) {
            Err(e) => Err(e),
            Ok((y16, i)) => match parse_i32(s, i) {
                Err(e) => Err(e),
                Ok((z, i)) => match parse_u8(s, i) {
                    Err(e) => Err(e),
                    Ok((xs, i)) => match parse_u8(s, i) {
                        Err(e) => Err(e),
                        Ok((ys, i)) => match parse_u8(s, i) {
                            Err(e) => Err(e),
                            Ok((zs, i)) => match parse_i32(s, i) {
                                Err(e) => Err(e),
                                Ok((size, i)) => if size < 0 {
                                    Err(DecodeError::Compression)
                                } else {
                                    match parse_bytes(s, i, size as int) {
                                        Err(e) => Err(e),
                                        Ok((raw, i)) => match zlib_decoded(raw) {
                                            None => Err(DecodeError::Compression),
                                            Some(data) => {
                                                let volume = (xs as int + 1) * (ys as int + 1) * (
                                                zs as int + 1);
                                                if data.len() < volume {
                                                    Err(DecodeError::Compression)
                                                } else {
                                                    Ok(
                                                        (
                                                            SetContiguousBlocksView {
                                                                x,
                                                                y: y16 as i32,
                                                                z,
                                                                x_size: ((xs as int) + 1) as i32,
                                                                y_size: ((ys as int) + 1) as i32,
                                                                z_size: ((zs as int) + 1) as i32,
                                                                blocks: Seq::new(
                                                                    volume as nat,
                                                                    |k: int|
                                                                        block_or_stone(data[k]),
                                                                ),
                                                            },
                                                            i,
                                                        ),
                                                    )
                                                }
                                            },
                                        },
                                    }
                                },
                            },
                        },
                    },
                },
            },
        },
    }
}

/// How a packed block position splits into chunk-relative coordinates.
pub open spec fn spec_unpack_position(e: u16) -> (u8, u8, u8) {
    ((e >> 12) as u8, (e & 0xFF) as u8, ((e >> 8) & 0xF) as u8)
}

pub open spec fn parse_set_blocks(s: Seq<u8>, i: int) -> Result<(SetBlocksView, int), DecodeError> {
    match parse_i32(s, i) {
        Err(e) => Err(e),
        Ok((chunk_x, i)) => match parse_i32(s, i) {
            Err(e) => Err(e),
            Ok((chunk_z, i)) => match parse_i16(s, i) {
                Err(e) => Err(e),
                Ok((num, j)) => if num < 0 {
                    Err(DecodeError::ShortInput)
                } else if j + 2 * num <= s.len() {
                    let positions = Seq::new(
                        num as nat,
                        |k: int| spec_unpack_position(u16_of(s[j + 2 * k], s[j + 2 * k + 1])),
                    );
                    match parse_bytes(s, j + 2 * num, num as int) {
                        Err(e) => Err(e),
                        Ok((types, i)) => match parse_bytes(s, i, num as int) {
                            Err(e) => Err(e),
                            Ok((data, i)) => Ok(
                                (SetBlocksView { chunk_x, chunk_z, positions, types, data }, i),
                            ),
                        },
                    }
                } else {
                    Err(DecodeError::ShortInput)
                },
            },
        },
    }
}

/// Spec-level parse of `n` inventory items, each either absent (a negative
/// id) or an id, count and data triple.
pub open spec fn parse_inventory_items(s: Seq<u8>, i: int, n: int) -> Result<
    (Seq<Option<(i16, i8, i16)>>, int),
    DecodeError,
>
    decreases n,
{
    if n <= 0 {
        Ok((Seq::empty(), i))
    } else {
        match parse_i16(s, i) {
            Err(e) => Err(e),
            Ok((id, i)) => if id < 0 {
                match parse_inventory_items(s, i, n - 1) {
                    Err(e) => Err(e),
                    Ok((rest, end)) => Ok((seq![None] + rest, end)),
                }
            } else {
                match parse_i8(s, i) {
                    Err(e) => Err(e),
                    Ok((count, i)) => match parse_i16(s, i) {
                        Err(e) => Err(e),
                        Ok((data, i)) => match parse_inventory_items(s, i, n - 1) {
                            Err(e) => Err(e),
                            Ok((rest, end)) => Ok((seq![Some((id, count, data))] + rest, end)),
                        },
                    },
                }
            },
        }
    }
}

pub open spec fn parse_set_inventory_items(s: Seq<u8>, i: int) -> Result<
    (SetInventoryItemsView, int),
    DecodeError,
> {
    match parse_i8(s, i) {
        Err(e) => Err(e),
        Ok((inventory_id, i)) => match parse_i16(s, i) {
            Err(e) => Err(e),
            Ok((num, i)) => match parse_inventory_items(s, i, num as int) {
                Err(e) => Err(e),
                Ok((items, i)) => Ok((SetInventoryItemsView { inventory_id, items }, i)),
            },
        },
    }
}

// ---------------------------------------------------------------------------
// Exec decoders. Each is specified exactly by its spec parser.
// ---------------------------------------------------------------------------

impl Login {
    pub fn deserialize(r: &mut Reader) -> (res: Result<Login, DecodeError>)
        requires
            old(r).wf(),
        ensures
            final(r).wf(),
            final(r).bytes() == old(r).bytes(),
            match res {
                Ok(p) => (parse_login(old(r).bytes(), old(r).spec_pos()) matches Ok(q) && q.0 == p@
                    && q.1 == final(r).spec_pos()),
                Err(e) => parse_login(old(r).bytes(), old(r).spec_pos()) == Err::<
                    (LoginView, int),
                    _,
                >(e),
            },
    {
        let protocol_version = match r.read_i32() {
            Ok(v) => v,
            Err(e) => {
                return Err(e);
            },
        };
        let username = match read_str(r, 16) {
            Ok(v) => v,
            Err(e) => {
                return Err(e);
            },
        };
        let seed = match r.read_i64() {
            Ok(v) => v,
            Err(e) => {
                return Err(e);
            },
        };
        let dimension = match r.read_i8() {
            Ok(v) => v,
            Err(e) => {
                return Err(e);
            },
        };
        Ok(Login { protocol_version, username, seed, dimension })
    }
}

impl Handshake {
    pub fn deserialize(r: &mut Reader) -> (res: Result<Handshake, DecodeError>)
        requires
            old(r).wf(),
        ensures
            final(r).wf(),
            final(r).bytes() == old(r).bytes(),
            match res {
                Ok(p) => (parse_handshake(old(r).bytes(), old(r).spec_pos()) matches Ok(q) && q.0
                    == p@ && q.1 == final(r).spec_pos()),
                Err(e) => parse_handshake(old(r).bytes(), old(r).spec_pos()) == Err::<
                    (HandshakeView, int),
                    _,
                >(e),
            },
    {
        let username = match read_str(r, 16) {
            Ok(v) => v,
            Err(e) => {
                return Err(e);
            },
        };
        Ok(Handshake { username })
    }
}

impl Chat {
    pub fn deserialize(r: &mut Reader) -> (res: Result<Chat, DecodeError>)
        requires
            old(r).wf(),
        ensures
            final(r).wf(),
            final(r).bytes() == old(r).bytes(),
            match res {
                Ok(p) => (parse_chat(old(r).bytes(), old(r).spec_pos()) matches Ok(q) && q.0 == p@
                    && q.1 == final(r).spec_pos()),
                Err(e) => parse_chat(old(r).bytes(), old(r).spec_pos()) == Err::<
                    (ChatView, int),
                    _,
                >(e),
            },
    {
        let message = match read_str(r, 119) {
            Ok(v) => v,
            Err(e) => {
                return Err(e);
            },
        };
        Ok(Chat { message })
    }
}

impl SetTime {
    pub fn deserialize(r: &mut Reader) -> (res: Result<SetTime, DecodeError>)
        requires
            old(r).wf(),
        ensures
            final(r).wf(),
            final(r).bytes() == old(r).bytes(),
            match res {
                Ok(p) => parse_set_time(old(r).bytes(), old(r).spec_pos()) == Ok::<
                    _,
                    DecodeError,
                >((p, final(r).spec_pos())),
                Err(e) => parse_set_time(old(r).bytes(), old(r).spec_pos()) == Err::<
                    (SetTime, int),
                    _,
                >(e),
            },
    {
        let time = match r.read_i64() {
            Ok(v) => v,
            Err(e) => {
                return Err(e);
            },
        };
        Ok(SetTime { time })
    }
}

impl SetEntityItem {
    pub fn deserialize(r: &mut Reader) -> (res: Result<SetEntityItem, DecodeError>)
        requires
            old(r).wf(),
        ensures
            final(r).wf(),
            final(r).bytes() == old(r).bytes(),
            match res {
                Ok(p) => parse_set_entity_item(old(r).bytes(), old(r).spec_pos()) == Ok::<
                    _,
                    DecodeError,
                >((p, final(r).spec_pos())),
                Err(e) => parse_set_entity_item(old(r).bytes(), old(r).spec_pos()) == Err::<
                    (SetEntityItem, int),
                    _,
                >(e),
            },
    {
        let entity_id = match r.read_i32() {
            Ok(v) => v,
            Err(e) => {
                return Err(e);
            },
        };
        let slot = match r.read_i16() {
            Ok(v) => v,
            Err(e) => {
                return Err(e);
            },
        };
        let item_id = match r.read_i16() {
            Ok(v) => v,
            Err(e) => {
                return Err(e);
            },
        };
        let item_data = match r.read_i16() {
            Ok(v) => v,
            Err(e) => {
                return Err(e);
            },
        };
        Ok(SetEntityItem { entity_id, slot, item_id, item_data })
    }
}

impl SpawnPos {
    pub fn deserialize(r: &mut Reader) -> (res: Result<SpawnPos, DecodeError>)
        requires
            old(r).wf(),
        ensures
            final(r).wf(),
            final(r).bytes() == old(r).bytes(),
            match res {
                Ok(p) => parse_spawn_pos(old(r).bytes(), old(r).spec_pos()) == Ok::<
                    _,
                    DecodeError,
                >((p, final(r).spec_pos())),
                Err(e) => parse_spawn_pos(old(r).bytes(), old(r).spec_pos()) == Err::<
                    (SpawnPos, int),
                    _,
                >(e),
            },
    {
        let x = match r.read_i32() {
            Ok(v) => v,
            Err(e) => {
                return Err(e);
            },
        };
        let y = match r.read_i32() {
            Ok(v) => v,
            Err(e) => {
                return Err(e);
            },
        };
        let z = match r.read_i32() {
            Ok(v) => v,
            Err(e) => {
                return Err(e);
            },
        };
        Ok(SpawnPos { x, y, z })
    }
}

impl SetHealth {
    pub fn deserialize(r: &mut Reader) -> (res: Result<SetHealth, DecodeError>)
        requires
            old(r).wf(),
        ensures
            final(r).wf(),
            final(r).bytes() == old(r).bytes(),
            match res {
                Ok(p) => parse_set_health(old(r).bytes(), old(r).spec_pos()) == Ok::<
                    _,
                    DecodeError,
                >((p, final(r).spec_pos())),
                Err(e) => parse_set_health(old(r).bytes(), old(r).spec_pos()) == Err::<
                    (SetHealth, int),
                    _,
                >(e),
            },
    {
        let health = match r.read_i16() {
            Ok(v) => v,
            Err(e) => {
                return Err(e);
            },
        };
        Ok(SetHealth { health })
    }
}

impl Position {
    pub fn deserialize(r: &mut Reader) -> (res: Result<Position, DecodeError>)
        requires
            old(r).wf(),
        ensures
            final(r).wf(),
            final(r).bytes() == old(r).bytes(),
            match res {
                Ok(p) => parse_position(old(r).bytes(), old(r).spec_pos()) == Ok::<
                    _,
                    DecodeError,
                >((p, final(r).spec_pos())),
                Err(e) => parse_position(old(r).bytes(), old(r).spec_pos()) == Err::<
                    (Position, int),
                    _,
                >(e),
            },
    {
        let x_bits = match r.read_u64() {
            Ok(v) => v,
            Err(e) => {
                return Err(e);
            },
        };
        let y_bits = match r.read_u64() {
            Ok(v) => v,
            Err(e) => {
                return Err(e);
            },
        };
        let stance_bits = match r.read_u64() {
            Ok(v) => v,
            Err(e) => {
                return Err(e);
            },
        };
        let z_bits = match r.read_u64() {
            Ok(v) => v,
            Err(e) => {
                return Err(e);
            },
        };
        let grounded = match r.read_bool() {
            Ok(v) => v,
            Err(e) => {
                return Err(e);
            },
        };
        Ok(Position { x_bits, y_bits, stance_bits, z_bits, grounded })
    }
}

impl PosRot {
    pub fn deserialize(r: &mut Reader) -> (res: Result<PosRot, DecodeError>)
        requires
            old(r).wf(),
        ensures
            final(r).wf(),
            final(r).bytes() == old(r).bytes(),
            match res {
                Ok(p) => parse_pos_rot(old(r).bytes(), old(r).spec_pos()) == Ok::<
                    _,
                    DecodeError,
                >((p, final(r).spec_pos())),
                Err(e) => parse_pos_rot(old(r).bytes(), old(r).spec_pos()) == Err::<
                    (PosRot, int),
                    _,
                >(e),
            },
    {
        let x_bits = match r.read_u64() {
            Ok(v) => v,
            Err(e) => {
                return Err(e);
            },
        };
        let y_bits = match r.read_u64() {
            Ok(v) => v,
            Err(e) => {
                return Err(e);
            },
        };
        let stance_bits = match r.read_u64() {
            Ok(v) => v,
            Err(e) => {
                return Err(e);
            },
        };
        let z_bits = match r.read_u64() {
            Ok(v) => v,
            Err(e) => {
                return Err(e);
            },
        };
        let yaw_bits = match r.read_u32() {
            Ok(v) => v,
            Err(e) => {
                return Err(e);
            },
        };
        let pitch_bits = match r.read_u32() {
            Ok(v) => v,
            Err(e) => {
                return Err(e);
            },
        };
        let grounded = match r.read_bool() {
            Ok(v) => v,
            Err(e) => {
                return Err(e);
            },
        };
        Ok(PosRot { x_bits, y_bits, stance_bits, z_bits, yaw_bits, pitch_bits, grounded })
    }
}

impl SpawnPlayer {
    pub fn deserialize(r: &mut Reader) -> (res: Result<SpawnPlayer, DecodeError>)
        requires
            old(r).wf(),
        ensures
            final(r).wf(),
            final(r).bytes() == old(r).bytes(),
            match res {
                Ok(p) => (parse_spawn_player(old(r).bytes(), old(r).spec_pos()) matches Ok(q)
                    && q.0 == p@ && q.1 == final(r).spec_pos()),
                Err(e) => parse_spawn_player(old(r).bytes(), old(r).spec_pos()) == Err::<
                    (SpawnPlayerView, int),
                    _,
                >(e),
            },
    {
        let id = match r.read_i32() {
            Ok(v) => v,
            Err(e) => {
                return Err(e);
            },
        };
        let name = match read_str(r, 16) {
            Ok(v) => v,
            Err(e) => {
                return Err(e);
            },
        };
        let x = match r.read_i32() {
            Ok(v) => v,
            Err(e) => {
                return Err(e);
            },
        };
        let y = match r.read_i32() {
            Ok(v) => v,
            Err(e) => {
                return Err(e);
            },
        };
        let z = match r.read_i32() {
            Ok(v) => v,
            Err(e) => {
                return Err(e);
            },
        };
        let yaw = match r.read_u8() {
            Ok(v) => v,
            Err(e) => {
                return Err(e);
            },
        };
        let pitch = match r.read_u8() {
            Ok(v) => v,
            Err(e) => {
                return Err(e);
            },
        };
        let held_item = match r.read_i16() {
            Ok(v) => v,
            Err(e) => {
                return Err(e);
            },
        };
        Ok(SpawnPlayer { id, name, x, y, z, yaw, pitch, held_item })
    }
}

impl SpawnItemEntity {
    pub fn deserialize(r: &mut Reader) -> (res: Result<SpawnItemEntity, DecodeError>)
        requires
            old(r).wf(),
        ensures
            final(r).wf(),
            final(r).bytes() == old(r).bytes(),
            match res {
                Ok(p) => parse_spawn_item_entity(old(r).bytes(), old(r).spec_pos()) == Ok::<
                    _,
                    DecodeError,
                >((p, final(r).spec_pos())),
                Err(e) => parse_spawn_item_entity(old(r).bytes(), old(r).spec_pos()) == Err::<
                    (SpawnItemEntity, int),
                    _,
                >(e),
            },
    {
        let entity_id = match r.read_i32() {
            Ok(v) => v,
            Err(e) => {
                return Err(e);
            },
        };
        let item_id = match r.read_i16() {
            Ok(v) => v,
            Err(e) => {
                return Err(e);
            },
        };
        let count = match r.read_i8() {
            Ok(v) => v,
            Err(e) => {
                return Err(e);
            },
        };
        let data = match r.read_i16() {
            Ok(v) => v,
            Err(e) => {
                return Err(e);
            },
        };
        let x = match r.read_i32() {
            Ok(v) => v,
            Err(e) => {
                return Err(e);
            },
        };
        let y = match r.read_i32() {
            Ok(v) => v,
            Err(e) => {
                return Err(e);
            },
        };
        let z = match r.read_i32() {
            Ok(v) => v,
            Err(e) => {
                return Err(e);
            },
        };
        let vel_x = match r.read_i8() {
            Ok(v) => v,
            Err(e) => {
                return Err(e);
            },
        };
        let vel_y = match r.read_i8() {
            Ok(v) => v,
            Err(e) => {
                return Err(e);
            },
        };
        let vel_z = match r.read_i8() {
            Ok(v) => v,
            Err(e) => {
                return Err(e);
            },
        };
        Ok(SpawnItemEntity { entity_id, item_id, count, data, x, y, z, vel_x, vel_y, vel_z })
    }
}

impl SpawnInsentientEntity {
    pub fn deserialize(r: &mut Reader) -> (res: Result<SpawnInsentientEntity, DecodeError>)
        requires
            old(r).wf(),
        ensures
            final(r).wf(),
            final(r).bytes() == old(r).bytes(),
            match res {
                Ok(p) => parse_spawn_insentient_entity(old(r).bytes(), old(r).spec_pos()) == Ok::<
                    _,
                    DecodeError,
                >((p, final(r).spec_pos())),
                Err(e) => parse_spawn_insentient_entity(old(r).bytes(), old(r).spec_pos())
                    == Err::<(SpawnInsentientEntity, int), _>(e),
            },
    {
        let id = match r.read_i32() {
            Ok(v) => v,
            Err(e) => {
                return Err(e);
            },
        };
        let ty = match r.read_u8() {
            Ok(v) => v,
            Err(e) => {
                return Err(e);
            },
        };
        let x = match r.read_i32() {
            Ok(v) => v,
            Err(e) => {
                return Err(e);
            },
        };
        let y = match r.read_i32() {
            Ok(v) => v,
            Err(e) => {
                return Err(e);
            },
        };
        let z = match r.read_i32() {
            Ok(v) => v,
            Err(e) => {
                return Err(e);
            },
        };
        let shooter = match r.read_i32() {
            Ok(v) => v,
            Err(e) => {
                return Err(e);
            },
        };
        let projectile_velocity = if shooter > 0 {
            let vx = match r.read_i16() {
                Ok(v) => v,
                Err(e) => {
                    return Err(e);
                },
            };
            let vy = match r.read_i16() {
                Ok(v) => v,
                Err(e) => {
                    return Err(e);
                },
            };
            let vz = match r.read_i16() {
                Ok(v) => v,
                Err(e) => {
                    return Err(e);
                },
            };
            Some((vx, vy, vz))
        } else {
            None
        };
        Ok(SpawnInsentientEntity { id, ty, x, y, z, shooter, projectile_velocity })
    }
}

impl EntityVelocity {
    pub fn deserialize(r: &mut Reader) -> (res: Result<EntityVelocity, DecodeError>)
        requires
            old(r).wf(),
        ensures
            final(r).wf(),
            final(r).bytes() == old(r).bytes(),
            match res {
                Ok(p) => parse_entity_velocity(old(r).bytes(), old(r).spec_pos()) == Ok::<
                    _,
                    DecodeError,
                >((p, final(r).spec_pos())),
                Err(e) => parse_entity_velocity(old(r).bytes(), old(r).spec_pos()) == Err::<
                    (EntityVelocity, int),
                    _,
                >(e),
            },
    {
        let id = match r.read_i32() {
            Ok(v) => v,
            Err(e) => {
                return Err(e);
            },
        };
        let x = match r.read_i16() {
            Ok(v) => v,
            Err(e) => {
                return Err(e);
            },
        };
        let y = match r.read_i16() {
            Ok(v) => v,
            Err(e) => {
                return Err(e);
            },
        };
        let z = match r.read_i16() {
            Ok(v) => v,
            Err(e) => {
                return Err(e);
            },
        };
        Ok(EntityVelocity { id, x, y, z })
    }
}

impl RemoveEntity {
    pub fn deserialize(r: &mut Reader) -> (res: Result<RemoveEntity, DecodeError>)
        requires
            old(r).wf(),
        ensures
            final(r).wf(),
            final(r).bytes() == old(r).bytes(),
            match res {
                Ok(p) => parse_remove_entity(old(r).bytes(), old(r).spec_pos()) == Ok::<
                    _,
                    DecodeError,
                >((p, final(r).spec_pos())),
                Err(e) => parse_remove_entity(old(r).bytes(), old(r).spec_pos()) == Err::<
                    (RemoveEntity, int),
                    _,
                >(e),
            },
    {
        let id = match r.read_i32() {
            Ok(v) => v,
            Err(e) => {
                return Err(e);
            },
        };
        Ok(RemoveEntity { id })
    }
}

impl MoveEntity {
    pub fn deserialize(r: &mut Reader) -> (res: Result<MoveEntity, DecodeError>)
        requires
            old(r).wf(),
        ensures
            final(r).wf(),
            final(r).bytes() == old(r).bytes(),
            match res {
                Ok(p) => parse_move_entity(old(r).bytes(), old(r).spec_pos()) == Ok::<
                    _,
                    DecodeError,
                >((p, final(r).spec_pos())),
                Err(e) => parse_move_entity(old(r).bytes(), old(r).spec_pos()) == Err::<
                    (MoveEntity, int),
                    _,
                >(e),
            },
    {
        let id = match r.read_i32() {
            Ok(v) => v,
            Err(e) => {
                return Err(e);
            },
        };
        let x = match r.read_i8() {
            Ok(v) => v,
            Err(e) => {
                return Err(e);
            },
        };
        let y = match r.read_i8() {
            Ok(v) => v,
            Err(e) => {
                return Err(e);
            },
        };
        let z = match r.read_i8() {
            Ok(v) => v,
            Err(e) => {
                return Err(e);
            },
        };
        Ok(MoveEntity { id, x, y, z })
    }
}

impl EntityMoveRot {
    pub fn deserialize(r: &mut Reader) -> (res: Result<EntityMoveRot, DecodeError>)
        requires
            old(r).wf(),
        ensures
            final(r).wf(),
            final(r).bytes() == old(r).bytes(),
            match res {
                Ok(p) => parse_entity_move_rot(old(r).bytes(), old(r).spec_pos()) == Ok::<
                    _,
                    DecodeError,
                >((p, final(r).spec_pos())),
                Err(e) => parse_entity_move_rot(old(r).bytes(), old(r).spec_pos()) == Err::<
                    (EntityMoveRot, int),
                    _,
                >(e),
            },
    {
        let id = match r.read_i32() {
            Ok(v) => v,
            Err(e) => {
                return Err(e);
            },
        };
        let x = match r.read_i8() {
            Ok(v) => v,
            Err(e) => {
                return Err(e);
            },
        };
        let y = match r.read_i8() {
            Ok(v) => v,
            Err(e) => {
                return Err(e);
            },
        };
        let z = match r.read_i8() {
            Ok(v) => v,
            Err(e) => {
                return Err(e);
            },
        };
        let yaw = match r.read_i8() {
            Ok(v) => v,
            Err(e) => {
                return Err(e);
            },
        };
        let pitch = match r.read_i8() {
            Ok(v) => v,
            Err(e) => {
                return Err(e);
            },
        };
        Ok(EntityMoveRot { id, x, y, z, yaw, pitch })
    }
}

impl EntityPosRot {
    pub fn deserialize(r: &mut Reader) -> (res: Result<EntityPosRot, DecodeError>)
        requires
            old(r).wf(),
        ensures
            final(r).wf(),
            final(r).bytes() == old(r).bytes(),
            match res {
                Ok(p) => parse_entity_pos_rot(old(r).bytes(), old(r).spec_pos()) == Ok::<
                    _,
                    DecodeError,
                >((p, final(r).spec_pos())),
                Err(e) => parse_entity_pos_rot(old(r).bytes(), old(r).spec_pos()) == Err::<
                    (EntityPosRot, int),
                    _,
                >(e),
            },
    {
        let id = match r.read_i32() {
            Ok(v) => v,
            Err(e) => {
                return Err(e);
            },
        };
        let x = match r.read_i32() {
            Ok(v) => v,
            Err(e) => {
                return Err(e);
            },
        };
        let y = match r.read_i32() {
            Ok(v) => v,
            Err(e) => {
                return Err(e);
            },
        };
        let z = match r.read_i32() {
            Ok(v) => v,
            Err(e) => {
                return Err(e);
            },
        };
        let yaw = match r.read_u8() {
            Ok(v) => v,
            Err(e) => {
                return Err(e);
            },
        };
        let pitch = match r.read_u8() {
            Ok(v) => v,
            Err(e) => {
                return Err(e);
            },
        };
        Ok(EntityPosRot { id, x, y, z, yaw, pitch })
    }
}

impl SetEntityHealth {
    pub fn deserialize(r: &mut Reader) -> (res: Result<SetEntityHealth, DecodeError>)
        requires
            old(r).wf(),
        ensures
            final(r).wf(),
            final(r).bytes() == old(r).bytes(),
            match res {
                Ok(p) => parse_set_entity_health(old(r).bytes(), old(r).spec_pos()) == Ok::<
                    _,
                    DecodeError,
                >((p, final(r).spec_pos())),
                Err(e) => parse_set_entity_health(old(r).bytes(), old(r).spec_pos()) == Err::<
                    (SetEntityHealth, int),
                    _,
                >(e),
            },
    {
        let id = match r.read_i32() {
            Ok(v) => v,
            Err(e) => {
                return Err(e);
            },
        };
        let health = match r.read_i8() {
            Ok(v) => v,
            Err(e) => {
                return Err(e);
            },
        };
        Ok(SetEntityHealth { id, health })
    }
}

impl InitChunk {
    pub fn deserialize(r: &mut Reader) -> (res: Result<InitChunk, DecodeError>)
        requires
            old(r).wf(),
        ensures
            final(r).wf(),
            final(r).bytes() == old(r).bytes(),
            match res {
                Ok(p) => parse_init_chunk(old(r).bytes(), old(r).spec_pos()) == Ok::<
                    _,
                    DecodeError,
                >((p, final(r).spec_pos())),
                Err(e) => parse_init_chunk(old(r).bytes(), old(r).spec_pos()) == Err::<
                    (InitChunk, int),
                    _,
                >(e),
            },
    {
        let chunk_x = match r.read_i32() {
            Ok(v) => v,
            Err(e) => {
                return Err(e);
            },
        };
        let chunk_z = match r.read_i32() {
            Ok(v) => v,
            Err(e) => {
                return Err(e);
            },
        };
        let init = match r.read_bool() {
            Ok(v) => v,
            Err(e) => {
                return Err(e);
            },
        };
        Ok(InitChunk { chunk_x, chunk_z, init })
    }
}

impl SetBlock {
    pub fn deserialize(r: &mut Reader) -> (res: Result<SetBlock, DecodeError>)
        requires
            old(r).wf(),
        ensures
            final(r).wf(),
            final(r).bytes() == old(r).bytes(),
            match res {
                Ok(p) => parse_set_block(old(r).bytes(), old(r).spec_pos()) == Ok::<
                    _,
                    DecodeError,
                >((p, final(r).spec_pos())),
                Err(e) => parse_set_block(old(r).bytes(), old(r).spec_pos()) == Err::<
                    (SetBlock, int),
                    _,
                >(e),
            },
    {
        let x = match r.read_i32() {
            Ok(v) => v,
            Err(e) => {
                return Err(e);
            },
        };
        let y = match r.read_u8() {
            Ok(v) => v,
            Err(e) => {
                return Err(e);
            },
        };
        let z = match r.read_i32() {
            Ok(v) => v,
            Err(e) => {
                return Err(e);
            },
        };
        let ty = match r.read_u8() {
            Ok(v) => v,
            Err(e) => {
                return Err(e);
            },
        };
        let _data = match r.read_u8() {
            Ok(v) => v,
            Err(e) => {
                return Err(e);
            },
        };
        let block = match Block::read(ty, _data) {
            Some(b) => b,
            None => Block::Stone,
        };
        Ok(SetBlock { x, y, z, block })
    }
}

impl AfterRespawn {
    pub fn deserialize(r: &mut Reader) -> (res: Result<AfterRespawn, DecodeError>)
        requires
            old(r).wf(),
        ensures
            final(r).wf(),
            final(r).bytes() == old(r).bytes(),
            match res {
                Ok(p) => parse_after_respawn(old(r).bytes(), old(r).spec_pos()) == Ok::<
                    _,
                    DecodeError,
                >((p, final(r).spec_pos())),
                Err(e) => parse_after_respawn(old(r).bytes(), old(r).spec_pos()) == Err::<
                    (AfterRespawn, int),
                    _,
                >(e),
            },
    {
        let action = match r.read_i8() {
            Ok(v) => v,
            Err(e) => {
                return Err(e);
            },
        };
        match action {
            0 => Ok(AfterRespawn::BedMissing),
            1 => Ok(AfterRespawn::StartRaining),
            2 => Ok(AfterRespawn::StopRaining),
            _ => Err(DecodeError::RespawnAction(action)),
        }
    }
}

impl SetInventorySlot {
    pub fn deserialize(r: &mut Reader) -> (res: Result<SetInventorySlot, DecodeError>)
        requires
            old(r).wf(),
        ensures
            final(r).wf(),
            final(r).bytes() == old(r).bytes(),
            match res {
                Ok(p) => parse_set_inventory_slot(old(r).bytes(), old(r).spec_pos()) == Ok::<
                    _,
                    DecodeError,
                >((p, final(r).spec_pos())),
                Err(e) => parse_set_inventory_slot(old(r).bytes(), old(r).spec_pos()) == Err::<
                    (SetInventorySlot, int),
                    _,
                >(e),
            },
    {
        let inventory_id = match r.read_i8() {
            Ok(v) => v,
            Err(e) => {
                return Err(e);
            },
        };
        let slot = match r.read_i16() {
            Ok(v) => v,
            Err(e) => {
                return Err(e);
            },
        };
        let id = match r.read_i16() {
            Ok(v) => v,
            Err(e) => {
                return Err(e);
            },
        };
        if id < 0 {
            Ok(SetInventorySlot { inventory_id, slot, item: None })
        } else {
            let count = match r.read_i8() {
                Ok(v) => v,
                Err(e) => {
                    return Err(e);
                },
            };
            let data = match r.read_i16() {
                Ok(v) => v,
                Err(e) => {
                    return Err(e);
                },
            };
            Ok(SetInventorySlot { inventory_id, slot, item: Some((id, count, data)) })
        }
    }
}

impl Statistic {
    pub fn deserialize(r: &mut Reader) -> (res: Result<Statistic, DecodeError>)
        requires
            old(r).wf(),
        ensures
            final(r).wf(),
            final(r).bytes() == old(r).bytes(),
            match res {
                Ok(p) => parse_statistic(old(r).bytes(), old(r).spec_pos()) == Ok::<
                    _,
                    DecodeError,
                >((p, final(r).spec_pos())),
                Err(e) => parse_statistic(old(r).bytes(), old(r).spec_pos()) == Err::<
                    (Statistic, int),
                    _,
                >(e),
            },
    {
        let id = match r.read_i32() {
            Ok(v) => v,
            Err(e) => {
                return Err(e);
            },
        };
        let delta_value = match r.read_i8() {
            Ok(v) => v,
            Err(e) => {
                return Err(e);
            },
        };
        Ok(Statistic { id, delta_value })
    }
}

impl Disconnect {
    pub fn deserialize(r: &mut Reader) -> (res: Result<Disconnect, DecodeError>)
        requires
            old(r).wf(),
        ensures
            final(r).wf(),
            final(r).bytes() == old(r).bytes(),
            match res {
                Ok(p) => (parse_disconnect(old(r).bytes(), old(r).spec_pos()) matches Ok(q) && q.0
                    == p@ && q.1 == final(r).spec_pos()),
                Err(e) => parse_disconnect(old(r).bytes(), old(r).spec_pos()) == Err::<
                    (DisconnectView, int),
                    _,
                >(e),
            },
    {
        let message = match read_str(r, 100) {
            Ok(v) => v,
            Err(e) => {
                return Err(e);
            },
        };
        Ok(Disconnect { message })
    }
}

impl SpawnEntity {
    pub fn deserialize(r: &mut Reader) -> (res: Result<SpawnEntity, DecodeError>)
        requires
            old(r).wf(),
        ensures
            final(r).wf(),
            final(r).bytes() == old(r).bytes(),
            match res {
                Ok(p) => (parse_spawn_entity(old(r).bytes(), old(r).spec_pos()) matches Ok(q)
                    && q.0 == p@ && q.1 == final(r).spec_pos()),
                Err(e) => parse_spawn_entity(old(r).bytes(), old(r).spec_pos()) == Err::<
                    (SpawnEntityView, int),
                    _,
                >(e),
            },
    {
        let id = match r.read_i32() {
            Ok(v) => v,
            Err(e) => {
                return Err(e);
            },
        };
        let ty = match r.read_i8() {
            Ok(v) => v,
            Err(e) => {
                return Err(e);
            },
        };
        let x = match r.read_i32() {
            Ok(v) => v,
            Err(e) => {
                return Err(e);
            },
        };
        let y = match r.read_i32() {
            Ok(v) => v,
            Err(e) => {
                return Err(e);
            },
        };
        let z = match r.read_i32() {
            Ok(v) => v,
            Err(e) => {
                return Err(e);
            },
        };
        let yaw = match r.read_i8() {
            Ok(v) => v,
            Err(e) => {
                return Err(e);
            },
        };
        let pitch = match r.read_i8() {
            Ok(v) => v,
            Err(e) => {
                return Err(e);
            },
        };
        let attributes = match read_entity_attributes(r) {
            Ok(v) => v,
            Err(e) => {
                return Err(e);
            },
        };
        Ok(SpawnEntity { id, ty, x, y, z, yaw, pitch, attributes })
    }
}

impl UpdateEntityAttributes {
    pub fn deserialize(r: &mut Reader) -> (res: Result<UpdateEntityAttributes, DecodeError>)
        requires
            old(r).wf(),
        ensures
            final(r).wf(),
            final(r).bytes() == old(r).bytes(),
            match res {
                Ok(p) => (parse_update_entity_attributes(old(r).bytes(), old(r).spec_pos())
                    matches Ok(q) && q.0 == p@ && q.1 == final(r).spec_pos()),
                Err(e) => parse_update_entity_attributes(old(r).bytes(), old(r).spec_pos())
                    == Err::<(UpdateEntityAttributesView, int), _>(e),
            },
    {
        let id = match r.read_i32() {
            Ok(v) => v,
            Err(e) => {
                return Err(e);
            },
        };
        let attributes = match read_entity_attributes(r) {
            Ok(v) => v,
            Err(e) => {
                return Err(e);
            },
        };
        Ok(UpdateEntityAttributes { id, attributes })
    }
}

impl SetContiguousBlocks {
    pub fn deserialize(r: &mut Reader) -> (res: Result<SetContiguousBlocks, DecodeError>)
        requires
            old(r).wf(),
        ensures
            final(r).wf(),
            final(r).bytes() == old(r).bytes(),
            match res {
                Ok(p) => (parse_set_contiguous_blocks(old(r).bytes(), old(r).spec_pos())
                    matches Ok(q) && q.0 == p@ && q.1 == final(r).spec_pos()),
                Err(e) => parse_set_contiguous_blocks(old(r).bytes(), old(r).spec_pos()) == Err::<
                    (SetContiguousBlocksView, int),
                    _,
                >(e),
            },
    {
        let x = match r.read_i32() {
            Ok(v) => v,
            Err(e) => {
                return Err(e);
            },
        };
        let y16 = match r.read_i16() {
            Ok(v) => v,
            Err(e) => {
                return Err(e);
            },
        };
        let z = match r.read_i32() {
            Ok(v) => v,
            Err(e) => {
                return Err(e);
            },
        };
        let xs = match r.read_u8() {
            Ok(v) => v,
            Err(e) => {
                return Err(e);
            },
        };
        let ys = match r.read_u8() {
            Ok(v) => v,
            Err(e) => {
                return Err(e);
            },
        };
        let zs = match r.read_u8() {
            Ok(v) => v,
            Err(e) => {
                return Err(e);
            },
        };
        let size = match r.read_i32() {
            Ok(v) => v,
            Err(e) => {
                return Err(e);
            },
        };
        if size < 0 {
            return Err(DecodeError::Compression);
        }
        let raw = match r.read_exact(size as usize) {
            Ok(v) => v,
            Err(e) => {
                return Err(e);
            },
        };
        let data = match inflate_zlib(&raw) {
            Ok(v) => v,
            Err(e) => {
                return Err(e);
            },
        };
        proof {
            assert((xs as int + 1) * (ys as int + 1) <= 0x10000) by (nonlinear_arith)
                requires
                    xs <= 255 && ys <= 255,
            ;
            assert((xs as int + 1) * (ys as int + 1) * (zs as int + 1) <= 0x1000000)
                by (nonlinear_arith)
                requires
                    xs <= 255 && ys <= 255 && zs <= 255,
            ;
        }
        let volume: usize = (xs as usize + 1) * (ys as usize + 1) * (zs as usize + 1);
        if data.len() < volume {
            return Err(DecodeError::Compression);
        }
        let mut blocks: Vec<Block> = Vec::new();
        let mut k: usize = 0;
        while k < volume
            invariant
                k <= volume,
                volume <= data@.len(),
                blocks@ =~= Seq::new(k as nat, |t: int| block_or_stone(data@[t])),
            decreases volume - k,
        {
            let b = match Block::read(data[k], 0) {
                Some(b) => b,
                None => Block::Stone,
            };
            blocks.push(b);
            proof {
                assert(blocks@ =~= Seq::new((k + 1) as nat, |t: int| block_or_stone(data@[t])));
            }
            k = k + 1;
        }
        let x_size = xs as i32 + 1;
        let y_size = ys as i32 + 1;
        let z_size = zs as i32 + 1;
        proof {
            assert(blocks@ =~= Seq::new(
                ((xs as int + 1) * (ys as int + 1) * (zs as int + 1)) as nat,
                |t: int| block_or_stone(data@[t]),
            ));
        }
        Ok(SetContiguousBlocks { x, y: y16 as i32, z, x_size, y_size, z_size, blocks })
    }
}

impl SetBlocks {
    pub fn deserialize(r: &mut Reader) -> (res: Result<SetBlocks, DecodeError>)
        requires
            old(r).wf(),
        ensures
            final(r).wf(),
            final(r).bytes() == old(r).bytes(),
            match res {
                Ok(p) => (parse_set_blocks(old(r).bytes(), old(r).spec_pos()) matches Ok(q) && q.0
                    == p@ && q.1 == final(r).spec_pos()),
                Err(e) => parse_set_blocks(old(r).bytes(), old(r).spec_pos()) == Err::<
                    (SetBlocksView, int),
                    _,
                >(e),
            },
    {
        let ghost s = r.bytes();
        let chunk_x = match r.read_i32() {
            Ok(v) => v,
            Err(e) => {
                return Err(e);
            },
        };
        let chunk_z = match r.read_i32() {
            Ok(v) => v,
            Err(e) => {
                return Err(e);
            },
        };
        let num = match r.read_i16() {
            Ok(v) => v,
            Err(e) => {
                return Err(e);
            },
        };
        if num < 0 {
            return Err(DecodeError::ShortInput);
        }
        let ghost i0 = old(r).spec_pos();
        let ghost j = r.spec_pos();
        let n = num as usize;
        let mut positions: Vec<(u8, u8, u8)> = Vec::new();
        let mut k: usize = 0;
        while k < n
            invariant
                k <= n,
                r.wf(),
                r.bytes() == s,
                s == old(r).bytes(),
                i0 == old(r).spec_pos(),
                parse_i32(s, i0) == Ok::<(i32, int), DecodeError>((chunk_x, i0 + 4)),
                parse_i32(s, i0 + 4) == Ok::<(i32, int), DecodeError>((chunk_z, i0 + 8)),
                parse_i16(s, i0 + 8) == Ok::<(i16, int), DecodeError>((num, j)),
                0 <= num,
                n == num as int,
                0 <= j,
                r.spec_pos() == j + 2 * k,
                j + 2 * k <= s.len(),
                positions@ =~= Seq::new(
                    k as nat,
                    |t: int| spec_unpack_position(u16_of(s[j + 2 * t], s[j + 2 * t + 1])),
                ),
            decreases n - k,
        {
            match r.read_u16() {
                Ok(e) => {
                    let px = (e >> 12) as u8;
                    let py = (e & 0xFF) as u8;
                    let pz = ((e >> 8) & 0xF) as u8;
                    positions.push((px, py, pz));
                    proof {
                        assert(positions@ =~= Seq::new(
                            (k + 1) as nat,
                            |t: int| spec_unpack_position(u16_of(s[j + 2 * t], s[j + 2 * t + 1])),
                        ));
                    }
                    k = k + 1;
                },
                Err(e) => {
                    proof {
                        assert(j + 2 * (num as int) > s.len());
                    }
                    return Err(DecodeError::ShortInput);
                },
            }
        }
        let types = match r.read_exact(n) {
            Ok(v) => v,
            Err(e) => {
                return Err(e);
            },
        };
        let data = match r.read_exact(n) {
            Ok(v) => v,
            Err(e) => {
                return Err(e);
            },
        };
        Ok(SetBlocks { chunk_x, chunk_z, positions, types, data })
    }
}

impl SetInventoryItems {
    pub fn deserialize(r: &mut Reader) -> (res: Result<SetInventoryItems, DecodeError>)
        requires
            old(r).wf(),
        ensures
            final(r).wf(),
            final(r).bytes() == old(r).bytes(),
            match res {
                Ok(p) => (parse_set_inventory_items(old(r).bytes(), old(r).spec_pos())
                    matches Ok(q) && q.0 == p@ && q.1 == final(r).spec_pos()),
                Err(e) => parse_set_inventory_items(old(r).bytes(), old(r).spec_pos()) == Err::<
                    (SetInventoryItemsView, int),
                    _,
                >(e),
            },
    {
        let ghost s = r.bytes();
        let inventory_id = match r.read_i8() {
            Ok(v) => v,
            Err(e) => {
                return Err(e);
            },
        };
        let num = match r.read_i16() {
            Ok(v) => v,
            Err(e) => {
                return Err(e);
            },
        };
        let n: usize = if num < 0 {
            0
        } else {
            num as usize
        };
        let mut items: Vec<Option<(i16, i8, i16)>> = Vec::new();
        let ghost i0 = old(r).spec_pos();
        let ghost j = r.spec_pos();
        let ghost total = num as int;
        proof {
            if num < 0 {
                assert(parse_inventory_items(s, j, total) == Ok::<
                    _,
                    DecodeError,
                >((Seq::<Option<(i16, i8, i16)>>::empty(), j)));
            }
        }
        let mut k: usize = 0;
        while k < n
            invariant
                k <= n,
                r.wf(),
                r.bytes() == s,
                s == old(r).bytes(),
                i0 == old(r).spec_pos(),
                parse_i8(s, i0) == Ok::<(i8, int), DecodeError>((inventory_id, i0 + 1)),
                parse_i16(s, i0 + 1) == Ok::<(i16, int), DecodeError>((num, j)),
                n == if num < 0 { 0int } else { num as int },
                total == num as int,
                items@.len() == k,
                parse_inventory_items(s, j, total) == (match parse_inventory_items(
                    s,
                    r.spec_pos(),
                    total - k,
                ) {
                    Ok((rest, end)) => Ok::<_, DecodeError>((items@ + rest, end)),
                    Err(e) => Err(e),
                }),
            decreases n - k,
        {
            let id = match r.read_i16() {
                Ok(v) => v,
                Err(e) => {
                    return Err(e);
                },
            };
            let item: Option<(i16, i8, i16)> = if id < 0 {
                None
            } else {
                let count = match r.read_i8() {
                    Ok(v) => v,
                    Err(e) => {
                        return Err(e);
                    },
                };
                let data = match r.read_i16() {
                    Ok(v) => v,
                    Err(e) => {
                        return Err(e);
                    },
                };
                Some((id, count, data))
            };
            let ghost items0 = items@;
            proof {
                if let Ok((rest, end)) = parse_inventory_items(s, r.spec_pos(), total - k - 1) {
                    assert(items0 + (seq![item] + rest) =~= (items0 + seq![item]) + rest);
                }
            }
            items.push(item);
            proof {
                assert(items@ =~= items0 + seq![item]);
            }
            k = k + 1;
        }
        proof {
            if num >= 0 {
                assert(total - n == 0);
            }
            assert(parse_inventory_items(s, r.spec_pos(), total - n) == Ok::<
                _,
                DecodeError,
            >((Seq::<Option<(i16, i8, i16)>>::empty(), r.spec_pos())));
            assert(items@ + Seq::<Option<(i16, i8, i16)>>::empty() =~= items@);
        }
        Ok(SetInventoryItems { inventory_id, items })
    }
}

// ---------------------------------------------------------------------------
// The closed inbound catalogue and its dispatcher: a wire identifier selects
// exactly one variant; anything else is a fatal unknown-identifier error.
// ---------------------------------------------------------------------------

/// Every packet the server can send, as one closed variant family.
#[derive(Debug)]
pub enum ServerPacket {
    Login(Login),
    Chat(Chat),
    SetTime(SetTime),
    SetEntityItem(SetEntityItem),
    SetHealth(SetHealth),
    SpawnPos(SpawnPos),
    Position(Position),
    PosRot(PosRot),
    SpawnPlayer(SpawnPlayer),
    SpawnItemEntity(SpawnItemEntity),
    SpawnInsentientEntity(SpawnInsentientEntity),
    SpawnEntity(SpawnEntity),
    EntityVelocity(EntityVelocity),
    RemoveEntity(RemoveEntity),
    MoveEntity(MoveEntity),
    EntityMoveRot(EntityMoveRot),
    EntityPosRot(EntityPosRot),
    SetEntityHealth(SetEntityHealth),
    UpdateEntityAttributes(UpdateEntityAttributes),
    InitChunk(InitChunk),
    SetContiguousBlocks(SetContiguousBlocks),
    SetBlocks(SetBlocks),
    SetBlock(SetBlock),
    AfterRespawn(AfterRespawn),
    SetInventorySlot(SetInventorySlot),
    SetInventoryItems(SetInventoryItems),
    Statistic(Statistic),
    Disconnect(Disconnect),
}

/// The mathematical value of a [`ServerPacket`].
pub enum ServerPacketView {
    Login(LoginView),
    Chat(ChatView),
    SetTime(SetTime),
    SetEntityItem(SetEntityItem),
    SetHealth(SetHealth),
    SpawnPos(SpawnPos),
    Position(Position),
    PosRot(PosRot),
    SpawnPlayer(SpawnPlayerView),
    SpawnItemEntity(SpawnItemEntity),
    SpawnInsentientEntity(SpawnInsentientEntity),
    SpawnEntity(SpawnEntityView),
    EntityVelocity(EntityVelocity),
    RemoveEntity(RemoveEntity),
    MoveEntity(MoveEntity),
    EntityMoveRot(EntityMoveRot),
    EntityPosRot(EntityPosRot),
    SetEntityHealth(SetEntityHealth),
    UpdateEntityAttributes(UpdateEntityAttributesView),
    InitChunk(InitChunk),
    SetContiguousBlocks(SetContiguousBlocksView),
    SetBlocks(SetBlocksView),
    SetBlock(SetBlock),
    AfterRespawn(AfterRespawn),
    SetInventorySlot(SetInventorySlot),
    SetInventoryItems(SetInventoryItemsView),
    Statistic(Statistic),
    Disconnect(DisconnectView),
}

impl View for ServerPacket {
    type V = ServerPacketView;

    open spec fn view(&self) -> ServerPacketView {
        match self {
            ServerPacket::Login(p) => ServerPacketView::Login(p@),
            ServerPacket::Chat(p) => ServerPacketView::Chat(p@),
            ServerPacket::SetTime(p) => ServerPacketView::SetTime(*p),
            ServerPacket::SetEntityItem(p) => ServerPacketView::SetEntityItem(*p),
            ServerPacket::SetHealth(p) => ServerPacketView::SetHealth(*p),
            ServerPacket::SpawnPos(p) => ServerPacketView::SpawnPos(*p),
            ServerPacket::Position(p) => ServerPacketView::Position(*p),
            ServerPacket::PosRot(p) => ServerPacketView::PosRot(*p),
            ServerPacket::SpawnPlayer(p) => ServerPacketView::SpawnPlayer(p@),
            ServerPacket::SpawnItemEntity(p) => ServerPacketView::SpawnItemEntity(*p),
            ServerPacket::SpawnInsentientEntity(p) => ServerPacketView::SpawnInsentientEntity(*p),
            ServerPacket::SpawnEntity(p) => ServerPacketView::SpawnEntity(p@),
            ServerPacket::EntityVelocity(p) => ServerPacketView::EntityVelocity(*p),
            ServerPacket::RemoveEntity(p) => ServerPacketView::RemoveEntity(*p),
            ServerPacket::MoveEntity(p) => ServerPacketView::MoveEntity(*p),
            ServerPacket::EntityMoveRot(p) => ServerPacketView::EntityMoveRot(*p),
            ServerPacket::EntityPosRot(p) => ServerPacketView::EntityPosRot(*p),
            ServerPacket::SetEntityHealth(p) => ServerPacketView::SetEntityHealth(*p),
            ServerPacket::UpdateEntityAttributes(p) => ServerPacketView::UpdateEntityAttributes(
                p@,
            ),
            ServerPacket::InitChunk(p) => ServerPacketView::InitChunk(*p),
            ServerPacket::SetContiguousBlocks(p) => ServerPacketView::SetContiguousBlocks(p@),
            ServerPacket::SetBlocks(p) => ServerPacketView::SetBlocks(p@),
            ServerPacket::SetBlock(p) => ServerPacketView::SetBlock(*p),
            ServerPacket::AfterRespawn(p) => ServerPacketView::AfterRespawn(*p),
            ServerPacket::SetInventorySlot(p) => ServerPacketView::SetInventorySlot(*p),
            ServerPacket::SetInventoryItems(p) => ServerPacketView::SetInventoryItems(p@),
            ServerPacket::Statistic(p) => ServerPacketView::Statistic(*p),
            ServerPacket::Disconnect(p) => ServerPacketView::Disconnect(p@),
        }
    }
}

/// Spec-level parse of one framed inbound packet: the identifier byte, then
/// the body the identifier selects.
pub open spec fn parse_server_packet(s: Seq<u8>, i: int) -> Result<
    (ServerPacketView, int),
    DecodeError,
> {
    match parse_u8(s, i) {
        Err(e) => Err(e),
        Ok((id, i)) => if id == 1 {
            match parse_login(s, i) {
                Err(e) => Err(e),
                Ok((p, i)) => Ok((ServerPacketView::Login(p), i)),
            }
        } else if id == 3 {
            match parse_chat(s, i) {
                Err(e) => Err(e),
                Ok((p, i)) => Ok((ServerPacketView::Chat(p), i)),
            }
        } else if id == 4 {
            match parse_set_time(s, i) {
                Err(e) => Err(e),
                Ok((p, i)) => Ok((ServerPacketView::SetTime(p), i)),
            }
        } else if id == 5 {
            match parse_set_entity_item(s, i) {
                Err(e) => Err(e),
                Ok((p, i)) => Ok((ServerPacketView::SetEntityItem(p), i)),
            }
        } else if id == 8 {
            match parse_set_health(s, i) {
                Err(e) => Err(e),
                Ok((p, i)) => Ok((ServerPacketView::SetHealth(p), i)),
            }
        } else if id == 6 {
            match parse_spawn_pos(s, i) {
                Err(e) => Err(e),
                Ok((p, i)) => Ok((ServerPacketView::SpawnPos(p), i)),
            }
        } else if id == 11 {
            match parse_position(s, i) {
                Err(e) => Err(e),
                Ok((p, i)) => Ok((ServerPacketView::Position(p), i)),
            }
        } else if id == 13 {
            match parse_pos_rot(s, i) {
                Err(e) => Err(e),
                Ok((p, i)) => Ok((ServerPacketView::PosRot(p), i)),
            }
        } else if id == 20 {
            match parse_spawn_player(s, i) {
                Err(e) => Err(e),
                Ok((p, i)) => Ok((ServerPacketView::SpawnPlayer(p), i)),
            }
        } else if id == 21 {
            match parse_spawn_item_entity(s, i) {
                Err(e) => Err(e),
                Ok((p, i)) => Ok((ServerPacketView::SpawnItemEntity(p), i)),
            }
        } else if id == 23 {
            match parse_spawn_insentient_entity(s, i) {
                Err(e) => Err(e),
                Ok((p, i)) => Ok((ServerPacketView::SpawnInsentientEntity(p), i)),
            }
        } else if id == 24 {
            match parse_spawn_entity(s, i) {
                Err(e) => Err(e),
                Ok((p, i)) => Ok((ServerPacketView::SpawnEntity(p), i)),
            }
        } else if id == 28 {
            match parse_entity_velocity(s, i) {
                Err(e) => Err(e),
                Ok((p, i)) => Ok((ServerPacketView::EntityVelocity(p), i)),
            }
        } else if id == 29 {
            match parse_remove_entity(s, i) {
                Err(e) => Err(e),
                Ok((p, i)) => Ok((ServerPacketView::RemoveEntity(p), i)),
            }
        } else if id == 31 {
            match parse_move_entity(s, i) {
                Err(e) => Err(e),
                Ok((p, i)) => Ok((ServerPacketView::MoveEntity(p), i)),
            }
        } else if id == 33 {
            match parse_entity_move_rot(s, i) {
                Err(e) => Err(e),
                Ok((p, i)) => Ok((ServerPacketView::EntityMoveRot(p), i)),
            }
        } else if id == 34 {
            match parse_entity_pos_rot(s, i) {
                Err(e) => Err(e),
                Ok((p, i)) => Ok((ServerPacketView::EntityPosRot(p), i)),
            }
        } else if id == 38 {
            match parse_set_entity_health(s, i) {
                Err(e) => Err(e),
                Ok((p, i)) => Ok((ServerPacketView::SetEntityHealth(p), i)),
            }
        } else if id == 40 {
            match parse_update_entity_attributes(s, i) {
                Err(e) => Err(e),
                Ok((p, i)) => Ok((ServerPacketView::UpdateEntityAttributes(p), i)),
            }
        } else if id == 50 {
            match parse_init_chunk(s, i) {
                Err(e) => Err(e),
                Ok((p, i)) => Ok((ServerPacketView::InitChunk(p), i)),
            }
        } else if id == 51 {
            match parse_set_contiguous_blocks(s, i) {
                Err(e) => Err(e),
                Ok((p, i)) => Ok((ServerPacketView::SetContiguousBlocks(p), i)),
            }
        } else if id == 52 {
            match parse_set_blocks(s, i) {
                Err(e) => Err(e),
                Ok((p, i)) => Ok((ServerPacketView::SetBlocks(p), i)),
            }
        } else if id == 53 {
            match parse_set_block(s, i) {
                Err(e) => Err(e),
                Ok((p, i)) => Ok((ServerPacketView::SetBlock(p), i)),
            }
        } else if id == 70 {
            match parse_after_respawn(s, i) {
                Err(e) => Err(e),
                Ok((p, i)) => Ok((ServerPacketView::AfterRespawn(p), i)),
            }
        } else if id == 103 {
            match parse_set_inventory_slot(s, i) {
                Err(e) => Err(e),
                Ok((p, i)) => Ok((ServerPacketView::SetInventorySlot(p), i)),
            }
        } else if id == 104 {
            match parse_set_inventory_items(s, i) {
                Err(e) => Err(e),
                Ok((p, i)) => Ok((ServerPacketView::SetInventoryItems(p), i)),
            }
        } else if id == 200 {
            match parse_statistic(s, i) {
                Err(e) => Err(e),
                Ok((p, i)) => Ok((ServerPacketView::Statistic(p), i)),
            }
        } else if id == 255 {
            match parse_disconnect(s, i) {
                Err(e) => Err(e),
                Ok((p, i)) => Ok((ServerPacketView::Disconnect(p), i)),
            }
        } else {
            Err(DecodeError::UnknownPacketId(id))
        },
    }
}

/// Decodes one framed inbound packet: reads the identifier, then the body.
/// An identifier outside the catalogue is a fatal error, as is any body that
/// fails to decode.
#[verifier::rlimit(100)]
#[verifier::spinoff_prover]
pub fn decode_server_packet(r: &mut Reader) -> (res: Result<ServerPacket, DecodeError>)
    requires
        old(r).wf(),
    ensures
        final(r).wf(),
        final(r).bytes() == old(r).bytes(),
        match res {
            Ok(p) => (parse_server_packet(old(r).bytes(), old(r).spec_pos()) matches Ok(q) && q.0
                == p@ && q.1 == final(r).spec_pos()),
            Err(e) => parse_server_packet(old(r).bytes(), old(r).spec_pos()) == Err::<
                (ServerPacketView, int),
                _,
            >(e),
        },
{
    let id = match r.read_u8() {
        Ok(v) => v,
        Err(e) => {
            return Err(e);
        },
    };
    match id {
        1 => match Login::deserialize(r) {
            Ok(p) => Ok(ServerPacket::Login(p)),
            Err(e) => Err(e),
        },
        3 => match Chat::deserialize(r) {
            Ok(p) => Ok(ServerPacket::Chat(p)),
            Err(e) => Err(e),
        },
        4 => match SetTime::deserialize(r) {
            Ok(p) => Ok(ServerPacket::SetTime(p)),
            Err(e) => Err(e),
        },
        5 => match SetEntityItem::deserialize(r) {
            Ok(p) => Ok(ServerPacket::SetEntityItem(p)),
            Err(e) => Err(e),
        },
        6 => match SpawnPos::deserialize(r) {
            Ok(p) => Ok(ServerPacket::SpawnPos(p)),
            Err(e) => Err(e),
        },
        8 => match SetHealth::deserialize(r) {
            Ok(p) => Ok(ServerPacket::SetHealth(p)),
            Err(e) => Err(e),
        },
        11 => match Position::deserialize(r) {
            Ok(p) => Ok(ServerPacket::Position(p)),
            Err(e) => Err(e),
        },
        13 => match PosRot::deserialize(r) {
            Ok(p) => Ok(ServerPacket::PosRot(p)),
            Err(e) => Err(e),
        },
        20 => match SpawnPlayer::deserialize(r) {
            Ok(p) => Ok(ServerPacket::SpawnPlayer(p)),
            Err(e) => Err(e),
        },
        21 => match SpawnItemEntity::deserialize(r) {
            Ok(p) => Ok(ServerPacket::SpawnItemEntity(p)),
            Err(e) => Err(e),
        },
        23 => match SpawnInsentientEntity::deserialize(r) {
            Ok(p) => Ok(ServerPacket::SpawnInsentientEntity(p)),
            Err(e) => Err(e),
        },
        24 => match SpawnEntity::deserialize(r) {
            Ok(p) => Ok(ServerPacket::SpawnEntity(p)),
            Err(e) => Err(e),
        },
        28 => match EntityVelocity::deserialize(r) {
            Ok(p) => Ok(ServerPacket::EntityVelocity(p)),
            Err(e) => Err(e),
        },
        29 => match RemoveEntity::deserialize(r) {
            Ok(p) => Ok(ServerPacket::RemoveEntity(p)),
            Err(e) => Err(e),
        },
        31 => match MoveEntity::deserialize(r) {
            Ok(p) => Ok(ServerPacket::MoveEntity(p)),
            Err(e) => Err(e),
        },
        33 => match EntityMoveRot::deserialize(r) {
            Ok(p) => Ok(ServerPacket::EntityMoveRot(p)),
            Err(e) => Err(e),
        },
        34 => match EntityPosRot::deserialize(r) {
            Ok(p) => Ok(ServerPacket::EntityPosRot(p)),
            Err(e) => Err(e),
        },
        38 => match SetEntityHealth::deserialize(r) {
            Ok(p) => Ok(ServerPacket::SetEntityHealth(p)),
            Err(e) => Err(e),
        },
        40 => match UpdateEntityAttributes::deserialize(r) {
            Ok(p) => Ok(ServerPacket::UpdateEntityAttributes(p)),
            Err(e) => Err(e),
        },
        50 => match InitChunk::deserialize(r) {
            Ok(p) => Ok(ServerPacket::InitChunk(p)),
            Err(e) => Err(e),
        },
        51 => match SetContiguousBlocks::deserialize(r) {
            Ok(p) => Ok(ServerPacket::SetContiguousBlocks(p)),
            Err(e) => Err(e),
        },
        52 => match SetBlocks::deserialize(r) {
            Ok(p) => Ok(ServerPacket::SetBlocks(p)),
            Err(e) => Err(e),
        },
        53 => match SetBlock::deserialize(r) {
            Ok(p) => Ok(ServerPacket::SetBlock(p)),
            Err(e) => Err(e),
        },
        70 => match AfterRespawn::deserialize(r) {
            Ok(p) => Ok(ServerPacket::AfterRespawn(p)),
            Err(e) => Err(e),
        },
        103 => match SetInventorySlot::deserialize(r) {
            Ok(p) => Ok(ServerPacket::SetInventorySlot(p)),
            Err(e) => Err(e),
        },
        104 => match SetInventoryItems::deserialize(r) {
            Ok(p) => Ok(ServerPacket::SetInventoryItems(p)),
            Err(e) => Err(e),
        },
        200 => match Statistic::deserialize(r) {
            Ok(p) => Ok(ServerPacket::Statistic(p)),
            Err(e) => Err(e),
        },
        255 => match Disconnect::deserialize(r) {
            Ok(p) => Ok(ServerPacket::Disconnect(p)),
            Err(e) => Err(e),
        },
        other => Err(DecodeError::UnknownPacketId(other)),
    }
}

// ---------------------------------------------------------------------------
// Outbound framing. Each serializer emits exactly the bytes its `*_bytes`
// spec function describes, identifier byte included; the round-trip lemmas
// below prove that decoding those bytes gives the packet back.
// ---------------------------------------------------------------------------

/// The wire bytes of a login packet.
pub open spec fn login_bytes(v: LoginView) -> Seq<u8> {
    seq![1u8] + spec_be4(v.protocol_version as u32) + str_bytes(v.username) + spec_be8(
        v.seed as u64,
    ) + seq![v.dimension as u8]
}

/// The wire bytes of a handshake packet.
pub open spec fn handshake_bytes(v: HandshakeView) -> Seq<u8> {
    seq![2u8] + str_bytes(v.username)
}

/// The wire bytes of a position packet.
pub open spec fn position_bytes(p: Position) -> Seq<u8> {
    seq![11u8] + spec_be8(p.x_bits) + spec_be8(p.y_bits) + spec_be8(p.stance_bits) + spec_be8(
        p.z_bits,
    ) + seq![if p.grounded { 1u8 } else { 0u8 }]
}

/// The wire bytes of a position-and-look packet.
pub open spec fn pos_rot_bytes(p: PosRot) -> Seq<u8> {
    seq![13u8] + spec_be8(p.x_bits) + spec_be8(p.y_bits) + spec_be8(p.stance_bits) + spec_be8(
        p.z_bits,
    ) + spec_be4(p.yaw_bits) + spec_be4(p.pitch_bits) + seq![if p.grounded { 1u8 } else { 0u8 }]
}

impl Login {
    /// Frames this packet for the wire. The username must fit the signed
    /// 16-bit code-unit count; every username within the 16-unit field limit
    /// does.
    pub fn serialize(&self) -> (out: Vec<u8>)
        requires
            utf16_units(self.username@).len() <= 0x7FFF,
        ensures
            out@ == login_bytes(self@),
    {
        let mut out: Vec<u8> = Vec::new();
        write_u8(&mut out, 1);
        write_u32(&mut out, self.protocol_version as u32);
        match write_str(&mut out, self.username.as_str()) {
            Ok(()) => (),
            Err(_) => {
                proof {
                    assert(false);
                }
            },
        }
        write_u64(&mut out, self.seed as u64);
        write_u8(&mut out, self.dimension as u8);
        proof {
            assert(out@ =~= login_bytes(self@));
        }
        out
    }
}

impl Handshake {
    /// Frames this packet for the wire; the username constraint is as for
    /// [`Login::serialize`].
    pub fn serialize(&self) -> (out: Vec<u8>)
        requires
            utf16_units(self.username@).len() <= 0x7FFF,
        ensures
            out@ == handshake_bytes(self@),
    {
        let mut out: Vec<u8> = Vec::new();
        write_u8(&mut out, 2);
        match write_str(&mut out, self.username.as_str()) {
            Ok(()) => (),
            Err(_) => {
                proof {
                    assert(false);
                }
            },
        }
        proof {
            assert(out@ =~= handshake_bytes(self@));
        }
        out
    }
}

impl Position {
    pub fn serialize(&self) -> (out: Vec<u8>)
        ensures
            out@ == position_bytes(*self),
    {
        let mut out: Vec<u8> = Vec::new();
        write_u8(&mut out, 11);
        write_u64(&mut out, self.x_bits);
        write_u64(&mut out, self.y_bits);
        write_u64(&mut out, self.stance_bits);
        write_u64(&mut out, self.z_bits);
        write_u8(&mut out, if self.grounded { 1 } else { 0 });
        proof {
            assert(out@ =~= position_bytes(*self));
        }
        out
    }
}

impl PosRot {
    pub fn serialize(&self) -> (out: Vec<u8>)
        ensures
            out@ == pos_rot_bytes(*self),
    {
        let mut out: Vec<u8> = Vec::new();
        write_u8(&mut out, 13);
        write_u64(&mut out, self.x_bits);
        write_u64(&mut out, self.y_bits);
        write_u64(&mut out, self.stance_bits);
        write_u64(&mut out, self.z_bits);
        write_u32(&mut out, self.yaw_bits);
        write_u32(&mut out, self.pitch_bits);
        write_u8(&mut out, if self.grounded { 1 } else { 0 });
        proof {
            assert(out@ =~= pos_rot_bytes(*self));
        }
        out
    }
}

// ---------------------------------------------------------------------------
// Round trips: for every packet type with both an encoder and a decoder,
// decoding the encoded bytes yields the packet back.
// ---------------------------------------------------------------------------

/// Round trip for login packets, through the inbound dispatcher.
#[verifier::rlimit(100)]
#[verifier::spinoff_prover]
pub proof fn lemma_login_round_trip(v: LoginView)
    requires
        crate::text::valid_chars(v.username),
        utf16_units(v.username).len() <= 16,
    ensures
        parse_server_packet(login_bytes(v), 0) == Ok::<_, DecodeError>(
            (ServerPacketView::Login(v), login_bytes(v).len() as int),
        ),
{
    let s = login_bytes(v);
    let sb = str_bytes(v.username);
    crate::text::lemma_units_bytes_len(utf16_units(v.username));
    assert(s[0] == 1u8);
    assert(s.subrange(1, 5) =~= spec_be4(v.protocol_version as u32));
    crate::codec::lemma_parse_i32_at(s, 1, v.protocol_version);
    assert(s.subrange(5, 5 + sb.len() as int) =~= sb);
    crate::text::lemma_str_round_trip(s, 5, v.username, 16);
    let j = 5 + sb.len() as int;
    assert(s.subrange(j, j + 8) =~= spec_be8(v.seed as u64));
    crate::codec::lemma_parse_i64_at(s, j, v.seed);
    assert(s[j + 8] == v.dimension as u8);
    crate::codec::lemma_parse_i8_at(s, j + 8, v.dimension);
}

/// Round trip for handshake packets. The handshake is read outside the
/// dispatcher, so this speaks of its body parser, after the identifier byte.
pub proof fn lemma_handshake_round_trip(v: HandshakeView)
    requires
        crate::text::valid_chars(v.username),
        utf16_units(v.username).len() <= 16,
    ensures
        handshake_bytes(v)[0] == 2u8,
        parse_handshake(handshake_bytes(v), 1) == Ok::<_, DecodeError>(
            (v, handshake_bytes(v).len() as int),
        ),
{
    let s = handshake_bytes(v);
    let sb = str_bytes(v.username);
    crate::text::lemma_units_bytes_len(utf16_units(v.username));
    assert(s.subrange(1, 1 + sb.len() as int) =~= sb);
    crate::text::lemma_str_round_trip(s, 1, v.username, 16);
}

/// The body of an encoded position packet parses back to the packet.
#[verifier::rlimit(100)]
#[verifier::spinoff_prover]
proof fn lemma_position_body(p: Position)
    ensures
        position_bytes(p)[0] == 11u8,
        position_bytes(p).len() == 34,
        parse_position(position_bytes(p), 1) == Ok::<_, DecodeError>((p, 34int)),
{
    let s = position_bytes(p);
    assert(s[0] == 11u8);
    assert(parse_u64(s, 1) == Ok::<_, DecodeError>((p.x_bits, 9int))) by {
        assert(s.subrange(1, 9) =~= spec_be8(p.x_bits));
        crate::codec::lemma_parse_u64_at(s, 1, p.x_bits);
    }
    assert(parse_u64(s, 9) == Ok::<_, DecodeError>((p.y_bits, 17int))) by {
        assert(s.subrange(9, 17) =~= spec_be8(p.y_bits));
        crate::codec::lemma_parse_u64_at(s, 9, p.y_bits);
    }
    assert(parse_u64(s, 17) == Ok::<_, DecodeError>((p.stance_bits, 25int))) by {
        assert(s.subrange(17, 25) =~= spec_be8(p.stance_bits));
        crate::codec::lemma_parse_u64_at(s, 17, p.stance_bits);
    }
    assert(parse_u64(s, 25) == Ok::<_, DecodeError>((p.z_bits, 33int))) by {
        assert(s.subrange(25, 33) =~= spec_be8(p.z_bits));
        crate::codec::lemma_parse_u64_at(s, 25, p.z_bits);
    }
    assert(parse_bool(s, 33) == Ok::<_, DecodeError>((p.grounded, 34int))) by {
        assert(s.len() == 34);
        assert(s[33] == (if p.grounded { 1u8 } else { 0u8 }));
    }
}

/// Round trip for position packets, through the inbound dispatcher.
#[verifier::spinoff_prover]
pub proof fn lemma_position_round_trip(p: Position)
    ensures
        parse_server_packet(position_bytes(p), 0) == Ok::<_, DecodeError>(
            (ServerPacketView::Position(p), position_bytes(p).len() as int),
        ),
{
    lemma_position_body(p);
}

/// The body of an encoded position-and-look packet parses back to the packet.
#[verifier::rlimit(100)]
#[verifier::spinoff_prover]
proof fn lemma_pos_rot_body(p: PosRot)
    ensures
        pos_rot_bytes(p)[0] == 13u8,
        pos_rot_bytes(p).len() == 42,
        parse_pos_rot(pos_rot_bytes(p), 1) == Ok::<_, DecodeError>((p, 42int)),
{
    let s = pos_rot_bytes(p);
    assert(s[0] == 13u8);
    assert(parse_u64(s, 1) == Ok::<_, DecodeError>((p.x_bits, 9int))) by {
        assert(s.subrange(1, 9) =~= spec_be8(p.x_bits));
        crate::codec::lemma_parse_u64_at(s, 1, p.x_bits);
    }
    assert(parse_u64(s, 9) == Ok::<_, DecodeError>((p.y_bits, 17int))) by {
        assert(s.subrange(9, 17) =~= spec_be8(p.y_bits));
        crate::codec::lemma_parse_u64_at(s, 9, p.y_bits);
    }
    assert(parse_u64(s, 17) == Ok::<_, DecodeError>((p.stance_bits, 25int))) by {
        assert(s.subrange(17, 25) =~= spec_be8(p.stance_bits));
        crate::codec::lemma_parse_u64_at(s, 17, p.stance_bits);
    }
    assert(parse_u64(s, 25) == Ok::<_, DecodeError>((p.z_bits, 33int))) by {
        assert(s.subrange(25, 33) =~= spec_be8(p.z_bits));
        crate::codec::lemma_parse_u64_at(s, 25, p.z_bits);
    }
    assert(parse_u32(s, 33) == Ok::<_, DecodeError>((p.yaw_bits, 37int))) by {
        assert(s.subrange(33, 37) =~= spec_be4(p.yaw_bits));
        crate::codec::lemma_parse_u32_at(s, 33, p.yaw_bits);
    }
    assert(parse_u32(s, 37) == Ok::<_, DecodeError>((p.pitch_bits, 41int))) by {
        assert(s.subrange(37, 41) =~= spec_be4(p.pitch_bits));
        crate::codec::lemma_parse_u32_at(s, 37, p.pitch_bits);
    }
    assert(parse_bool(s, 41) == Ok::<_, DecodeError>((p.grounded, 42int))) by {
        assert(s.len() == 42);
        assert(s[41] == (if p.grounded { 1u8 } else { 0u8 }));
    }
}

/// Round trip for position-and-look packets, through the inbound dispatcher.
#[verifier::spinoff_prover]
pub proof fn lemma_pos_rot_round_trip(p: PosRot)
    ensures
        parse_server_packet(pos_rot_bytes(p), 0) == Ok::<_, DecodeError>(
            (ServerPacketView::PosRot(p), pos_rot_bytes(p).len() as int),
        ),
{
    lemma_pos_rot_body(p);
}

} // verus!

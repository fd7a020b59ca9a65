//! Decoded protocol messages. A frame handed up by the decoder carries a
//! numeric message id and a payload laid out little-endian with fields in
//! descending size order; the two message kinds this library cares about are
//! parsed here, field by field, and every other kind is passed through as
//! `Other`.

use vstd::prelude::*;

use crate::wire::{as_i16, as_i32, le16_at, le32_at, read_i16_le, read_i32_le, read_u16_le,
    read_u32_le};

verus! {

/// Message id of a position report (GLOBAL_POSITION_INT).
pub const POSITION_MSG_ID: u32 = 33;

/// Message id of an attitude report (ATTITUDE).
pub const ATTITUDE_MSG_ID: u32 = 30;

/// Payload size of a position report.
pub const POSITION_PAYLOAD_LEN: usize = 28;

/// Payload size of an attitude report.
pub const ATTITUDE_PAYLOAD_LEN: usize = 28;

/// Fields of a position report. Angles and rates keep the wire units:
/// latitude and longitude in degrees scaled by 1e7, altitudes in
/// millimetres, velocities in cm/s, heading in centidegrees.
#[derive(Clone, Copy, PartialEq, Eq, Structural, Debug)]
pub struct PositionReport {
    pub time_boot_ms: u32,
    pub lat_dege7: i32,
    pub lon_dege7: i32,
    pub alt_msl_mm: i32,
    pub alt_agl_mm: i32,
    pub vx_cm_s: i16,
    pub vy_cm_s: i16,
    pub vz_cm_s: i16,
    pub heading_cdeg: u16,
}

/// Fields of an attitude report. The four-byte angle and rate fields are
/// IEEE-754 single-precision values on the wire; they are carried here as
/// their raw 32-bit patterns, never interpreted arithmetically.
#[derive(Clone, Copy, PartialEq, Eq, Structural, Debug)]
pub struct AttitudeReport {
    pub time_boot_ms: u32,
    pub roll_rad_bits: u32,
    pub pitch_rad_bits: u32,
    pub yaw_rad_bits: u32,
    pub rollspeed_bits: u32,
    pub pitchspeed_bits: u32,
    pub yawspeed_bits: u32,
}

/// One whole message reconstructed from the stream: a position report, an
/// attitude report, or any other kind, which the telemetry path ignores.
#[derive(Clone, Copy, PartialEq, Eq, Structural, Debug)]
pub enum DecodedMessage {
    Position(PositionReport),
    Attitude(AttitudeReport),
    Other,
}

/// The position report stored in payload `p` (fields at their fixed
/// little-endian offsets).
pub open spec fn spec_position_report(p: Seq<u8>) -> PositionReport {
    PositionReport {
        time_boot_ms: le32_at(p, 0),
        lat_dege7: as_i32(le32_at(p, 4)),
        lon_dege7: as_i32(le32_at(p, 8)),
        alt_msl_mm: as_i32(le32_at(p, 12)),
        alt_agl_mm: as_i32(le32_at(p, 16)),
        vx_cm_s: as_i16(le16_at(p, 20)),
        vy_cm_s: as_i16(le16_at(p, 22)),
        vz_cm_s: as_i16(le16_at(p, 24)),
        heading_cdeg: le16_at(p, 26),
    }
}

/// The attitude report stored in payload `p`.
pub open spec fn spec_attitude_report(p: Seq<u8>) -> AttitudeReport {
    AttitudeReport {
        time_boot_ms: le32_at(p, 0),
        roll_rad_bits: le32_at(p, 4),
        pitch_rad_bits: le32_at(p, 8),
        yaw_rad_bits: le32_at(p, 12),
        rollspeed_bits: le32_at(p, 16),
        pitchspeed_bits: le32_at(p, 20),
        yawspeed_bits: le32_at(p, 24),
    }
}

/// What a frame with the given id and payload means: a parsed report for
/// the two supported kinds when the payload is long enough, `Other` for
/// everything else.
pub open spec fn spec_classify(msg_id: u32, p: Seq<u8>) -> DecodedMessage {
    if msg_id == POSITION_MSG_ID && p.len() >= POSITION_PAYLOAD_LEN {
        DecodedMessage::Position(spec_position_report(p))
    } else if msg_id == ATTITUDE_MSG_ID && p.len() >= ATTITUDE_PAYLOAD_LEN {
        DecodedMessage::Attitude(spec_attitude_report(p))
    } else {
        DecodedMessage::Other
    }
}

/// Parse one frame into a decoded message.
pub fn classify_frame(msg_id: u32, payload: &Vec<u8>) -> (m: DecodedMessage)
    ensures
        m == spec_classify(msg_id, payload@),
{
    if msg_id == POSITION_MSG_ID && payload.len() >= POSITION_PAYLOAD_LEN {
        DecodedMessage::Position(
            PositionReport {
                time_boot_ms: read_u32_le(payload, 0),
                lat_dege7: read_i32_le(payload, 4),
                lon_dege7: read_i32_le(payload, 8),
                alt_msl_mm: read_i32_le(payload, 12),
                alt_agl_mm: read_i32_le(payload, 16),
                vx_cm_s: read_i16_le(payload, 20),
                vy_cm_s: read_i16_le(payload, 22),
                vz_cm_s: read_i16_le(payload, 24),
                heading_cdeg: read_u16_le(payload, 26),
            },
        )
    } else if msg_id == ATTITUDE_MSG_ID && payload.len() >= ATTITUDE_PAYLOAD_LEN {
        DecodedMessage::Attitude(
            AttitudeReport {
                time_boot_ms: read_u32_le(payload, 0),
                roll_rad_bits: read_u32_le(payload, 4),
                pitch_rad_bits: read_u32_le(payload, 8),
                yaw_rad_bits: read_u32_le(payload, 12),
                rollspeed_bits: read_u32_le(payload, 16),
                pitchspeed_bits: read_u32_le(payload, 20),
                yawspeed_bits: read_u32_le(payload, 24),
            },
        )
    } else {
        DecodedMessage::Other
    }
}

} // verus!

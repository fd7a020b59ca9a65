//! Telemetry records: the simplified vehicle-state snapshot broadcast to
//! subscribers. A fresh record is built per qualifying decoded message;
//! fields the message does not supply stay zero. The broadcast wire format
//! is a fixed-size little-endian layout of the record's fields.

use vstd::prelude::*;

use crate::msg::{AttitudeReport, DecodedMessage, PositionReport};
use crate::wire::{i16_le_bytes, i32_le_bytes, push_i16_le, push_i32_le, push_u16_le, push_u32_le,
    u16_le_bytes, u32_le_bytes};

verus! {

/// Number of bytes of one encoded record.
pub const RECORD_LEN: usize = 52;

/// One vehicle-state snapshot. Position units are those of the position
/// report (degrees·1e7, millimetres, cm/s, centidegrees); the attitude
/// fields carry the report's IEEE-754 single-precision bit patterns.
#[derive(Clone, Copy, PartialEq, Eq, Structural, Debug)]
pub struct TelemetryRecord {
    pub timestamp_ms: u32,
    pub lat_dege7: i32,
    pub lon_dege7: i32,
    pub alt_msl_mm: i32,
    pub alt_agl_mm: i32,
    pub heading_cdeg: u16,
    pub vx_cm_s: i16,
    pub vy_cm_s: i16,
    pub vz_cm_s: i16,
    pub roll_rad_bits: u32,
    pub pitch_rad_bits: u32,
    pub yaw_rad_bits: u32,
    pub rollspeed_bits: u32,
    pub pitchspeed_bits: u32,
    pub yawspeed_bits: u32,
}

/// The all-zero record.
pub open spec fn spec_zero_record() -> TelemetryRecord {
    TelemetryRecord {
        timestamp_ms: 0,
        lat_dege7: 0,
        lon_dege7: 0,
        alt_msl_mm: 0,
        alt_agl_mm: 0,
        heading_cdeg: 0,
        vx_cm_s: 0,
        vy_cm_s: 0,
        vz_cm_s: 0,
        roll_rad_bits: 0,
        pitch_rad_bits: 0,
        yaw_rad_bits: 0,
        rollspeed_bits: 0,
        pitchspeed_bits: 0,
        yawspeed_bits: 0,
    }
}

impl Default for TelemetryRecord {
    /// The all-zero record.
    fn default() -> (r: Self)
        ensures
            r == spec_zero_record(),
    {
        TelemetryRecord {
            timestamp_ms: 0,
            lat_dege7: 0,
            lon_dege7: 0,
            alt_msl_mm: 0,
            alt_agl_mm: 0,
            heading_cdeg: 0,
            vx_cm_s: 0,
            vy_cm_s: 0,
            vz_cm_s: 0,
            roll_rad_bits: 0,
            pitch_rad_bits: 0,
            yaw_rad_bits: 0,
            rollspeed_bits: 0,
            pitchspeed_bits: 0,
            yawspeed_bits: 0,
        }
    }
}

/// The record a position report yields: position, velocity, heading and
/// timestamp populated, attitude fields zero.
pub open spec fn spec_position_record(p: PositionReport) -> TelemetryRecord {
    TelemetryRecord {
        timestamp_ms: p.time_boot_ms,
        lat_dege7: p.lat_dege7,
        lon_dege7: p.lon_dege7,
        alt_msl_mm: p.alt_msl_mm,
        alt_agl_mm: p.alt_agl_mm,
        heading_cdeg: p.heading_cdeg,
        vx_cm_s: p.vx_cm_s,
        vy_cm_s: p.vy_cm_s,
        vz_cm_s: p.vz_cm_s,
        ..spec_zero_record()
    }
}

/// The record an attitude report yields: angles, rates and timestamp
/// populated, position fields zero.
pub open spec fn spec_attitude_record(a: AttitudeReport) -> TelemetryRecord {
    TelemetryRecord {
        timestamp_ms: a.time_boot_ms,
        roll_rad_bits: a.roll_rad_bits,
        pitch_rad_bits: a.pitch_rad_bits,
        yaw_rad_bits: a.yaw_rad_bits,
        rollspeed_bits: a.rollspeed_bits,
        pitchspeed_bits: a.pitchspeed_bits,
        yawspeed_bits: a.yawspeed_bits,
        ..spec_zero_record()
    }
}

/// The pure extraction mapping: position and attitude reports each yield
/// one fresh record, every other message kind yields nothing.
pub open spec fn spec_extract(m: DecodedMessage) -> Option<TelemetryRecord> {
    match m {
        DecodedMessage::Position(p) => Some(spec_position_record(p)),
        DecodedMessage::Attitude(a) => Some(spec_attitude_record(a)),
        DecodedMessage::Other => None,
    }
}

/// Extract zero or one telemetry record from a decoded message.
pub fn extract_record(m: &DecodedMessage) -> (r: Option<TelemetryRecord>)
    ensures
        r == spec_extract(*m),
{
    match m {
        DecodedMessage::Position(p) => Some(
            TelemetryRecord {
                timestamp_ms: p.time_boot_ms,
                lat_dege7: p.lat_dege7,
                lon_dege7: p.lon_dege7,
                alt_msl_mm: p.alt_msl_mm,
                alt_agl_mm: p.alt_agl_mm,
                heading_cdeg: p.heading_cdeg,
                vx_cm_s: p.vx_cm_s,
                vy_cm_s: p.vy_cm_s,
                vz_cm_s: p.vz_cm_s,
                ..Default::default()
            },
        ),
        DecodedMessage::Attitude(a) => Some(
            TelemetryRecord {
                timestamp_ms: a.time_boot_ms,
                roll_rad_bits: a.roll_rad_bits,
                pitch_rad_bits: a.pitch_rad_bits,
                yaw_rad_bits: a.yaw_rad_bits,
                rollspeed_bits: a.rollspeed_bits,
                pitchspeed_bits: a.pitchspeed_bits,
                yawspeed_bits: a.yawspeed_bits,
                ..Default::default()
            },
        ),
        DecodedMessage::Other => None,
    }
}

/// The records a batch of decoded messages yields, in order: one per
/// position or attitude report, none for any other kind.
pub open spec fn records_of(msgs: Seq<DecodedMessage>) -> Seq<TelemetryRecord>
    decreases msgs.len(),
{
    if msgs.len() == 0 {
        Seq::<TelemetryRecord>::empty()
    } else {
        match spec_extract(msgs[0]) {
            Some(r) => seq![r] + records_of(msgs.skip(1)),
            None => records_of(msgs.skip(1)),
        }
    }
}

/// Extract the telemetry records of a batch of decoded messages, in order.
pub fn extract_all(msgs: &Vec<DecodedMessage>) -> (recs: Vec<TelemetryRecord>)
    ensures
        recs@ == records_of(msgs@),
{
    let mut recs: Vec<TelemetryRecord> = Vec::new();
    let mut i: usize = 0;
    proof {
        assert(msgs@.skip(0) =~= msgs@);
        assert(records_of(msgs@) =~= Seq::<TelemetryRecord>::empty() + records_of(msgs@));
    }
    while i < msgs.len()
        invariant
            i <= msgs@.len(),
            records_of(msgs@) == recs@ + records_of(msgs@.skip(i as int)),
        decreases msgs@.len() - i,
    {
        proof {
            assert(msgs@.skip(i as int).skip(1) =~= msgs@.skip(i as int + 1));
            assert(msgs@.skip(i as int)[0] == msgs@[i as int]);
        }
        match extract_record(&msgs[i]) {
            Some(r) => {
                recs.push(r);
            }
            None => {
            }
        }
        proof {
            assert(records_of(msgs@) =~= recs@ + records_of(msgs@.skip(i as int + 1)));
        }
        i = i + 1;
    }
    proof {
        assert(msgs@.skip(msgs@.len() as int) =~= Seq::<DecodedMessage>::empty());
        assert(records_of(msgs@) =~= recs@);
    }
    recs
}

/// The wire bytes of a record: each field little-endian, in declaration
/// order.
pub open spec fn record_bytes(r: TelemetryRecord) -> Seq<u8> {
    u32_le_bytes(r.timestamp_ms) + i32_le_bytes(r.lat_dege7) + i32_le_bytes(r.lon_dege7)
        + i32_le_bytes(r.alt_msl_mm) + i32_le_bytes(r.alt_agl_mm) + u16_le_bytes(r.heading_cdeg)
        + i16_le_bytes(r.vx_cm_s) + i16_le_bytes(r.vy_cm_s) + i16_le_bytes(r.vz_cm_s)
        + u32_le_bytes(r.roll_rad_bits) + u32_le_bytes(r.pitch_rad_bits) + u32_le_bytes(
        r.yaw_rad_bits,
    ) + u32_le_bytes(r.rollspeed_bits) + u32_le_bytes(r.pitchspeed_bits) + u32_le_bytes(
        r.yawspeed_bits,
    )
}

/// Encode one record in the broadcast wire format.
pub fn encode_record(r: &TelemetryRecord) -> (out: Vec<u8>)
    ensures
        out@ == record_bytes(*r),
        out@.len() == RECORD_LEN,
{
    let mut out: Vec<u8> = Vec::new();
    push_u32_le(&mut out, r.timestamp_ms);
    push_i32_le(&mut out, r.lat_dege7);
    push_i32_le(&mut out, r.lon_dege7);
    push_i32_le(&mut out, r.alt_msl_mm);
    push_i32_le(&mut out, r.alt_agl_mm);
    push_u16_le(&mut out, r.heading_cdeg);
    push_i16_le(&mut out, r.vx_cm_s);
    push_i16_le(&mut out, r.vy_cm_s);
    push_i16_le(&mut out, r.vz_cm_s);
    push_u32_le(&mut out, r.roll_rad_bits);
    push_u32_le(&mut out, r.pitch_rad_bits);
    push_u32_le(&mut out, r.yaw_rad_bits);
    push_u32_le(&mut out, r.rollspeed_bits);
    push_u32_le(&mut out, r.pitchspeed_bits);
    push_u32_le(&mut out, r.yawspeed_bits);
    proof {
        assert(out@ =~= record_bytes(*r));
    }
    out
}

} // verus!

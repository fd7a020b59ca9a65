//! The extraction mapping and the broadcast wire encoding.

use mavrelay::msg::{AttitudeReport, DecodedMessage, PositionReport};
use mavrelay::telemetry::{encode_record, extract_all, extract_record, TelemetryRecord, RECORD_LEN};

fn position_report() -> PositionReport {
    PositionReport {
        time_boot_ms: 123456,
        lat_dege7: 451234567,
        lon_dege7: -793456789,
        alt_msl_mm: 150000,
        alt_agl_mm: 120000,
        vx_cm_s: 512,
        vy_cm_s: -301,
        vz_cm_s: 12,
        heading_cdeg: 27000,
    }
}

fn attitude_report() -> AttitudeReport {
    AttitudeReport {
        time_boot_ms: 7890,
        roll_rad_bits: 0.5f32.to_bits(),
        pitch_rad_bits: (-0.25f32).to_bits(),
        yaw_rad_bits: 3.0f32.to_bits(),
        rollspeed_bits: 0.125f32.to_bits(),
        pitchspeed_bits: (-1.5f32).to_bits(),
        yawspeed_bits: 0.0f32.to_bits(),
    }
}

#[test]
fn position_record_populates_position_and_zeroes_attitude() {
    let rec = extract_record(&DecodedMessage::Position(position_report())).unwrap();
    assert_eq!(rec.timestamp_ms, 123456);
    assert_eq!(rec.lat_dege7, 451234567);
    assert_eq!(rec.lon_dege7, -793456789);
    assert_eq!(rec.alt_msl_mm, 150000);
    assert_eq!(rec.alt_agl_mm, 120000);
    assert_eq!(rec.heading_cdeg, 27000);
    assert_eq!(rec.vx_cm_s, 512);
    assert_eq!(rec.vy_cm_s, -301);
    assert_eq!(rec.vz_cm_s, 12);
    assert_eq!(rec.roll_rad_bits, 0);
    assert_eq!(rec.pitch_rad_bits, 0);
    assert_eq!(rec.yaw_rad_bits, 0);
    assert_eq!(rec.rollspeed_bits, 0);
    assert_eq!(rec.pitchspeed_bits, 0);
    assert_eq!(rec.yawspeed_bits, 0);
}

#[test]
fn attitude_record_populates_attitude_and_zeroes_position() {
    let rec = extract_record(&DecodedMessage::Attitude(attitude_report())).unwrap();
    assert_eq!(rec.timestamp_ms, 7890);
    assert_eq!(rec.roll_rad_bits, 0.5f32.to_bits());
    assert_eq!(rec.pitch_rad_bits, (-0.25f32).to_bits());
    assert_eq!(rec.yaw_rad_bits, 3.0f32.to_bits());
    assert_eq!(rec.rollspeed_bits, 0.125f32.to_bits());
    assert_eq!(rec.pitchspeed_bits, (-1.5f32).to_bits());
    assert_eq!(rec.yawspeed_bits, 0.0f32.to_bits());
    assert_eq!(rec.lat_dege7, 0);
    assert_eq!(rec.lon_dege7, 0);
    assert_eq!(rec.alt_msl_mm, 0);
    assert_eq!(rec.alt_agl_mm, 0);
    assert_eq!(rec.heading_cdeg, 0);
    assert_eq!(rec.vx_cm_s, 0);
    assert_eq!(rec.vy_cm_s, 0);
    assert_eq!(rec.vz_cm_s, 0);
}

#[test]
fn other_message_yields_no_record() {
    assert_eq!(extract_record(&DecodedMessage::Other), None);
}

#[test]
fn extract_all_keeps_order_and_skips_other() {
    let msgs = vec![
        DecodedMessage::Other,
        DecodedMessage::Position(position_report()),
        DecodedMessage::Other,
        DecodedMessage::Attitude(attitude_report()),
    ];
    let recs = extract_all(&msgs);
    assert_eq!(recs.len(), 2);
    assert_eq!(recs[0].lat_dege7, 451234567);
    assert_eq!(recs[1].roll_rad_bits, 0.5f32.to_bits());
}

#[test]
fn zero_record_encodes_to_zero_bytes() {
    let rec = TelemetryRecord::default();
    let bytes = encode_record(&rec);
    assert_eq!(bytes.len(), RECORD_LEN);
    assert!(bytes.iter().all(|b| *b == 0));
}

#[test]
fn record_encoding_layout_is_little_endian_in_field_order() {
    let rec = TelemetryRecord {
        timestamp_ms: 0x01020304,
        lat_dege7: -1,
        lon_dege7: 2,
        alt_msl_mm: -2,
        alt_agl_mm: 0x7FFF_FFFF,
        heading_cdeg: 0xABCD,
        vx_cm_s: -2,
        vy_cm_s: 1,
        vz_cm_s: -32768,
        roll_rad_bits: 0xDEADBEEF,
        pitch_rad_bits: 1,
        yaw_rad_bits: 0,
        rollspeed_bits: 0,
        pitchspeed_bits: 0,
        yawspeed_bits: 0xFFFF_FFFF,
    };
    let bytes = encode_record(&rec);
    assert_eq!(bytes.len(), 52);
    assert_eq!(&bytes[0..4], &[0x04, 0x03, 0x02, 0x01]);
    assert_eq!(&bytes[4..8], &[0xFF, 0xFF, 0xFF, 0xFF]);
    assert_eq!(&bytes[8..12], &[0x02, 0x00, 0x00, 0x00]);
    assert_eq!(&bytes[12..16], &[0xFE, 0xFF, 0xFF, 0xFF]);
    assert_eq!(&bytes[16..20], &[0xFF, 0xFF, 0xFF, 0x7F]);
    assert_eq!(&bytes[20..22], &[0xCD, 0xAB]);
    assert_eq!(&bytes[22..24], &[0xFE, 0xFF]);
    assert_eq!(&bytes[24..26], &[0x01, 0x00]);
    assert_eq!(&bytes[26..28], &[0x00, 0x80]);
    assert_eq!(&bytes[28..32], &[0xEF, 0xBE, 0xAD, 0xDE]);
    assert_eq!(&bytes[32..36], &[0x01, 0x00, 0x00, 0x00]);
    assert_eq!(&bytes[36..40], &[0x00, 0x00, 0x00, 0x00]);
    assert_eq!(&bytes[40..44], &[0x00, 0x00, 0x00, 0x00]);
    assert_eq!(&bytes[44..48], &[0x00, 0x00, 0x00, 0x00]);
    assert_eq!(&bytes[48..52], &[0xFF, 0xFF, 0xFF, 0xFF]);
}

#[test]
fn identical_records_encode_identically() {
    let a = extract_record(&DecodedMessage::Attitude(attitude_report())).unwrap();
    let b = extract_record(&DecodedMessage::Attitude(attitude_report())).unwrap();
    assert_eq!(encode_record(&a), encode_record(&b));
}

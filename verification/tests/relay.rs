//! The relay's per-event decisions: transparency of forwarding, the tap,
//! and the session-start reset.

use mavrelay::relay::{ground_read_step, session_start_chunk, vehicle_read_step, ReadEvent};

#[test]
fn vehicle_bytes_are_forwarded_and_tapped_verbatim() {
    let bytes = vec![0xFD, 0x01, 0x02, 0xFF, 0x00, 0x7A];
    let step = vehicle_read_step(&ReadEvent::Data(bytes.clone()));
    assert!(!step.fatal);
    assert_eq!(step.forward.unwrap(), bytes);
    let tap = step.tap.unwrap();
    assert_eq!(tap.data, bytes);
    assert!(!tap.is_reset);
}

#[test]
fn ground_bytes_are_forwarded_but_never_tapped() {
    let bytes = vec![1, 2, 3];
    let step = ground_read_step(&ReadEvent::Data(bytes.clone()));
    assert!(!step.fatal);
    assert_eq!(step.forward.unwrap(), bytes);
    assert!(step.tap.is_none());
}

#[test]
fn no_data_is_a_no_op() {
    let step = vehicle_read_step(&ReadEvent::NoData);
    assert!(!step.fatal);
    assert!(step.forward.is_none());
    assert!(step.tap.is_none());
}

#[test]
fn other_failures_end_the_session() {
    let step = vehicle_read_step(&ReadEvent::Failed);
    assert!(step.fatal);
    assert!(step.forward.is_none());
    assert!(step.tap.is_none());
}

#[test]
fn session_start_chunk_is_an_empty_reset() {
    let c = session_start_chunk();
    assert!(c.is_reset);
    assert!(c.data.is_empty());
}

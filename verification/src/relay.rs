//! Per-event decisions of the relay session. The session loop itself does
//! socket I/O and lives outside the library; it reports each non-blocking
//! read as a `ReadEvent` and performs exactly what the returned `RelayStep`
//! says: write `forward` verbatim to the opposite socket, hand `tap` to the
//! reassembler channel, and end the session when `fatal` is set.

use vstd::prelude::*;

use crate::chunk::RawChunk;

verus! {

/// Outcome of one non-blocking read on a socket.
#[derive(Debug)]
pub enum ReadEvent {
    /// Bytes arrived (possibly none, on a closed peer).
    Data(Vec<u8>),
    /// No data currently available; not an error.
    NoData,
    /// Any other I/O failure; fatal to the session.
    Failed,
}

/// What the relay does in response to one read event.
#[derive(Debug)]
pub struct RelayStep {
    /// Bytes to write, unaltered and whole, to the opposite socket.
    pub forward: Option<Vec<u8>>,
    /// Chunk to hand to the reassembler channel, if the tap applies.
    pub tap: Option<RawChunk>,
    /// Whether the session must end.
    pub fatal: bool,
}

/// The bytes a read event carried.
pub open spec fn spec_data_of(ev: ReadEvent) -> Seq<u8> {
    match ev {
        ReadEvent::Data(b) => b@,
        ReadEvent::NoData => Seq::<u8>::empty(),
        ReadEvent::Failed => Seq::<u8>::empty(),
    }
}

/// The bytes a step writes to the opposite socket.
pub open spec fn step_forward_bytes(s: RelayStep) -> Seq<u8> {
    match s.forward {
        Some(f) => f@,
        None => Seq::<u8>::empty(),
    }
}

/// The bytes a step hands to the reassembler channel.
pub open spec fn step_tap_bytes(s: RelayStep) -> Seq<u8> {
    match s.tap {
        Some(c) => c.data@,
        None => Seq::<u8>::empty(),
    }
}

/// The vehicle-side contract for one step: data is forwarded verbatim and
/// tapped verbatim (never as a reset); "no data" is a no-op; any other
/// failure is fatal and nothing is written.
pub open spec fn vehicle_step_ok(ev: ReadEvent, s: RelayStep) -> bool {
    match ev {
        ReadEvent::Data(b) => {
            &&& s.forward matches Some(f) && f@ == b@
            &&& s.tap matches Some(c) && c.data@ == b@ && !c.is_reset
            &&& !s.fatal
        },
        ReadEvent::NoData => s.forward is None && s.tap is None && !s.fatal,
        ReadEvent::Failed => s.forward is None && s.tap is None && s.fatal,
    }
}

/// The ground-side contract for one step: data is forwarded verbatim and
/// never tapped — telemetry is one-directional.
pub open spec fn ground_step_ok(ev: ReadEvent, s: RelayStep) -> bool {
    match ev {
        ReadEvent::Data(b) => {
            &&& s.forward matches Some(f) && f@ == b@
            &&& s.tap is None
            &&& !s.fatal
        },
        ReadEvent::NoData => s.forward is None && s.tap is None && !s.fatal,
        ReadEvent::Failed => s.forward is None && s.tap is None && s.fatal,
    }
}

/// All bytes the events produced, in order.
pub open spec fn source_bytes(evs: Seq<ReadEvent>) -> Seq<u8>
    decreases evs.len(),
{
    if evs.len() == 0 {
        Seq::<u8>::empty()
    } else {
        spec_data_of(evs[0]) + source_bytes(evs.skip(1))
    }
}

/// All bytes the steps forward, in order.
pub open spec fn forwarded_bytes(steps: Seq<RelayStep>) -> Seq<u8>
    decreases steps.len(),
{
    if steps.len() == 0 {
        Seq::<u8>::empty()
    } else {
        step_forward_bytes(steps[0]) + forwarded_bytes(steps.skip(1))
    }
}

/// All bytes the steps tap, in order.
pub open spec fn tapped_bytes(steps: Seq<RelayStep>) -> Seq<u8>
    decreases steps.len(),
{
    if steps.len() == 0 {
        Seq::<u8>::empty()
    } else {
        step_tap_bytes(steps[0]) + tapped_bytes(steps.skip(1))
    }
}

/// Copy of the bytes of `v`.
fn copy_bytes(v: &Vec<u8>) -> (r: Vec<u8>)
    ensures
        r@ == v@,
{
    let mut r: Vec<u8> = Vec::new();
    let mut i: usize = 0;
    while i < v.len()
        invariant
            i <= v.len(),
            r@ == v@.take(i as int),
        decreases v.len() - i,
    {
        r.push(v[i]);
        proof {
            assert(r@ =~= v@.take((i + 1) as int));
        }
        i = i + 1;
    }
    proof {
        assert(r@ =~= v@);
    }
    r
}

/// The chunk that opens a session generation: no data, reset set, so the
/// reassembler discards whatever a dead session left behind. The supervisor
/// sends one before any data of every fresh session.
pub fn session_start_chunk() -> (c: RawChunk)
    ensures
        c.data@ == Seq::<u8>::empty(),
        c.is_reset,
{
    RawChunk { data: Vec::new(), is_reset: true }
}

/// Decide the relay's response to one read on the vehicle socket.
pub fn vehicle_read_step(ev: &ReadEvent) -> (s: RelayStep)
    ensures
        vehicle_step_ok(*ev, s),
{
    match ev {
        ReadEvent::Data(b) => RelayStep {
            forward: Some(copy_bytes(b)),
            tap: Some(RawChunk { data: copy_bytes(b), is_reset: false }),
            fatal: false,
        },
        ReadEvent::NoData => RelayStep { forward: None, tap: None, fatal: false },
        ReadEvent::Failed => RelayStep { forward: None, tap: None, fatal: true },
    }
}

/// Decide the relay's response to one read on the ground-station socket.
pub fn ground_read_step(ev: &ReadEvent) -> (s: RelayStep)
    ensures
        ground_step_ok(*ev, s),
{
    match ev {
        ReadEvent::Data(b) => RelayStep {
            forward: Some(copy_bytes(b)),
            tap: None,
            fatal: false,
        },
        ReadEvent::NoData => RelayStep { forward: None, tap: None, fatal: false },
        ReadEvent::Failed => RelayStep { forward: None, tap: None, fatal: true },
    }
}

/// Relay transparency, vehicle to ground: however the session loop's reads
/// split the stream, any step sequence that meets the vehicle-side step
/// contract — as every `vehicle_read_step` result does — forwards to the
/// ground station exactly the bytes the vehicle produced, in order, and
/// taps exactly the same bytes for the reassembler. The tap can therefore
/// never alter what the ground station reads, nor the reverse.
pub proof fn lemma_relay_transparency(evs: Seq<ReadEvent>, steps: Seq<RelayStep>)
    requires
        steps.len() == evs.len(),
        forall|i: int| 0 <= i < evs.len() ==> vehicle_step_ok(evs[i], #[trigger] steps[i]),
    ensures
        forwarded_bytes(steps) == source_bytes(evs),
        tapped_bytes(steps) == source_bytes(evs),
    decreases evs.len(),
{
    if evs.len() > 0 {
        assert(vehicle_step_ok(evs[0], steps[0]));
        assert forall|i: int|
            0 <= i < evs.skip(1).len() implies vehicle_step_ok(
            evs.skip(1)[i],
            #[trigger] steps.skip(1)[i],
        ) by {
            assert(steps.skip(1)[i] == steps[i + 1]);
            assert(evs.skip(1)[i] == evs[i + 1]);
        }
        lemma_relay_transparency(evs.skip(1), steps.skip(1));
    }
}

/// Relay transparency, ground to vehicle: a step sequence meeting the
/// ground-side contract forwards to the vehicle exactly the bytes the
/// ground station wrote, and taps nothing at all.
pub proof fn lemma_ground_transparency(evs: Seq<ReadEvent>, steps: Seq<RelayStep>)
    requires
        steps.len() == evs.len(),
        forall|i: int| 0 <= i < evs.len() ==> ground_step_ok(evs[i], #[trigger] steps[i]),
    ensures
        forwarded_bytes(steps) == source_bytes(evs),
        tapped_bytes(steps) == Seq::<u8>::empty(),
    decreases evs.len(),
{
    if evs.len() > 0 {
        assert(ground_step_ok(evs[0], steps[0]));
        assert forall|i: int|
            0 <= i < evs.skip(1).len() implies ground_step_ok(
            evs.skip(1)[i],
            #[trigger] steps.skip(1)[i],
        ) by {
            assert(steps.skip(1)[i] == steps[i + 1]);
            assert(evs.skip(1)[i] == evs[i + 1]);
        }
        lemma_ground_transparency(evs.skip(1), steps.skip(1));
        assert(tapped_bytes(steps) =~= Seq::<u8>::empty());
    }
}

} // verus!

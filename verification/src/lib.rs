//! Telemetry relay library: reassembles a tapped MAVLink byte stream into
//! whole messages, extracts telemetry records from position and attitude
//! reports, and manages a subscriber pool that re-broadcasts encoded
//! records.
//!
//! The modules follow the data flow. `relay` decides, per read event, what
//! the duplex session forwards and taps; `chunk` is the unit the tap hands
//! on; `decode` names the upstream decode contract and wraps its one call;
//! `reassembler` turns chunks into whole messages and proves the stream is
//! reassembled completely and reset cleanly; `msg` parses the two message
//! kinds of interest; `telemetry` extracts and encodes broadcast records;
//! `pool` keeps the subscriber set and prunes it after each broadcast
//! pass; `wire` holds the little-endian primitives the rest build on.
//!
//! Sockets, threads and the supervising restart loops live outside the
//! library and perform exactly what these contracts say.

pub mod chunk;
pub mod decode;
pub mod msg;
pub mod pool;
pub mod reassembler;
pub mod relay;
pub mod telemetry;
pub mod wire;

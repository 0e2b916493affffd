//! The proxy as a whole: accepting, keeping the backend awake, shutting down.
use crate::packets::{build_status_handshake, status_request};
use crate::state::State;
use crate::varint::frame;
use vstd::prelude::*;

verus! {

/// Largest status answer that is read from the backend, in bytes. It may embed
/// an icon.
pub const MAX_STATUS_PACKET: i32 = 262144;

/// Seconds that the backend has to accept a status probe.
pub const PROBE_CONNECT_SECS: u64 = 3;

/// Seconds that the backend has to answer a status probe.
pub const PROBE_ANSWER_SECS: u64 = 5;

/// Seconds between two keepalive pings.
pub const KEEPALIVE_SECS: u64 = 60;

/// Seconds for which sessions are served after a request to stop.
pub const DRAIN_SECS: u64 = 25;

/// Milliseconds between two looks at the sessions that are left.
pub const DRAIN_POLL_MS: u64 = 500;

/// Milliseconds to wait after a failed accept.
pub const ACCEPT_BACKOFF_MS: u64 = 100;

/// What the listener reports.
#[derive(Clone, Copy, Debug, PartialEq, Eq, Structural)]
pub enum AcceptEvent {
    /// A client connected; `room` says whether the connection limit allows it.
    Accepted { room: bool },
    /// Accepting failed, for a reason that may pass.
    Failed,
    /// The proxy is to stop.
    Stop,
}

/// What to do about it.
#[derive(Clone, Copy, Debug, PartialEq, Eq, Structural)]
pub enum AcceptAction {
    /// Serve the client.
    Serve,
    /// Drop the client, to spare the others.
    Shed,
    /// Wait, then go on accepting.
    BackOff { ms: u64 },
    /// Stop accepting and drain.
    Drain,
}

/// What to do about a report of the listener.
pub open spec fn accept_next(event: AcceptEvent) -> AcceptAction {
    match event {
        AcceptEvent::Accepted { room } => if room {
            AcceptAction::Serve
        } else {
            AcceptAction::Shed
        },
        AcceptEvent::Failed => AcceptAction::BackOff { ms: ACCEPT_BACKOFF_MS },
        AcceptEvent::Stop => AcceptAction::Drain,
    }
}

/// Decides what to do about a report of the listener.
pub fn accept_step(event: AcceptEvent) -> (action: AcceptAction)
    ensures
        action == accept_next(event),
{
    match event {
        AcceptEvent::Accepted { room } => if room {
            AcceptAction::Serve
        } else {
            AcceptAction::Shed
        },
        AcceptEvent::Failed => AcceptAction::BackOff { ms: ACCEPT_BACKOFF_MS },
        AcceptEvent::Stop => AcceptAction::Drain,
    }
}

/// What to do while draining.
#[derive(Clone, Copy, Debug, PartialEq, Eq, Structural)]
pub enum DrainAction {
    /// Wait, then look again.
    Wait { ms: u64 },
    /// Exit, with this many sessions left.
    Exit { left: usize },
}

/// What to do `elapsed` whole seconds into draining, with `active` players left.
pub open spec fn drain_next(active: usize, elapsed: u64) -> DrainAction {
    if active > 0 && elapsed < DRAIN_SECS {
        DrainAction::Wait { ms: DRAIN_POLL_MS }
    } else {
        DrainAction::Exit { left: active }
    }
}

/// Decides whether to go on draining, `elapsed` whole seconds into it.
pub fn drain_step(state: &State, elapsed: u64) -> (action: DrainAction)
    ensures
        action == drain_next(state.active, elapsed),
{
    if state.active > 0 && elapsed < DRAIN_SECS {
        DrainAction::Wait { ms: DRAIN_POLL_MS }
    } else {
        DrainAction::Exit { left: state.active }
    }
}

/// The handshake with which to ping the backend, if it has to be kept awake: a
/// bare connection is no activity to a container host, a handshake is.
pub fn keepalive_handshake(state: &State, address: &str) -> (handshake: Option<Vec<u8>>)
    ensures
        match handshake {
            Some(body) => state.active > 0 && body@ == ({
                let (host, port) = crate::packets::address_parts(address@);
                crate::packets::handshake_body(
                    state.last_protocol,
                    vstd::utf8::encode_utf8(host),
                    port,
                    1,
                )
            }),
            None => state.active == 0,
        },
{
    if state.active > 0 {
        Some(build_status_handshake(address, state.last_protocol))
    } else {
        None
    }
}

/// What to send to the backend to learn its status: a handshake for the status
/// and a Status Request.
pub fn probe_request(handshake: &[u8]) -> (bytes: Vec<u8>)
    ensures
        bytes@ == crate::varint::framed(handshake@) + crate::varint::framed(seq![0u8]),
{
    let mut bytes: Vec<u8> = frame(handshake);
    let request = status_request();
    bytes.extend_from_slice(request.as_slice());
    bytes
}

/// Draining ends once everybody has left, and in any case when the time is up,
/// and not before.
pub proof fn law_drain_ends(active: usize, elapsed: u64)
    ensures
        drain_next(active, elapsed) is Exit <==> active == 0 || elapsed >= DRAIN_SECS,
        drain_next(active, elapsed) matches DrainAction::Exit { left } ==> left == active,
{
}

/// Only a request to stop ends accepting: neither a failed accept nor a full
/// house does.
pub proof fn law_only_stop_ends_accepting(event: AcceptEvent)
    ensures
        accept_next(event) is Drain <==> event is Stop,
{
}

/// A client is served if there is room and dropped if there is none; a failed
/// accept is followed by a pause of 100 ms, and only a stop by draining.
pub proof fn law_accepting(event: AcceptEvent, action: AcceptAction)
    requires
        call_ensures(accept_step, (event,), action),
    ensures
        action is Serve <==> event == (AcceptEvent::Accepted { room: true }),
        action is Shed <==> event == (AcceptEvent::Accepted { room: false }),
        action == (AcceptAction::BackOff { ms: 100 }) <==> event is Failed,
        action is Drain <==> event is Stop,
{
}

/// While players are left, draining waits for up to 25 seconds; then, or once
/// nobody is left, it exits and tells how many are.
pub proof fn law_draining(state: &State, elapsed: u64, action: DrainAction)
    requires
        call_ensures(drain_step, (state, elapsed), action),
    ensures
        state.active > 0 && elapsed < 25 ==> action == (DrainAction::Wait { ms: 500 }),
        state.active == 0 || elapsed >= 25 ==> action == (DrainAction::Exit { left: state.active }),
{
}

/// The backend is pinged exactly while players are on, with a handshake for its
/// status in the protocol that was seen last.
pub proof fn law_keepalive_is_a_status_handshake(
    state: &State,
    address: &str,
    handshake: Option<Vec<u8>>,
    built: Vec<u8>,
)
    requires
        call_ensures(keepalive_handshake, (state, address), handshake),
        call_ensures(build_status_handshake, (address, state.last_protocol), built),
    ensures
        handshake is Some <==> state.active > 0,
        handshake matches Some(body) ==> body@ == built@,
{
}

/// A probe is a handshake and a Status Request, each in a frame.
pub proof fn law_probe_is_two_packets(handshake: &[u8], bytes: Vec<u8>)
    requires
        call_ensures(probe_request, (handshake,), bytes),
        handshake@.len() <= i32::MAX,
    ensures
        ({
            &&& crate::varint::leading_varint(bytes@) matches Some((len, rest))
            &&& len == handshake@.len()
            &&& rest == handshake@ + seq![1u8, 0u8]
        }),
{
    let request = crate::varint::framed(seq![0u8]);
    crate::varint::law_frame_round_trip(handshake@, request);
    assert(crate::varint::varint_bytes(1) =~= seq![1u8]);
    assert(request =~= seq![1u8, 0u8]);
}

} // verus!

//! One client connection, from its first byte to its join.
//!
//! The connection is a machine: [`client_step`] takes what happened and says
//! what to do next.
use crate::motd::{Motd, plain_motd_text};
use crate::packets::{legacy_status, parse_handshake, parse_login_username, status_response};
use crate::state::{State, display_max};
use crate::status::{StatusReply, answer_status, answer_unprobed};
use crate::varint::frame;
use vstd::prelude::*;

verus! {

/// Largest packet that is read before a player is let through, in bytes. A Login
/// Start with signature data takes about 2 KB.
pub const MAX_PREPLAY_PACKET: i32 = 65536;

/// Seconds that a client has for each packet it owes.
pub const PACKET_SECS: u64 = 10;

/// Seconds that a client has to ask for its ping to be echoed.
pub const PING_SECS: u64 = 5;

/// First byte of a legacy (pre-1.7) server-list ping.
pub const LEGACY_PING: u8 = 0xFE;

/// What a handshake asks for next: the status.
pub const NEXT_STATUS: i32 = 1;

/// What a handshake asks for next: a login.
pub const NEXT_LOGIN: i32 = 2;

/// What a handshake asks for next: a login that another server sent here.
pub const NEXT_TRANSFER: i32 = 3;

/// Where a connection stands. `B` is what bytes are held in.
#[derive(Debug, PartialEq)]
pub enum ClientPhase<B> {
    /// Nothing has arrived.
    First,
    /// The handshake is arriving.
    Handshake,
    /// A status request is due.
    Request { protocol: i32, handshake: B },
    /// The backend is being asked for its status, to show with `online` players.
    Probe { protocol: i32, online: usize },
    /// The status is out and a ping may follow.
    Ping,
    /// A login is due.
    Login { protocol: i32, handshake: B },
    /// The player is joining or playing.
    Joined,
    /// The connection is over.
    Closed,
}

/// What happened on a connection. `S` is what text is held in.
#[derive(Debug, PartialEq)]
pub enum ClientEvent<B, S> {
    /// The first byte arrived.
    Byte(u8),
    /// A packet arrived; this is its body.
    Packet(B),
    /// What was due did not arrive in time.
    TimedOut,
    /// Reading failed, or a packet was refused.
    ReadFailed,
    /// Writing failed.
    WriteFailed,
    /// The backend answered with this status, or did not.
    Probed(Option<S>),
    /// The player's session is over.
    JoinEnded,
}

/// Why a connection failed.
#[derive(Clone, Copy, Debug, PartialEq, Eq, Structural)]
pub enum ClientError {
    Read,
    Write,
    MalformedHandshake,
    /// The handshake asks for neither the status nor a login nor a transfer.
    UnknownState,
}

/// What to do with a connection.
#[derive(Debug, PartialEq)]
pub enum ClientAction<B, S> {
    /// Read the packet whose first byte is already here.
    ReadRest { first: u8, secs: u64 },
    /// Read a packet.
    ReadPacket { secs: u64 },
    /// Ask the backend for its status with this handshake.
    Probe { handshake: B },
    /// Send a packet, then read one.
    SendThenRead { packet: B, secs: u64 },
    /// Send a packet and close. If `optional`, it does not matter whether that
    /// works.
    SendThenClose { packet: B, optional: bool },
    /// Let the player join.
    Join { protocol: i32, handshake: B, login_start: B, username: Option<S> },
    /// Close quietly.
    Close,
    /// Close and report why.
    Fail(ClientError),
    /// Give up on the connection: the backend's status cannot be shown.
    Abort,
}

impl View for ClientPhase<Vec<u8>> {
    type V = ClientPhase<Seq<u8>>;

    open spec fn view(&self) -> ClientPhase<Seq<u8>> {
        match self {
            ClientPhase::First => ClientPhase::First,
            ClientPhase::Handshake => ClientPhase::Handshake,
            ClientPhase::Request { protocol, handshake } => ClientPhase::Request {
                protocol: *protocol,
                handshake: handshake@,
            },
            ClientPhase::Probe { protocol, online } => ClientPhase::Probe {
                protocol: *protocol,
                online: *online,
            },
            ClientPhase::Ping => ClientPhase::Ping,
            ClientPhase::Login { protocol, handshake } => ClientPhase::Login {
                protocol: *protocol,
                handshake: handshake@,
            },
            ClientPhase::Joined => ClientPhase::Joined,
            ClientPhase::Closed => ClientPhase::Closed,
        }
    }
}

impl View for ClientEvent<Vec<u8>, String> {
    type V = ClientEvent<Seq<u8>, Seq<char>>;

    open spec fn view(&self) -> ClientEvent<Seq<u8>, Seq<char>> {
        match self {
            ClientEvent::Byte(byte) => ClientEvent::Byte(*byte),
            ClientEvent::Packet(body) => ClientEvent::Packet(body@),
            ClientEvent::TimedOut => ClientEvent::TimedOut,
            ClientEvent::ReadFailed => ClientEvent::ReadFailed,
            ClientEvent::WriteFailed => ClientEvent::WriteFailed,
            ClientEvent::Probed(status) => ClientEvent::Probed(crate::state::text_view(*status)),
            ClientEvent::JoinEnded => ClientEvent::JoinEnded,
        }
    }
}

impl View for ClientAction<Vec<u8>, String> {
    type V = ClientAction<Seq<u8>, Seq<char>>;

    open spec fn view(&self) -> ClientAction<Seq<u8>, Seq<char>> {
        match self {
            ClientAction::ReadRest { first, secs } => ClientAction::ReadRest {
                first: *first,
                secs: *secs,
            },
            ClientAction::ReadPacket { secs } => ClientAction::ReadPacket { secs: *secs },
            ClientAction::Probe { handshake } => ClientAction::Probe { handshake: handshake@ },
            ClientAction::SendThenRead { packet, secs } => ClientAction::SendThenRead {
                packet: packet@,
                secs: *secs,
            },
            ClientAction::SendThenClose { packet, optional } => ClientAction::SendThenClose {
                packet: packet@,
                optional: *optional,
            },
            ClientAction::Join { protocol, handshake, login_start, username } => ClientAction::Join {
                protocol: *protocol,
                handshake: handshake@,
                login_start: login_start@,
                username: crate::state::text_view(*username),
            },
            ClientAction::Close => ClientAction::Close,
            ClientAction::Fail(error) => ClientAction::Fail(*error),
            ClientAction::Abort => ClientAction::Abort,
        }
    }
}

/// Where a connection stands next, and what to do.
pub type ClientMove = (ClientPhase<Seq<u8>>, ClientAction<Seq<u8>, Seq<char>>);

/// The connection is closed without a word.
pub open spec fn closed() -> ClientMove {
    (ClientPhase::Closed, ClientAction::Close)
}

/// The connection fails.
pub open spec fn failed(error: ClientError) -> ClientMove {
    (ClientPhase::Closed, ClientAction::Fail(error))
}

/// A status request is answered with `reply`.
pub open spec fn replied(
    reply: StatusReply<Seq<char>>,
    protocol: i32,
    online: usize,
    handshake: Seq<u8>,
) -> ClientMove {
    match reply {
        StatusReply::Json(json) => (
            ClientPhase::Ping,
            ClientAction::SendThenRead {
                packet: crate::varint::framed(
                    crate::packets::string_packet(0, vstd::utf8::encode_utf8(json)),
                ),
                secs: PING_SECS,
            },
        ),
        StatusReply::Probe => (
            ClientPhase::Probe { protocol, online },
            ClientAction::Probe { handshake },
        ),
        StatusReply::Broken => (ClientPhase::Closed, ClientAction::Abort),
    }
}

/// The username in a Login Start packet.
pub open spec fn login_username(body: Seq<u8>) -> Option<Seq<char>> {
    match crate::packets::login_name(body) {
        Some(bytes) => Some(crate::packets::utf8_lossy(bytes)),
        None => None,
    }
}

/// What an event does to a connection.
pub open spec fn client_next(
    phase: ClientPhase<Seq<u8>>,
    event: ClientEvent<Seq<u8>, Seq<char>>,
    state: State,
    now: u64,
    motd: Motd,
    motd_online: Option<&Motd>,
) -> ClientMove {
    match (phase, event) {
        (ClientPhase::First, ClientEvent::Byte(byte)) => if byte == LEGACY_PING {
            (
                ClientPhase::Closed,
                ClientAction::SendThenClose {
                    packet: crate::packets::legacy_packet(
                        crate::packets::legacy_fields(
                            crate::motd::field_text(
                                crate::motd::component_text(crate::status::description(motd)),
                            ),
                            state.active as nat,
                            state.max_shown() as nat,
                        ),
                    ),
                    optional: true,
                },
            )
        } else {
            (
                ClientPhase::Handshake,
                ClientAction::ReadRest { first: byte, secs: PACKET_SECS },
            )
        },
        (ClientPhase::Handshake, ClientEvent::Packet(body)) => match crate::packets::handshake_fields(
            body,
        ) {
            None => failed(ClientError::MalformedHandshake),
            Some((protocol, next_state)) => if next_state == NEXT_STATUS {
                (
                    ClientPhase::Request { protocol, handshake: body },
                    ClientAction::ReadPacket { secs: PACKET_SECS },
                )
            } else if next_state == NEXT_LOGIN || next_state == NEXT_TRANSFER {
                (
                    ClientPhase::Login { protocol, handshake: body },
                    ClientAction::ReadPacket { secs: PACKET_SECS },
                )
            } else {
                failed(ClientError::UnknownState)
            },
        },
        (ClientPhase::Handshake, ClientEvent::ReadFailed) => failed(ClientError::Read),
        (ClientPhase::Request { protocol, handshake }, ClientEvent::Packet(body)) => if body.len()
            > 0 && body[0] == 1 {
            (
                ClientPhase::Closed,
                ClientAction::SendThenClose {
                    packet: crate::varint::framed(body),
                    optional: false,
                },
            )
        } else {
            replied(
                crate::status::status_reply(state, now, protocol, motd, motd_online),
                protocol,
                state.active,
                handshake,
            )
        },
        (ClientPhase::Request { protocol, handshake }, ClientEvent::ReadFailed) => failed(
            ClientError::Read,
        ),
        (ClientPhase::Probe { protocol, online }, ClientEvent::Probed(status)) => replied(
            crate::status::unprobed_reply(
                state,
                status,
                online as nat,
                protocol,
                motd,
                motd_online,
            ),
            protocol,
            online,
            Seq::empty(),
        ),
        (ClientPhase::Ping, ClientEvent::WriteFailed) => failed(ClientError::Write),
        (ClientPhase::Ping, ClientEvent::Packet(body)) => (
            ClientPhase::Closed,
            ClientAction::SendThenClose { packet: crate::varint::framed(body), optional: false },
        ),
        (ClientPhase::Login { protocol, handshake }, ClientEvent::Packet(body)) => (
            ClientPhase::Joined,
            ClientAction::Join {
                protocol,
                handshake,
                login_start: body,
                username: login_username(body),
            },
        ),
        _ => closed(),
    }
}

/// What an event does to the shared state.
pub open spec fn client_state(
    phase: ClientPhase<Seq<u8>>,
    event: ClientEvent<Vec<u8>, String>,
    state: State,
    now: u64,
) -> State {
    match (phase, event) {
        (ClientPhase::Handshake, ClientEvent::Packet(body)) => match crate::packets::handshake_fields(
            body@,
        ) {
            Some((protocol, _)) => State { last_protocol: protocol, ..state },
            None => state,
        },
        (ClientPhase::Probe { protocol, online }, ClientEvent::Probed(Some(status))) => State {
            cached_status: Some(status),
            ..state
        },
        (ClientPhase::Login { protocol, handshake }, ClientEvent::Packet(_)) => State {
            active: (state.active + 1) as usize,
            last_active: now,
            ..state
        },
        (ClientPhase::Joined, ClientEvent::JoinEnded) => State {
            active: (state.active - 1) as usize,
            last_active: now,
            ..state
        },
        _ => state,
    }
}

/// Makes a reply to a status request the next move.
fn reply_with(
    reply: StatusReply<String>,
    protocol: i32,
    online: usize,
    handshake: Vec<u8>,
) -> (next: (ClientPhase<Vec<u8>>, ClientAction<Vec<u8>, String>))
    ensures
        (next.0@, next.1@) == replied(reply@, protocol, online, handshake@),
{
    match reply {
        StatusReply::Json(json) => (
            ClientPhase::Ping,
            ClientAction::SendThenRead { packet: status_response(json.as_str()), secs: PING_SECS },
        ),
        StatusReply::Probe => (
            ClientPhase::Probe { protocol, online },
            ClientAction::Probe { handshake },
        ),
        StatusReply::Broken => (ClientPhase::Closed, ClientAction::Abort),
    }
}

/// Takes an event on a connection at Unix time `now` and says where it stands
/// next and what to do.
pub fn client_step(
    phase: ClientPhase<Vec<u8>>,
    event: ClientEvent<Vec<u8>, String>,
    state: &mut State,
    now: u64,
    motd: &Motd,
    motd_online: Option<&Motd>,
) -> (next: (ClientPhase<Vec<u8>>, ClientAction<Vec<u8>, String>))
    requires
        phase is Login && event is Packet ==> old(state).active < usize::MAX,
        phase is Joined && event is JoinEnded ==> old(state).active > 0,
    ensures
        *final(state) == client_state(phase@, event, *old(state), now),
        (next.0@, next.1@) == client_next(phase@, event@, *final(state), now, *motd, motd_online),
{
    match (phase, event) {
        (ClientPhase::First, ClientEvent::Byte(byte)) => {
            if byte == LEGACY_PING {
                let text = plain_motd_text(motd);
                let packet = legacy_status(text.as_str(), state.active, display_max(state));
                return (
                    ClientPhase::Closed,
                    ClientAction::SendThenClose { packet, optional: true },
                );
            }
            (ClientPhase::Handshake, ClientAction::ReadRest { first: byte, secs: PACKET_SECS })
        },
        (ClientPhase::Handshake, ClientEvent::Packet(body)) => {
            match parse_handshake(body.as_slice()) {
                None => (
                    ClientPhase::Closed,
                    ClientAction::Fail(ClientError::MalformedHandshake),
                ),
                Some((protocol, next_state)) => {
                    state.last_protocol = protocol;
                    if next_state == NEXT_STATUS {
                        (
                            ClientPhase::Request { protocol, handshake: body },
                            ClientAction::ReadPacket { secs: PACKET_SECS },
                        )
                    } else if next_state == NEXT_LOGIN || next_state == NEXT_TRANSFER {
                        (
                            ClientPhase::Login { protocol, handshake: body },
                            ClientAction::ReadPacket { secs: PACKET_SECS },
                        )
                    } else {
                        (ClientPhase::Closed, ClientAction::Fail(ClientError::UnknownState))
                    }
                },
            }
        },
        (ClientPhase::Handshake, ClientEvent::ReadFailed) => (
            ClientPhase::Closed,
            ClientAction::Fail(ClientError::Read),
        ),
        (ClientPhase::Request { protocol, handshake }, ClientEvent::Packet(body)) => {
            if body.len() > 0 && body[0] == 0x01 {
                return (
                    ClientPhase::Closed,
                    ClientAction::SendThenClose { packet: frame(body.as_slice()), optional: false },
                );
            }
            let reply = answer_status(state, now, protocol, motd, motd_online);
            reply_with(reply, protocol, state.active, handshake)
        },
        (ClientPhase::Request { protocol: _, handshake: _ }, ClientEvent::ReadFailed) => (
            ClientPhase::Closed,
            ClientAction::Fail(ClientError::Read),
        ),
        (ClientPhase::Probe { protocol, online }, ClientEvent::Probed(status)) => {
            if let Some(json) = &status {
                state.cache_status(json.clone());
            }
            let shown: Option<&str> = match &status {
                Some(json) => Some(json.as_str()),
                None => None,
            };
            let reply = answer_unprobed(state, shown, online, protocol, motd, motd_online);
            reply_with(reply, protocol, online, Vec::new())
        },
        (ClientPhase::Ping, ClientEvent::WriteFailed) => (
            ClientPhase::Closed,
            ClientAction::Fail(ClientError::Write),
        ),
        (ClientPhase::Ping, ClientEvent::Packet(body)) => (
            ClientPhase::Closed,
            ClientAction::SendThenClose { packet: frame(body.as_slice()), optional: false },
        ),
        (ClientPhase::Login { protocol, handshake }, ClientEvent::Packet(body)) => {
            let username = parse_login_username(body.as_slice());
            let _ = state.enter(now);
            (
                ClientPhase::Joined,
                ClientAction::Join { protocol, handshake, login_start: body, username },
            )
        },
        (ClientPhase::Joined, ClientEvent::JoinEnded) => {
            let _ = state.leave(now);
            (ClientPhase::Closed, ClientAction::Close)
        },
        _ => (ClientPhase::Closed, ClientAction::Close),
    }
}

/// A connection asks the backend for its status only while a player is online
/// and no status is cached; pings alone never reach it.
pub proof fn law_probe_needs_player(
    phase: ClientPhase<Seq<u8>>,
    event: ClientEvent<Seq<u8>, Seq<char>>,
    state: State,
    now: u64,
    motd: Motd,
    motd_online: Option<&Motd>,
)
    ensures
        client_next(phase, event, state, now, motd, motd_online).1 is Probe ==> state.active > 0
            && state.cached_status is None && phase is Request,
{
}

/// Only a login is let through to the backend, and it carries the handshake and
/// the login exactly as they arrived.
pub proof fn law_join_needs_login(
    phase: ClientPhase<Seq<u8>>,
    event: ClientEvent<Seq<u8>, Seq<char>>,
    state: State,
    now: u64,
    motd: Motd,
    motd_online: Option<&Motd>,
)
    ensures
        client_next(
            phase,
            event,
            state,
            now,
            motd,
            motd_online,
        ).1 matches ClientAction::Join { protocol, handshake, login_start, username } ==> phase
            == (ClientPhase::Login { protocol, handshake }) && event == ClientEvent::<
            Seq<u8>,
            Seq<char>,
        >::Packet(login_start),
{
}

/// A handshake that asks for the status is answered on the status path, and one
/// for a login or a transfer on the login path; both keep it as it arrived. Any
/// other ends the connection, and no handshake counts as a player.
pub proof fn law_handshake_routes(
    body: Vec<u8>,
    state: State,
    now: u64,
    motd: Motd,
    motd_online: Option<&Motd>,
)
    ensures
        crate::packets::handshake_fields(body@) matches Some((protocol, next_state)) ==> client_next(
            ClientPhase::Handshake,
            ClientEvent::Packet(body@),
            state,
            now,
            motd,
            motd_online,
        ) == (if next_state == NEXT_STATUS {
            (
                ClientPhase::Request { protocol, handshake: body@ },
                ClientAction::ReadPacket { secs: PACKET_SECS },
            )
        } else if next_state == NEXT_LOGIN || next_state == NEXT_TRANSFER {
            (
                ClientPhase::Login { protocol, handshake: body@ },
                ClientAction::ReadPacket { secs: PACKET_SECS },
            )
        } else {
            failed(ClientError::UnknownState)
        }),
        ({
            let after = client_state(
                ClientPhase::Handshake,
                ClientEvent::Packet(body),
                state,
                now,
            );
            after == (State { last_protocol: after.last_protocol, ..state })
        }),
{
}

/// A connection comes to wait for a login only by a handshake for a login or a
/// transfer.
pub proof fn law_login_needs_its_handshake(
    phase: ClientPhase<Seq<u8>>,
    event: ClientEvent<Seq<u8>, Seq<char>>,
    state: State,
    now: u64,
    motd: Motd,
    motd_online: Option<&Motd>,
)
    ensures
        client_next(
            phase,
            event,
            state,
            now,
            motd,
            motd_online,
        ).0 matches ClientPhase::Login { protocol, handshake } ==> phase is Handshake && (
        crate::packets::handshake_fields(handshake) == Some((protocol, NEXT_LOGIN))
            || crate::packets::handshake_fields(handshake) == Some((protocol, NEXT_TRANSFER))),
{
}

/// The player count only moves when a login arrives, by one up, and when a
/// session ends, by one down.
pub proof fn law_only_players_count(
    phase: ClientPhase<Seq<u8>>,
    event: ClientEvent<Vec<u8>, String>,
    state: State,
    now: u64,
)
    requires
        phase is Login && event is Packet ==> state.active < usize::MAX,
        phase is Joined && event is JoinEnded ==> state.active > 0,
    ensures
        client_state(phase, event, state, now).active == state.active + (if phase is Login
            && event is Packet {
            1int
        } else if phase is Joined && event is JoinEnded {
            -1
        } else {
            0
        }),
{
}

/// A player who joins and leaves again leaves the count as it was, and the idle
/// time starts when they leave.
pub proof fn law_count_balances(
    phase: ClientPhase<Seq<u8>>,
    login: Vec<u8>,
    state: State,
    joined: u64,
    left: u64,
)
    requires
        phase is Login,
        state.active < usize::MAX,
    ensures
        ({
            let during = client_state(phase, ClientEvent::Packet(login), state, joined);
            let after = client_state(ClientPhase::Joined, ClientEvent::JoinEnded, during, left);
            &&& during.active == state.active + 1
            &&& after == (State { last_active: left, ..state })
        }),
{
}

/// A closed connection stays closed and touches nothing.
pub proof fn law_closed_is_final(
    event: ClientEvent<Vec<u8>, String>,
    state: State,
    now: u64,
    motd: Motd,
    motd_online: Option<&Motd>,
)
    ensures
        client_next(ClientPhase::Closed, event@, state, now, motd, motd_online) == closed(),
        client_state(ClientPhase::Closed, event, state, now) == state,
{
}

/// Every login joins: it is let through with its own protocol, handshake and
/// bytes and under the name in it, and it counts as one player from now on.
pub proof fn law_every_login_joins(
    protocol: i32,
    handshake: Vec<u8>,
    login: Vec<u8>,
    state: &mut State,
    now: u64,
    motd: &Motd,
    motd_online: Option<&Motd>,
    next: (ClientPhase<Vec<u8>>, ClientAction<Vec<u8>, String>),
)
    requires
        call_ensures(
            client_step,
            (
                ClientPhase::Login { protocol, handshake },
                ClientEvent::Packet(login),
                state,
                now,
                motd,
                motd_online,
            ),
            next,
        ),
        old(state).active < usize::MAX,
    ensures
        next.0 is Joined,
        ({
            &&& next.1 matches ClientAction::Join {
                protocol: version,
                handshake: first,
                login_start,
                username,
            }
            &&& version == protocol
            &&& first@ == handshake@
            &&& login_start@ == login@
            &&& username is Some <==> crate::packets::login_name(login@) is Some
            &&& username matches Some(name) ==> name@ == crate::packets::utf8_lossy(
                crate::packets::login_name(login@)->0,
            )
        }),
        *final(state) == (State {
            active: (old(state).active + 1) as usize,
            last_active: now,
            ..*old(state)
        }),
{
}

/// A player whose session is over is taken off the count, and the idle time
/// starts now.
pub proof fn law_every_end_is_counted(
    state: &mut State,
    now: u64,
    motd: &Motd,
    motd_online: Option<&Motd>,
    next: (ClientPhase<Vec<u8>>, ClientAction<Vec<u8>, String>),
)
    requires
        call_ensures(
            client_step,
            (ClientPhase::Joined, ClientEvent::JoinEnded, state, now, motd, motd_online),
            next,
        ),
        old(state).active > 0,
    ensures
        next.0 is Closed && next.1 is Close,
        *final(state) == (State {
            active: (old(state).active - 1) as usize,
            last_active: now,
            ..*old(state)
        }),
{
}

/// A handshake leads to where it asks to: 1 to a status request, 2 and 3 to a
/// login, each with the handshake as it arrived; anything else fails. Its
/// protocol is remembered and nothing else changes.
pub proof fn law_handshakes_lead_where_they_ask(
    body: Vec<u8>,
    state: &mut State,
    now: u64,
    motd: &Motd,
    motd_online: Option<&Motd>,
    next: (ClientPhase<Vec<u8>>, ClientAction<Vec<u8>, String>),
)
    requires
        call_ensures(
            client_step,
            (ClientPhase::Handshake, ClientEvent::Packet(body), state, now, motd, motd_online),
            next,
        ),
    ensures
        crate::packets::handshake_fields(body@) matches Some((protocol, next_state)) ==> {
            &&& *final(state) == (State { last_protocol: protocol, ..*old(state) })
            &&& next_state == 1 ==> {
                &&& next.0 matches ClientPhase::Request { protocol: version, handshake }
                &&& version == protocol
                &&& handshake@ == body@
                &&& next.1 == (ClientAction::<Vec<u8>, String>::ReadPacket { secs: 10 })
            }
            &&& next_state == 2 || next_state == 3 ==> {
                &&& next.0 matches ClientPhase::Login { protocol: version, handshake }
                &&& version == protocol
                &&& handshake@ == body@
                &&& next.1 == (ClientAction::<Vec<u8>, String>::ReadPacket { secs: 10 })
            }
            &&& next_state != 1 && next_state != 2 && next_state != 3 ==> next.0 is Closed && next.1
                == ClientAction::<Vec<u8>, String>::Fail(ClientError::UnknownState)
        },
        crate::packets::handshake_fields(body@) is None ==> next.0 is Closed && next.1
            == ClientAction::<Vec<u8>, String>::Fail(ClientError::MalformedHandshake)
            && *final(state) == *old(state),
{
}

/// The first byte tells a legacy ping, which is answered with the MOTD as plain
/// text, the number of players and the slot cap; any other starts a handshake.
pub proof fn law_first_byte_tells_legacy_pings(
    byte: u8,
    state: &mut State,
    now: u64,
    motd: &Motd,
    motd_online: Option<&Motd>,
    next: (ClientPhase<Vec<u8>>, ClientAction<Vec<u8>, String>),
)
    requires
        call_ensures(
            client_step,
            (ClientPhase::First, ClientEvent::Byte(byte), state, now, motd, motd_online),
            next,
        ),
    ensures
        *final(state) == *old(state),
        byte != 0xFE ==> next.0 is Handshake && next.1 == (ClientAction::<
            Vec<u8>,
            String,
        >::ReadRest { first: byte, secs: 10 }),
        byte == 0xFE ==> {
            &&& next.0 is Closed
            &&& next.1 matches ClientAction::SendThenClose { packet, optional }
            &&& optional
            &&& packet@ == crate::packets::legacy_packet(
                crate::packets::legacy_fields(
                    crate::motd::field_text(
                        crate::motd::component_text(
                            crate::motd::motd_tree(motd.text(), motd.shades()),
                        ),
                    ),
                    old(state).active as nat,
                    old(state).max_shown() as nat,
                ),
            )
        },
{
}

/// A ping is sent back as it came, whether it follows the status or comes in its
/// place.
pub proof fn law_pings_are_echoed(
    phase: ClientPhase<Vec<u8>>,
    body: Vec<u8>,
    state: &mut State,
    now: u64,
    motd: &Motd,
    motd_online: Option<&Motd>,
    next: (ClientPhase<Vec<u8>>, ClientAction<Vec<u8>, String>),
)
    requires
        call_ensures(
            client_step,
            (phase, ClientEvent::Packet(body), state, now, motd, motd_online),
            next,
        ),
        phase is Ping || (phase is Request && body@.len() > 0 && body@[0] == 1),
    ensures
        next.0 is Closed,
        next.1 matches ClientAction::SendThenClose { packet, optional } && !optional && packet@
            == crate::varint::framed(body@),
        *final(state) == *old(state),
{
}

/// Any other request is answered as the state asks for: with a status that is
/// sent whole, by asking the backend with the client's own handshake, or, if the
/// cached status cannot be shown, not at all.
pub proof fn law_status_requests_are_answered(
    protocol: i32,
    handshake: Vec<u8>,
    body: Vec<u8>,
    state: &mut State,
    now: u64,
    motd: &Motd,
    motd_online: Option<&Motd>,
    next: (ClientPhase<Vec<u8>>, ClientAction<Vec<u8>, String>),
    reply: StatusReply<String>,
)
    requires
        call_ensures(
            client_step,
            (
                ClientPhase::Request { protocol, handshake },
                ClientEvent::Packet(body),
                state,
                now,
                motd,
                motd_online,
            ),
            next,
        ),
        call_ensures(answer_status, (&*old(state), now, protocol, motd, motd_online), reply),
        body@.len() == 0 || body@[0] != 1,
    ensures
        *final(state) == *old(state),
        reply matches StatusReply::Json(json) ==> {
            &&& next.0 is Ping
            &&& next.1 matches ClientAction::SendThenRead { packet, secs }
            &&& secs == 5
            &&& packet@ == crate::varint::framed(
                seq![0u8] + crate::varint::framed(vstd::utf8::encode_utf8(json@)),
            )
        },
        reply is Probe ==> {
            &&& next.0 == (ClientPhase::<Vec<u8>>::Probe { protocol, online: old(state).active })
            &&& next.1 matches ClientAction::Probe { handshake: sent }
            &&& sent@ == handshake@
        },
        reply is Broken ==> next.0 is Closed && next.1 is Abort,
{
}

/// What the backend answered is remembered and shown; without an answer what is
/// configured is shown, and nothing is remembered.
pub proof fn law_probe_results_are_shown(
    protocol: i32,
    online: usize,
    status: Option<String>,
    state: &mut State,
    now: u64,
    motd: &Motd,
    motd_online: Option<&Motd>,
    next: (ClientPhase<Vec<u8>>, ClientAction<Vec<u8>, String>),
)
    requires
        call_ensures(
            client_step,
            (
                ClientPhase::Probe { protocol, online },
                ClientEvent::Probed(status),
                state,
                now,
                motd,
                motd_online,
            ),
            next,
        ),
    ensures
        status is None ==> *final(state) == *old(state),
        status is Some ==> *final(state) == (State { cached_status: status, ..*old(state) }),
        ({
            let shown = crate::status::unprobed_reply(
                *final(state),
                crate::state::text_view(status),
                online as nat,
                protocol,
                *motd,
                motd_online,
            );
            &&& shown matches StatusReply::Json(json) ==> {
                &&& next.0 is Ping
                &&& next.1 matches ClientAction::SendThenRead { packet, secs }
                &&& secs == 5
                &&& packet@ == crate::varint::framed(
                    seq![0u8] + crate::varint::framed(vstd::utf8::encode_utf8(json)),
                )
            }
            &&& shown is Broken ==> next.0 is Closed && next.1 is Abort
            &&& !(shown is Probe)
        }),
{
}

/// Silence closes a connection without a word, and a failure to read or write is
/// reported where a packet was owed by the protocol; none of it changes the
/// state.
pub proof fn law_silence_and_failures(
    phase: ClientPhase<Vec<u8>>,
    event: ClientEvent<Vec<u8>, String>,
    state: &mut State,
    now: u64,
    motd: &Motd,
    motd_online: Option<&Motd>,
    next: (ClientPhase<Vec<u8>>, ClientAction<Vec<u8>, String>),
)
    requires
        call_ensures(client_step, (phase, event, state, now, motd, motd_online), next),
        event is TimedOut || event is ReadFailed || event is WriteFailed,
    ensures
        *final(state) == *old(state),
        next.0 is Closed,
        event is TimedOut ==> next.1 is Close,
        event is ReadFailed && (phase is Handshake || phase is Request) ==> next.1
            == ClientAction::<Vec<u8>, String>::Fail(ClientError::Read),
        event is ReadFailed && !(phase is Handshake || phase is Request) ==> next.1 is Close,
        event is WriteFailed && phase is Ping ==> next.1 == ClientAction::<Vec<u8>, String>::Fail(
            ClientError::Write,
        ),
{
}

/// No step of a connection touches the configuration, the list of sessions or
/// the boot of the backend; the count and the time of the last activity change
/// by joins alone, the protocol by handshakes and the cached status by the
/// backend's answers.
pub proof fn law_connections_touch_little(
    phase: ClientPhase<Vec<u8>>,
    event: ClientEvent<Vec<u8>, String>,
    state: &mut State,
    now: u64,
    motd: &Motd,
    motd_online: Option<&Motd>,
    next: (ClientPhase<Vec<u8>>, ClientAction<Vec<u8>, String>),
)
    requires
        call_ensures(client_step, (phase, event, state, now, motd, motd_online), next),
        phase is Login && event is Packet ==> old(state).active < usize::MAX,
        phase is Joined && event is JoinEnded ==> old(state).active > 0,
    ensures
        *final(state) == (State {
            active: final(state).active,
            last_active: final(state).last_active,
            last_protocol: final(state).last_protocol,
            cached_status: final(state).cached_status,
            ..*old(state)
        }),
        !(phase is Login && event is Packet) && !(phase is Joined && event is JoinEnded)
            ==> final(state).active == old(state).active && final(state).last_active == old(
            state,
        ).last_active,
        !(phase is Handshake && event is Packet) ==> final(state).last_protocol == old(
            state,
        ).last_protocol,
        !(phase is Probe && event is Probed) ==> final(state).cached_status == old(
            state,
        ).cached_status,
{
}

} // verus!

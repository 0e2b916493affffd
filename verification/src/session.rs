//! A proxied session, from the backend's acceptance to the last byte.
use crate::packets::build_status_handshake;
use crate::sessions::{session_of, without_session};
use crate::state::State;
use crate::varint::frame;
use vstd::prelude::*;

verus! {

/// Milliseconds that a reconnect waits after the player's previous session was
/// closed, so that the server registers that before the new login lands.
pub const SESSION_HANDOFF_MS: u64 = 750;

/// Milliseconds for which leftover bytes are drained when a session ends. A
/// socket dropped with unread bytes resets the connection and discards what is
/// still on its way.
pub const DRAIN_LEFTOVERS_MS: u64 = 500;

/// Where a session stands.
#[derive(Clone, Copy, Debug, PartialEq, Eq, Structural)]
pub enum SessionPhase {
    /// The backend has accepted the connection.
    Fresh,
    /// The backend's status has been asked for on the side.
    Seeded,
    /// The player's previous session is being closed.
    HandingOff,
    /// The handshake and the login are being sent.
    Greeting,
    /// Both directions are being copied.
    Piping,
    /// Both sides are shut down and drained.
    Draining,
    /// The session is over.
    Over,
}

/// Which side ended a session.
#[derive(Clone, Copy, Debug, PartialEq, Eq, Structural)]
pub enum SessionEnd {
    Client,
    Backend,
    /// A newer session of the same player.
    Superseded,
}

/// What happened in a session.
#[derive(Clone, Copy, Debug, PartialEq, Eq, Structural)]
pub enum SessionEvent {
    /// What was to be done is done.
    Done,
    /// Writing to the backend failed.
    WriteFailed,
    /// One side ended, or the session was superseded.
    Ended(SessionEnd),
}

/// What to do in a session.
#[derive(Debug, PartialEq)]
pub enum SessionAction<B> {
    /// Ask the backend for its status on the side, with this handshake.
    SeedStatus { handshake: B },
    /// Close session `previous` and wait.
    Supersede { previous: u64, wait_ms: u64 },
    /// Send these bytes to the backend.
    Greet { bytes: B },
    /// Copy both directions until one ends or this session is superseded.
    Pipe,
    /// Shut both sides down and drain them for up to `drain_ms`.
    TearDown { drain_ms: u64 },
    /// Nothing more.
    Finish,
    /// Drop the connection and report the failure.
    Fail,
}

impl View for SessionAction<Vec<u8>> {
    type V = SessionAction<Seq<u8>>;

    open spec fn view(&self) -> SessionAction<Seq<u8>> {
        match self {
            SessionAction::SeedStatus { handshake } => SessionAction::SeedStatus {
                handshake: handshake@,
            },
            SessionAction::Supersede { previous, wait_ms } => SessionAction::Supersede {
                previous: *previous,
                wait_ms: *wait_ms,
            },
            SessionAction::Greet { bytes } => SessionAction::Greet { bytes: bytes@ },
            SessionAction::Pipe => SessionAction::Pipe,
            SessionAction::TearDown { drain_ms } => SessionAction::TearDown {
                drain_ms: *drain_ms,
            },
            SessionAction::Finish => SessionAction::Finish,
            SessionAction::Fail => SessionAction::Fail,
        }
    }
}

/// What a session is about.
#[derive(Debug)]
pub struct Session {
    /// The number the session goes by.
    pub id: u64,
    /// The player, if the login named one.
    pub username: Option<String>,
    /// The client's handshake.
    pub handshake: Vec<u8>,
    /// The client's Login Start.
    pub login_start: Vec<u8>,
}

/// What the backend has to see first: the packets that were read from the client
/// on its behalf.
pub open spec fn greeting(session: Session) -> Seq<u8> {
    crate::varint::framed(session.handshake@) + crate::varint::framed(session.login_start@)
}

/// The session that a new one of the same player replaces.
pub open spec fn replaced(session: Session, sessions: Map<Seq<char>, u64>) -> Option<u64> {
    match session.username {
        Some(name) => session_of(sessions, name@),
        None => None,
    }
}

/// The move after a session has been put on the list.
pub open spec fn opened(session: Session, sessions: Map<Seq<char>, u64>) -> (
    SessionPhase,
    SessionAction<Seq<u8>>,
) {
    match replaced(session, sessions) {
        Some(previous) => (
            SessionPhase::HandingOff,
            SessionAction::Supersede { previous, wait_ms: SESSION_HANDOFF_MS },
        ),
        None => (SessionPhase::Greeting, SessionAction::Greet { bytes: greeting(session) }),
    }
}

/// Whether an event puts the session on the list of live sessions.
pub open spec fn registers(phase: SessionPhase, event: SessionEvent, state: State) -> bool {
    event is Done && (phase is Seeded || (phase is Fresh && state.cached_status is Some))
}

/// Whether an event ends the session, as planned or not.
pub open spec fn ends(phase: SessionPhase, event: SessionEvent) -> bool {
    match (phase, event) {
        (SessionPhase::Fresh, SessionEvent::Done) => false,
        (SessionPhase::Seeded, SessionEvent::Done) => false,
        (SessionPhase::HandingOff, SessionEvent::Done) => false,
        (SessionPhase::Greeting, SessionEvent::Done) => false,
        (SessionPhase::Piping, SessionEvent::Ended(_)) => false,
        _ => true,
    }
}

/// What an event does to a session.
pub open spec fn session_next(
    phase: SessionPhase,
    event: SessionEvent,
    session: Session,
    state: State,
    address: Seq<char>,
) -> (SessionPhase, SessionAction<Seq<u8>>) {
    match (phase, event) {
        (SessionPhase::Fresh, SessionEvent::Done) => if state.cached_status is None {
            let (host, port) = crate::packets::address_parts(address);
            (
                SessionPhase::Seeded,
                SessionAction::SeedStatus {
                    handshake: crate::packets::handshake_body(
                        state.last_protocol,
                        vstd::utf8::encode_utf8(host),
                        port,
                        1,
                    ),
                },
            )
        } else {
            opened(session, state.sessions@)
        },
        (SessionPhase::Seeded, SessionEvent::Done) => opened(session, state.sessions@),
        (SessionPhase::HandingOff, SessionEvent::Done) => (
            SessionPhase::Greeting,
            SessionAction::Greet { bytes: greeting(session) },
        ),
        (SessionPhase::Greeting, SessionEvent::Done) => (
            SessionPhase::Piping,
            SessionAction::Pipe,
        ),
        (SessionPhase::Piping, SessionEvent::Ended(_)) => (
            SessionPhase::Draining,
            SessionAction::TearDown { drain_ms: DRAIN_LEFTOVERS_MS },
        ),
        (SessionPhase::Draining, SessionEvent::Done) => (
            SessionPhase::Over,
            SessionAction::Finish,
        ),
        _ => (SessionPhase::Over, SessionAction::Fail),
    }
}

/// What an event does to the list of live sessions: the session is put on it
/// before its first byte reaches the backend, and taken off when it ends, after
/// it has been drained or because it failed.
pub open spec fn sessions_next(
    phase: SessionPhase,
    event: SessionEvent,
    session: Session,
    state: State,
) -> Map<Seq<char>, u64> {
    match session.username {
        Some(name) => if registers(phase, event, state) {
            state.sessions@.insert(name@, session.id)
        } else if ends(phase, event) {
            without_session(state.sessions@, name@, session.id)
        } else {
            state.sessions@
        },
        None => state.sessions@,
    }
}

/// The bytes of the packets that were read from the client.
pub fn greet(session: &Session) -> (bytes: Vec<u8>)
    ensures
        bytes@ == greeting(*session),
{
    let mut bytes: Vec<u8> = frame(session.handshake.as_slice());
    let login = frame(session.login_start.as_slice());
    bytes.extend_from_slice(login.as_slice());
    bytes
}

/// Puts a session on the list of live sessions.
fn open_session(session: &Session, state: &mut State) -> (next: (
    SessionPhase,
    SessionAction<Vec<u8>>,
))
    ensures
        (next.0, next.1@) == opened(*session, old(state).sessions@),
        final(state).sessions@ == (match session.username {
            Some(name) => old(state).sessions@.insert(name@, session.id),
            None => old(state).sessions@,
        }),
        *final(state) == (State { sessions: final(state).sessions, ..*old(state) }),
{
    let previous: Option<u64> = match &session.username {
        Some(name) => state.sessions.register(name.as_str(), session.id),
        None => None,
    };
    match previous {
        Some(previous) => (
            SessionPhase::HandingOff,
            SessionAction::Supersede { previous, wait_ms: SESSION_HANDOFF_MS },
        ),
        None => (SessionPhase::Greeting, SessionAction::Greet { bytes: greet(session) }),
    }
}

/// Takes a session that has ended off the list of live sessions.
fn close_session(session: &Session, state: &mut State)
    ensures
        final(state).sessions@ == (match session.username {
            Some(name) => without_session(old(state).sessions@, name@, session.id),
            None => old(state).sessions@,
        }),
        *final(state) == (State { sessions: final(state).sessions, ..*old(state) }),
{
    if let Some(name) = &session.username {
        state.sessions.deregister(name.as_str(), session.id);
    }
}

/// Takes an event of a session and says where it stands next and what to do.
/// `address` is the backend's.
pub fn session_step(
    phase: SessionPhase,
    event: SessionEvent,
    session: &Session,
    state: &mut State,
    address: &str,
) -> (next: (SessionPhase, SessionAction<Vec<u8>>))
    ensures
        (next.0, next.1@) == session_next(phase, event, *session, *old(state), address@),
        final(state).sessions@ == sessions_next(phase, event, *session, *old(state)),
        *final(state) == (State { sessions: final(state).sessions, ..*old(state) }),
{
    match (phase, event) {
        (SessionPhase::Fresh, SessionEvent::Done) => {
            if state.cached_status.is_none() {
                (
                    SessionPhase::Seeded,
                    SessionAction::SeedStatus {
                        handshake: build_status_handshake(address, state.last_protocol),
                    },
                )
            } else {
                open_session(session, state)
            }
        },
        (SessionPhase::Seeded, SessionEvent::Done) => open_session(session, state),
        (SessionPhase::HandingOff, SessionEvent::Done) => (
            SessionPhase::Greeting,
            SessionAction::Greet { bytes: greet(session) },
        ),
        (SessionPhase::Greeting, SessionEvent::Done) => (
            SessionPhase::Piping,
            SessionAction::Pipe,
        ),
        (SessionPhase::Piping, SessionEvent::Ended(_)) => (
            SessionPhase::Draining,
            SessionAction::TearDown { drain_ms: DRAIN_LEFTOVERS_MS },
        ),
        (SessionPhase::Draining, SessionEvent::Done) => {
            close_session(session, state);
            (SessionPhase::Over, SessionAction::Finish)
        },
        _ => {
            close_session(session, state);
            (SessionPhase::Over, SessionAction::Fail)
        },
    }
}

/// Whichever side ends a session, both are shut down and drained, and only then
/// is it taken off the list.
pub proof fn law_both_sides_torn_down(
    end: SessionEnd,
    session: Session,
    state: State,
    address: Seq<char>,
)
    ensures
        session_next(
            SessionPhase::Piping,
            SessionEvent::Ended(end),
            session,
            state,
            address,
        ).1 == (SessionAction::<Seq<u8>>::TearDown { drain_ms: DRAIN_LEFTOVERS_MS }),
        sessions_next(SessionPhase::Piping, SessionEvent::Ended(end), session, state)
            == state.sessions@,
{
}

/// A reconnect closes the player's previous session before any byte of the new
/// login reaches the backend, and after that the player's only session is the
/// new one.
pub proof fn law_reconnect_closes_previous(
    phase: SessionPhase,
    event: SessionEvent,
    session: Session,
    state: State,
    address: Seq<char>,
    previous: u64,
)
    requires
        registers(phase, event, state),
        replaced(session, state.sessions@) == Some(previous),
    ensures
        session_next(phase, event, session, state, address).1 == (SessionAction::<
            Seq<u8>,
        >::Supersede { previous, wait_ms: SESSION_HANDOFF_MS }),
        session.username matches Some(name) && session_of(
            sessions_next(phase, event, session, state),
            name@,
        ) == Some(session.id),
{
}

/// The list holds live sessions only: a session that is over, drained or failed,
/// is not on it.
pub proof fn law_ended_session_is_not_listed(
    phase: SessionPhase,
    event: SessionEvent,
    session: Session,
    state: State,
    address: Seq<char>,
    name: Seq<char>,
)
    requires
        session_next(phase, event, session, state, address).0 is Over,
        session.username matches Some(player) && player@ == name,
    ensures
        session_of(sessions_next(phase, event, session, state), name) != Some(session.id),
        session_of(state.sessions@, name) == Some(session.id) ==> session_of(
            sessions_next(phase, event, session, state),
            name,
        ) is None,
{
}

/// The end of a superseded session, drained or failed, leaves the player's newer
/// session alone.
pub proof fn law_superseded_end_keeps_newer(
    phase: SessionPhase,
    event: SessionEvent,
    session: Session,
    state: State,
    newer: u64,
)
    requires
        ends(phase, event),
        newer != session.id,
        replaced(session, state.sessions@) == Some(newer),
    ensures
        sessions_next(phase, event, session, state) == state.sessions@,
{
}

/// The backend reads from the greeting exactly the two packets that the client
/// sent: its handshake first, then its login, and nothing after them.
pub proof fn law_backend_reads_clients_packets(session: Session)
    requires
        session.handshake@.len() <= i32::MAX,
        session.login_start@.len() <= i32::MAX,
    ensures
        ({
            let login = crate::varint::framed(session.login_start@);
            &&& crate::varint::leading_varint(greeting(session)) == Some(
                (session.handshake@.len() as i32, session.handshake@ + login),
            )
            &&& crate::varint::leading_varint(login) == Some(
                (session.login_start@.len() as i32, session.login_start@),
            )
        }),
{
    let login = crate::varint::framed(session.login_start@);
    crate::varint::law_frame_round_trip(session.handshake@, login);
    crate::varint::law_frame_round_trip(session.login_start@, Seq::empty());
    assert(login + Seq::<u8>::empty() =~= login);
    assert(session.login_start@ + Seq::<u8>::empty() =~= session.login_start@);
}

/// Nothing is copied before the backend has been sent the client's own handshake
/// and login.
pub proof fn law_greeting_precedes_piping(
    phase: SessionPhase,
    event: SessionEvent,
    session: Session,
    state: State,
    address: Seq<char>,
)
    ensures
        session_next(phase, event, session, state, address).1 is Pipe ==> phase is Greeting
            && event is Done,
        session_next(phase, event, session, state, address).0 is Greeting ==> session_next(
            phase,
            event,
            session,
            state,
            address,
        ).1 == (SessionAction::Greet { bytes: greeting(session) }),
{
}

/// A player who is on the list already has that session closed first, whatever
/// their name: the step that registers the new session closes the listed one
/// and waits, and the list then names the new one.
pub proof fn law_listed_session_is_closed_first(
    phase: SessionPhase,
    session: &Session,
    state: &mut State,
    address: &str,
    next: (SessionPhase, SessionAction<Vec<u8>>),
    name: String,
)
    requires
        call_ensures(session_step, (phase, SessionEvent::Done, session, state, address), next),
        phase is Seeded || (phase is Fresh && old(state).cached_status is Some),
        session.username == Some(name),
        old(state).sessions@.contains_key(name@),
    ensures
        next.0 is HandingOff,
        next.1 == (SessionAction::<Vec<u8>>::Supersede {
            previous: old(state).sessions@[name@],
            wait_ms: 750,
        }),
        final(state).sessions@ == old(state).sessions@.insert(name@, session.id),
{
}

/// A player who is not on the list, or has no name, is greeted at once; one with
/// a name is then listed.
pub proof fn law_unlisted_players_are_greeted(
    phase: SessionPhase,
    session: &Session,
    state: &mut State,
    address: &str,
    next: (SessionPhase, SessionAction<Vec<u8>>),
)
    requires
        call_ensures(session_step, (phase, SessionEvent::Done, session, state, address), next),
        phase is Seeded || (phase is Fresh && old(state).cached_status is Some),
        session.username matches Some(name) ==> !old(state).sessions@.contains_key(name@),
    ensures
        next.0 is Greeting,
        next.1 matches SessionAction::Greet { bytes } && bytes@ == crate::varint::framed(
            session.handshake@,
        ) + crate::varint::framed(session.login_start@),
        session.username matches Some(name) ==> final(state).sessions@
            == old(state).sessions@.insert(name@, session.id),
        session.username is None ==> final(state).sessions@ == old(state).sessions@,
{
}

/// After the previous session was closed the player is greeted.
pub proof fn law_handoff_leads_to_the_greeting(
    session: &Session,
    state: &mut State,
    address: &str,
    next: (SessionPhase, SessionAction<Vec<u8>>),
)
    requires
        call_ensures(
            session_step,
            (SessionPhase::HandingOff, SessionEvent::Done, session, state, address),
            next,
        ),
    ensures
        next.0 is Greeting,
        next.1 matches SessionAction::Greet { bytes } && bytes@ == crate::varint::framed(
            session.handshake@,
        ) + crate::varint::framed(session.login_start@),
        final(state).sessions@ == old(state).sessions@,
{
}

/// The backend's status is asked for on the side exactly when a session starts
/// and none is cached, with a handshake for the status in the protocol that was
/// seen last.
pub proof fn law_status_is_seeded_once(
    phase: SessionPhase,
    event: SessionEvent,
    session: &Session,
    state: &mut State,
    address: &str,
    next: (SessionPhase, SessionAction<Vec<u8>>),
    built: Vec<u8>,
)
    requires
        call_ensures(session_step, (phase, event, session, state, address), next),
        call_ensures(build_status_handshake, (address, old(state).last_protocol), built),
    ensures
        next.1 is SeedStatus <==> phase is Fresh && event is Done && old(
            state,
        ).cached_status is None,
        next.1 matches SessionAction::SeedStatus { handshake } ==> next.0 is Seeded && handshake@
            == built@ && final(state).sessions@ == old(state).sessions@,
{
}

/// Once the greeting is out both directions are copied, whatever the packets and
/// the player, and nothing else starts that.
pub proof fn law_greeted_sessions_are_piped(
    phase: SessionPhase,
    event: SessionEvent,
    session: &Session,
    state: &mut State,
    address: &str,
    next: (SessionPhase, SessionAction<Vec<u8>>),
)
    requires
        call_ensures(session_step, (phase, event, session, state, address), next),
    ensures
        phase is Greeting && event is Done ==> next.0 is Piping && next.1 is Pipe
            && final(state).sessions@ == old(state).sessions@,
        next.1 is Pipe ==> phase is Greeting && event is Done,
        next.0 is Piping ==> next.1 is Pipe,
{
}

/// Whichever side ends, both are shut down and drained, and only then; after
/// that the session is over.
pub proof fn law_ended_sessions_are_torn_down(
    phase: SessionPhase,
    event: SessionEvent,
    session: &Session,
    state: &mut State,
    address: &str,
    next: (SessionPhase, SessionAction<Vec<u8>>),
)
    requires
        call_ensures(session_step, (phase, event, session, state, address), next),
    ensures
        phase is Piping && event is Ended ==> next.0 is Draining && next.1 == (SessionAction::<
            Vec<u8>,
        >::TearDown { drain_ms: 500 }) && final(state).sessions@ == old(state).sessions@,
        next.1 is TearDown ==> phase is Piping && event is Ended,
        next.0 is Draining ==> next.1 is TearDown,
        phase is Draining && event is Done ==> next.0 is Over && next.1 is Finish,
        next.1 is Finish ==> phase is Draining && event is Done,
{
}

/// A write that fails ends the session with that failure, and no session fails
/// that goes as planned.
pub proof fn law_failed_writes_end_the_session(
    phase: SessionPhase,
    event: SessionEvent,
    session: &Session,
    state: &mut State,
    address: &str,
    next: (SessionPhase, SessionAction<Vec<u8>>),
)
    requires
        call_ensures(session_step, (phase, event, session, state, address), next),
    ensures
        event is WriteFailed ==> next.0 is Over && next.1 is Fail,
        event is Done && !(phase is Piping) && !(phase is Over) ==> !(next.1 is Fail),
        phase is Piping && event is Ended ==> !(next.1 is Fail),
{
}

/// A session that is over is off the list, unless a newer one of the player has
/// taken its place.
pub proof fn law_over_sessions_leave_the_list(
    phase: SessionPhase,
    event: SessionEvent,
    session: &Session,
    state: &mut State,
    address: &str,
    next: (SessionPhase, SessionAction<Vec<u8>>),
    name: String,
)
    requires
        call_ensures(session_step, (phase, event, session, state, address), next),
        session.username == Some(name),
        next.0 is Over,
    ensures
        old(state).sessions@.contains_key(name@) && old(state).sessions@[name@] == session.id ==> !(
        final(state).sessions@.contains_key(name@)),
        old(state).sessions@.contains_key(name@) && old(state).sessions@[name@] != session.id
            ==> final(state).sessions@ == old(state).sessions@,
{
}

/// A step touches no other player's session, and nothing of the state but the
/// list; without a name it does not touch that either.
pub proof fn law_sessions_keep_to_themselves(
    phase: SessionPhase,
    event: SessionEvent,
    session: &Session,
    state: &mut State,
    address: &str,
    next: (SessionPhase, SessionAction<Vec<u8>>),
    other: Seq<char>,
)
    requires
        call_ensures(session_step, (phase, event, session, state, address), next),
        session.username matches Some(name) ==> name@ != other,
    ensures
        final(state).sessions@.contains_key(other) == old(state).sessions@.contains_key(other),
        final(state).sessions@[other] == old(state).sessions@[other] || !old(
            state,
        ).sessions@.contains_key(other),
        session.username is None ==> final(state).sessions@ == old(state).sessions@,
        *final(state) == (State { sessions: final(state).sessions, ..*old(state) }),
{
}

} // verus!

use sleepproxy::client::{
    client_step, ClientAction, ClientError, ClientEvent, ClientPhase, MAX_PREPLAY_PACKET,
};
use sleepproxy::join::{
    join_step, retry_step, send_off, Hold, HoldAction, HoldEvent, JoinAction, JoinEvent, JoinPhase,
    RetryAction, RetryEvent, QUICK_CONNECT_SECS,
};
use sleepproxy::motd::Motd;
use sleepproxy::packets::{
    build_status_handshake, legacy_status, login_disconnect, login_plugin_request, status_response,
};
use sleepproxy::server::{
    accept_step, drain_step, keepalive_handshake, probe_request, AcceptAction, AcceptEvent,
    DrainAction, KEEPALIVE_SECS, MAX_STATUS_PACKET, PROBE_ANSWER_SECS, PROBE_CONNECT_SECS,
};
use sleepproxy::session::{
    greet, session_step, Session, SessionAction, SessionEnd, SessionEvent, SessionPhase,
};
use sleepproxy::sessions::Sessions;
use sleepproxy::state::State;
use sleepproxy::status::{build_online_json, offline_status_json, synth_online_json};
use sleepproxy::varint::{frame, take_varint};

fn plain(text: &str) -> Motd {
    Motd::new(text.to_string(), vec![]).unwrap()
}

fn fresh() -> State {
    State::new(600, 20, 120, 90, None)
}

fn handshake(next_state: u8) -> Vec<u8> {
    let mut body = build_status_handshake("play.example", 765);
    *body.last_mut().unwrap() = next_state;
    body
}

fn step(
    phase: ClientPhase<Vec<u8>>,
    event: ClientEvent<Vec<u8>, String>,
    state: &mut State,
) -> (ClientPhase<Vec<u8>>, ClientAction<Vec<u8>, String>) {
    client_step(phase, event, state, 1000, &plain("Zzz"), None)
}

#[test]
fn legacy_pings_are_answered_and_closed() {
    let mut state = fresh();
    state.active = 2;
    let (phase, action) = step(ClientPhase::First, ClientEvent::Byte(0xFE), &mut state);
    assert_eq!(phase, ClientPhase::Closed);
    assert_eq!(
        action,
        ClientAction::SendThenClose { packet: legacy_status("Zzz", 2, 20), optional: true }
    );
}

#[test]
fn silent_connections_are_closed_quietly() {
    let mut state = fresh();
    for event in [ClientEvent::TimedOut, ClientEvent::ReadFailed] {
        let (_, action) = step(ClientPhase::First, event, &mut state);
        assert_eq!(action, ClientAction::Close);
    }
    let (_, action) = step(ClientPhase::Handshake, ClientEvent::TimedOut, &mut state);
    assert_eq!(action, ClientAction::Close);
}

#[test]
fn a_ping_to_a_sleeping_server_is_answered_locally() {
    let mut state = fresh();
    let (phase, action) = step(ClientPhase::First, ClientEvent::Byte(16), &mut state);
    assert_eq!(action, ClientAction::ReadRest { first: 16, secs: 10 });
    let body = handshake(1);
    let (phase, action) = step(phase, ClientEvent::Packet(body.clone()), &mut state);
    assert_eq!(phase, ClientPhase::Request { protocol: 765, handshake: body });
    assert_eq!(action, ClientAction::ReadPacket { secs: 10 });
    assert_eq!(state.last_protocol, 765);
    let (phase, action) = step(phase, ClientEvent::Packet(vec![0]), &mut state);
    let json = offline_status_json(&plain("Zzz"), 765, 20, None);
    assert_eq!(action, ClientAction::SendThenRead { packet: status_response(&json), secs: 5 });
    let ping = vec![1, 0, 0, 0, 0, 0, 0, 0, 9];
    let (phase, action) = step(phase, ClientEvent::Packet(ping.clone()), &mut state);
    assert_eq!(phase, ClientPhase::Closed);
    assert_eq!(action, ClientAction::SendThenClose { packet: frame(&ping), optional: false });
    assert_eq!(state.active, 0);
    assert_eq!(state.last_active, 0);
}

#[test]
fn a_bare_ping_is_echoed() {
    let mut state = fresh();
    let phase = ClientPhase::Request { protocol: 47, handshake: vec![] };
    let ping = vec![1, 2, 3];
    let (phase, action) = step(phase, ClientEvent::Packet(ping.clone()), &mut state);
    assert_eq!(phase, ClientPhase::Closed);
    assert_eq!(action, ClientAction::SendThenClose { packet: frame(&ping), optional: false });
}

#[test]
fn an_empty_request_is_a_status_request() {
    let mut state = fresh();
    let phase = ClientPhase::Request { protocol: 47, handshake: vec![] };
    let (phase, _) = step(phase, ClientEvent::Packet(vec![]), &mut state);
    assert_eq!(phase, ClientPhase::Ping);
}

#[test]
fn a_ping_without_an_echo_just_ends() {
    let mut state = fresh();
    for event in [ClientEvent::TimedOut, ClientEvent::ReadFailed] {
        let (_, action) = step(ClientPhase::Ping, event, &mut state);
        assert_eq!(action, ClientAction::Close);
    }
    let (_, action) = step(ClientPhase::Ping, ClientEvent::WriteFailed, &mut state);
    assert_eq!(action, ClientAction::Fail(ClientError::Write));
}

#[test]
fn broken_clients_are_reported() {
    let mut state = fresh();
    let (phase, action) = step(ClientPhase::Handshake, ClientEvent::Packet(vec![9]), &mut state);
    assert_eq!(phase, ClientPhase::Closed);
    assert_eq!(action, ClientAction::Fail(ClientError::MalformedHandshake));
    assert_eq!(state.last_protocol, 0);
    let (_, action) = step(ClientPhase::Handshake, ClientEvent::ReadFailed, &mut state);
    assert_eq!(action, ClientAction::Fail(ClientError::Read));
    let request = ClientPhase::Request { protocol: 1, handshake: vec![] };
    let (_, action) = step(request, ClientEvent::ReadFailed, &mut state);
    assert_eq!(action, ClientAction::Fail(ClientError::Read));
    let login = ClientPhase::Login { protocol: 1, handshake: vec![] };
    let (_, action) = step(login, ClientEvent::ReadFailed, &mut state);
    assert_eq!(action, ClientAction::Close);
}

#[test]
fn a_ping_with_players_probes_once_and_caches() {
    let mut state = fresh();
    state.active = 1;
    let body = handshake(1);
    let request = ClientPhase::Request { protocol: 765, handshake: body.clone() };
    let (phase, action) = step(request, ClientEvent::Packet(vec![0]), &mut state);
    assert_eq!(phase, ClientPhase::Probe { protocol: 765, online: 1 });
    assert_eq!(action, ClientAction::Probe { handshake: body.clone() });
    let live = "{\"players\":{\"max\":8,\"online\":0}}";
    let (phase, action) = step(phase, ClientEvent::Probed(Some(live.to_string())), &mut state);
    assert_eq!(phase, ClientPhase::Ping);
    let json = build_online_json(live, None, 1);
    assert_eq!(action, ClientAction::SendThenRead { packet: status_response(&json), secs: 5 });
    assert_eq!(state.cached_status, Some(live.to_string()));
    let request = ClientPhase::Request { protocol: 765, handshake: body };
    let (phase, _) = step(request, ClientEvent::Packet(vec![0]), &mut state);
    assert_eq!(phase, ClientPhase::Ping);
}

#[test]
fn a_failed_probe_shows_what_is_configured() {
    let mut state = fresh();
    state.active = 1;
    let up = plain("Up");
    let phase = ClientPhase::Probe { protocol: 47, online: 1 };
    let (_, action) =
        client_step(phase, ClientEvent::Probed(None), &mut state, 1000, &plain("Zzz"), Some(&up));
    let json = synth_online_json(&up, 20, 1, 47, None);
    assert_eq!(action, ClientAction::SendThenRead { packet: status_response(&json), secs: 5 });
    assert_eq!(state.cached_status, None);
}

#[test]
fn a_status_that_cannot_be_shown_aborts() {
    let mut state = fresh();
    state.active = 1;
    let phase = ClientPhase::Probe { protocol: 47, online: 1 };
    let (phase, action) = step(phase, ClientEvent::Probed(Some("{\"players\":7}".to_string())), &mut state);
    assert_eq!(phase, ClientPhase::Closed);
    assert_eq!(action, ClientAction::Abort);
}

#[test]
fn logins_join_and_are_counted() {
    for next_state in [2, 3] {
        let mut state = fresh();
        let body = handshake(next_state);
        let (phase, _) = step(ClientPhase::Handshake, ClientEvent::Packet(body.clone()), &mut state);
        assert_eq!(phase, ClientPhase::Login { protocol: 765, handshake: body.clone() });
        let mut login = vec![0];
        login.extend(frame(b"Alex"));
        let (phase, action) = step(phase, ClientEvent::Packet(login.clone()), &mut state);
        assert_eq!(phase, ClientPhase::Joined);
        assert_eq!(
            action,
            ClientAction::Join {
                protocol: 765,
                handshake: body,
                login_start: login,
                username: Some("Alex".to_string()),
            }
        );
        assert_eq!((state.active, state.last_active), (1, 1000));
        let (phase, action) = client_step(
            phase,
            ClientEvent::JoinEnded,
            &mut state,
            2000,
            &plain("Zzz"),
            None,
        );
        assert_eq!((phase, action), (ClientPhase::Closed, ClientAction::Close));
        assert_eq!((state.active, state.last_active), (0, 2000));
    }
}

#[test]
fn handshakes_for_anything_else_are_no_joins() {
    for next_state in [0, 4, 7] {
        let mut state = fresh();
        let event = ClientEvent::Packet(handshake(next_state));
        let (phase, action) = step(ClientPhase::Handshake, event, &mut state);
        assert_eq!(phase, ClientPhase::Closed);
        assert_eq!(action, ClientAction::Fail(ClientError::UnknownState));
        assert_eq!((state.active, state.last_active, state.last_protocol), (0, 0, 765));
        let (_, action) = step(phase, ClientEvent::Packet(vec![0, 1, b'a']), &mut state);
        assert_eq!(action, ClientAction::Close);
        assert_eq!((state.active, state.last_active), (0, 0));
    }
}

#[test]
fn closed_connections_stay_closed() {
    let mut state = fresh();
    let (phase, action) = step(ClientPhase::Closed, ClientEvent::Packet(vec![0]), &mut state);
    assert_eq!((phase, action), (ClientPhase::Closed, ClientAction::Close));
}

#[test]
fn joins_go_straight_through_to_a_running_backend() {
    let mut state = fresh();
    let next = join_step(JoinPhase::Trying, JoinEvent::Reached, &mut state, 765, &plain("Wait"));
    assert_eq!(next, (JoinPhase::Decided, JoinAction::Proxy));
    assert!(!state.waking);
}

#[test]
fn cold_joins_wake_the_backend_and_are_held() {
    let mut state = fresh();
    let wait = plain("Wait");
    let (phase, action) = join_step(JoinPhase::Trying, JoinEvent::Unreached, &mut state, 393, &wait);
    assert_eq!((phase, action), (JoinPhase::Holding, JoinAction::Hold { wake: true, secs: 90 }));
    assert!(state.waking);
    let (_, second) = join_step(JoinPhase::Trying, JoinEvent::Unreached, &mut state, 765, &wait);
    assert_eq!(second, JoinAction::Hold { wake: false, secs: 90 });
    let held = join_step(phase, JoinEvent::Reached, &mut state, 393, &wait);
    assert_eq!(held, (JoinPhase::Decided, JoinAction::Proxy));
}

#[test]
fn clients_that_cannot_be_held_are_turned_away() {
    let wait = plain("&eWait");
    let packet = login_disconnect("{\"extra\":[{\"color\":\"yellow\",\"text\":\"Wait\"}],\"text\":\"\"}");
    assert_eq!(send_off(&wait), packet);
    let mut state = fresh();
    let old = join_step(JoinPhase::Trying, JoinEvent::Unreached, &mut state, 392, &wait);
    let away = JoinAction::TurnAway { wake: true, packet: packet.clone() };
    assert_eq!(old, (JoinPhase::Decided, away));
    let mut off = State::new(600, 20, 120, 0, None);
    let any = join_step(JoinPhase::Trying, JoinEvent::Unreached, &mut off, 765, &wait);
    let away = JoinAction::TurnAway { wake: true, packet: packet.clone() };
    assert_eq!(any, (JoinPhase::Decided, away));
    let late = join_step(JoinPhase::Holding, JoinEvent::Unreached, &mut off, 765, &wait);
    assert_eq!(late, (JoinPhase::Decided, JoinAction::TurnAway { wake: false, packet }));
    let gone = join_step(JoinPhase::Holding, JoinEvent::ClientLeft, &mut off, 765, &wait);
    assert_eq!(gone, (JoinPhase::Decided, JoinAction::Close));
}

#[test]
fn a_hold_nudges_and_ends_when_the_backend_is_up() {
    let mut hold = Hold::new(90);
    assert_eq!(hold.step(HoldEvent::Elapsed(0)), HoldAction::TryBackend { secs: 2 });
    assert_eq!(
        hold.step(HoldEvent::Unreached { since_nudge: 11 }),
        HoldAction::Pause { secs: 1, answered: false }
    );
    assert_eq!(hold.step(HoldEvent::Elapsed(12)), HoldAction::TryBackend { secs: 2 });
    assert_eq!(
        hold.step(HoldEvent::Unreached { since_nudge: 12 }),
        HoldAction::Nudge { packet: login_plugin_request(1) }
    );
    assert_eq!(hold.step(HoldEvent::Sent), HoldAction::AwaitAnswer { secs: 10 });
    assert_eq!(hold.step(HoldEvent::Answered), HoldAction::Pause { secs: 1, answered: true });
    assert_eq!(hold.step(HoldEvent::Elapsed(89)), HoldAction::TryBackend { secs: 2 });
    assert_eq!(hold.step(HoldEvent::Reached), HoldAction::Finish(JoinEvent::Reached));
}

#[test]
fn a_hold_ends_without_the_backend() {
    let mut late = Hold::new(90);
    assert_eq!(late.step(HoldEvent::Elapsed(90)), HoldAction::Finish(JoinEvent::Unreached));
    let mut silent = Hold::new(90);
    silent.step(HoldEvent::Elapsed(0));
    silent.step(HoldEvent::Unreached { since_nudge: 20 });
    silent.step(HoldEvent::Sent);
    assert_eq!(silent.step(HoldEvent::Silent), HoldAction::Finish(JoinEvent::Unreached));
    let mut gone = Hold::new(90);
    gone.step(HoldEvent::Elapsed(0));
    gone.step(HoldEvent::Unreached { since_nudge: 20 });
    assert_eq!(gone.step(HoldEvent::ClientLeft), HoldAction::Finish(JoinEvent::ClientLeft));
}

#[test]
fn nudges_are_numbered_around_the_clock() {
    let mut hold = Hold::new(90);
    hold.nudges = u32::MAX;
    hold.step(HoldEvent::Elapsed(0));
    assert_eq!(
        hold.step(HoldEvent::Unreached { since_nudge: 12 }),
        HoldAction::Nudge { packet: login_plugin_request(0) }
    );
}

#[test]
fn retries_go_on_until_the_backend_is_up_or_time_is() {
    assert_eq!(retry_step(0, RetryEvent::Refused), (1, RetryAction::RetryAfter { secs: 1 }));
    assert_eq!(retry_step(1, RetryEvent::Connected), (2, RetryAction::Done));
    assert_eq!(retry_step(2, RetryEvent::DeadlinePassed), (2, RetryAction::GiveUp));
}

fn session(id: u64, username: Option<&str>) -> Session {
    Session {
        id,
        username: username.map(|name| name.to_string()),
        handshake: vec![0, 1, 2],
        login_start: vec![0, 3],
    }
}

#[test]
fn a_session_runs_its_course() {
    let mut state = fresh();
    state.last_protocol = 765;
    let alex = session(1, Some("Alex"));
    let mut go = |phase, event, state: &mut State| session_step(phase, event, &alex, state, "mc:1");
    let (phase, action) = go(SessionPhase::Fresh, SessionEvent::Done, &mut state);
    let seed = SessionAction::SeedStatus { handshake: build_status_handshake("mc:1", 765) };
    assert_eq!((phase, action), (SessionPhase::Seeded, seed));
    let (phase, action) = go(phase, SessionEvent::Done, &mut state);
    assert_eq!(action, SessionAction::Greet { bytes: vec![3, 0, 1, 2, 2, 0, 3] });
    assert_eq!(state.sessions.current("Alex"), Some(1));
    let (phase, action) = go(phase, SessionEvent::Done, &mut state);
    assert_eq!((phase, action), (SessionPhase::Piping, SessionAction::Pipe));
    let (phase, action) = go(phase, SessionEvent::Ended(SessionEnd::Backend), &mut state);
    assert_eq!(action, SessionAction::TearDown { drain_ms: 500 });
    assert_eq!(state.sessions.current("Alex"), Some(1));
    let (phase, action) = go(phase, SessionEvent::Done, &mut state);
    assert_eq!((phase, action), (SessionPhase::Over, SessionAction::Finish));
    assert_eq!(state.sessions.current("Alex"), None);
}

#[test]
fn a_reconnect_closes_the_previous_session_first() {
    let mut state = fresh();
    state.cache_status("{}".to_string());
    let first = session(1, Some("Alex"));
    let second = session(2, Some("Alex"));
    let (_, action) =
        session_step(SessionPhase::Fresh, SessionEvent::Done, &first, &mut state, "mc");
    assert_eq!(action, SessionAction::Greet { bytes: greet(&first) });
    let (phase, action) =
        session_step(SessionPhase::Fresh, SessionEvent::Done, &second, &mut state, "mc");
    assert_eq!(phase, SessionPhase::HandingOff);
    assert_eq!(action, SessionAction::Supersede { previous: 1, wait_ms: 750 });
    let (_, action) = session_step(phase, SessionEvent::Done, &second, &mut state, "mc");
    assert_eq!(action, SessionAction::Greet { bytes: greet(&second) });
    let end = SessionEvent::Ended(SessionEnd::Superseded);
    let (phase, action) = session_step(SessionPhase::Piping, end, &first, &mut state, "mc");
    assert_eq!(action, SessionAction::TearDown { drain_ms: 500 });
    session_step(phase, SessionEvent::Done, &first, &mut state, "mc");
    assert_eq!(state.sessions.current("Alex"), Some(2));
}

#[test]
fn nameless_sessions_are_not_listed() {
    let mut state = fresh();
    state.cache_status("{}".to_string());
    let nameless = session(1, None);
    let (phase, _) =
        session_step(SessionPhase::Fresh, SessionEvent::Done, &nameless, &mut state, "mc");
    assert_eq!(phase, SessionPhase::Greeting);
    assert_eq!(state.sessions.current(""), None);
    let (phase, action) =
        session_step(phase, SessionEvent::WriteFailed, &nameless, &mut state, "mc");
    assert_eq!((phase, action), (SessionPhase::Over, SessionAction::Fail));
}

#[test]
fn a_session_that_fails_is_taken_off_the_list() {
    let mut state = fresh();
    state.cache_status("{}".to_string());
    let alex = session(1, Some("Alex"));
    let (phase, _) = session_step(SessionPhase::Fresh, SessionEvent::Done, &alex, &mut state, "mc");
    assert_eq!(state.sessions.current("Alex"), Some(1));
    let next = session_step(phase, SessionEvent::WriteFailed, &alex, &mut state, "mc");
    assert_eq!(next, (SessionPhase::Over, SessionAction::Fail));
    assert_eq!(state.sessions.current("Alex"), None);
    let again = session(2, Some("Alex"));
    let (phase, _) = session_step(SessionPhase::Fresh, SessionEvent::Done, &again, &mut state, "mc");
    assert_eq!(phase, SessionPhase::Greeting);
    let newest = session(3, Some("Alex"));
    session_step(SessionPhase::Fresh, SessionEvent::Done, &newest, &mut state, "mc");
    session_step(phase, SessionEvent::WriteFailed, &again, &mut state, "mc");
    assert_eq!(state.sessions.current("Alex"), Some(3));
}

#[test]
fn the_backend_reads_the_clients_two_packets() {
    let bytes = greet(&session(1, None));
    let (len, rest) = take_varint(&bytes).unwrap();
    assert_eq!((len, &rest[..3]), (3, &[0, 1, 2][..]));
    assert_eq!(take_varint(&rest[3..]), Some((2, &[0, 3][..])));
}

#[test]
fn each_player_has_one_session() {
    let mut sessions = Sessions::new();
    assert_eq!(sessions.current("a"), None);
    assert_eq!(sessions.register("a", 1), None);
    assert_eq!(sessions.register("b", 2), None);
    assert_eq!(sessions.register("a", 3), Some(1));
    assert_eq!(sessions.current("a"), Some(3));
    sessions.deregister("a", 1);
    assert_eq!(sessions.current("a"), Some(3));
    sessions.deregister("a", 3);
    assert_eq!(sessions.current("a"), None);
    assert_eq!(sessions.current("b"), Some(2));
    sessions.deregister("c", 2);
    assert_eq!(sessions.current("b"), Some(2));
}

#[test]
fn only_a_stop_ends_accepting() {
    assert_eq!(accept_step(AcceptEvent::Accepted { room: true }), AcceptAction::Serve);
    assert_eq!(accept_step(AcceptEvent::Accepted { room: false }), AcceptAction::Shed);
    assert_eq!(accept_step(AcceptEvent::Failed), AcceptAction::BackOff { ms: 100 });
    assert_eq!(accept_step(AcceptEvent::Stop), AcceptAction::Drain);
}

#[test]
fn draining_waits_for_players_but_not_forever() {
    let mut state = fresh();
    assert_eq!(drain_step(&state, 0), DrainAction::Exit { left: 0 });
    state.active = 2;
    assert_eq!(drain_step(&state, 0), DrainAction::Wait { ms: 500 });
    assert_eq!(drain_step(&state, 24), DrainAction::Wait { ms: 500 });
    assert_eq!(drain_step(&state, 25), DrainAction::Exit { left: 2 });
}

#[test]
fn the_backend_is_kept_awake_only_for_players() {
    let mut state = fresh();
    state.last_protocol = 47;
    assert_eq!(keepalive_handshake(&state, "mc:1"), None);
    state.active = 1;
    let body = keepalive_handshake(&state, "mc:1").unwrap();
    assert_eq!(body, build_status_handshake("mc:1", 47));
    let mut probe = frame(&body);
    probe.extend([1, 0]);
    assert_eq!(probe_request(&body), probe);
}

#[test]
fn limits_have_their_values() {
    assert_eq!(QUICK_CONNECT_SECS, 5);
    assert_eq!(KEEPALIVE_SECS, 60);
    assert_eq!((PROBE_CONNECT_SECS, PROBE_ANSWER_SECS), (3, 5));
    assert_eq!((MAX_PREPLAY_PACKET, MAX_STATUS_PACKET), (64 * 1024, 256 * 1024));
}

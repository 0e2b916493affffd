//! Joins: straight through to a running backend, held while it boots, or turned
//! away with an explanation.
use crate::json_text::print_json;
use crate::motd::{Motd, motd_component};
use crate::packets::{login_disconnect, login_plugin_request};
use crate::state::State;
use vstd::prelude::*;

verus! {

/// Seconds that a join waits for a backend that may be up.
pub const QUICK_CONNECT_SECS: u64 = 5;

/// First protocol version (1.13) with a packet that can be sent to a client in
/// the middle of its login. Older clients cannot be held.
pub const PROTO_LOGIN_PLUGIN: i32 = 393;

/// Seconds after which a client drops a login that hears nothing.
pub const CLIENT_PATIENCE_SECS: u64 = 30;

/// Seconds between two nudges of a held client, well below its patience.
pub const HOLD_PING_SECS: u64 = 12;

/// Seconds that a held client has to answer a nudge.
pub const HOLD_ANSWER_SECS: u64 = 10;

/// Seconds for each attempt to reach the backend during a hold.
pub const HOLD_CONNECT_SECS: u64 = 2;

/// Seconds between two attempts to reach the backend.
pub const RETRY_PAUSE_SECS: u64 = 1;

/// Where a join stands.
#[derive(Clone, Copy, Debug, PartialEq, Eq, Structural)]
pub enum JoinPhase {
    /// The backend is being tried for a few seconds.
    Trying,
    /// The player is held while the backend boots.
    Holding,
    /// The join is decided.
    Decided,
}

/// What happened during a join.
#[derive(Clone, Copy, Debug, PartialEq, Eq, Structural)]
pub enum JoinEvent {
    /// The backend accepted a connection.
    Reached,
    /// The backend did not come up in time.
    Unreached,
    /// The client hung up.
    ClientLeft,
}

/// What to do with a join.
#[derive(Debug, PartialEq)]
pub enum JoinAction<B> {
    /// Connect the player and the backend.
    Proxy,
    /// Boot the backend if `wake`, and hold the player for up to `secs`.
    Hold { wake: bool, secs: u64 },
    /// Boot the backend if `wake`, and send the player away with this packet.
    TurnAway { wake: bool, packet: B },
    /// Close the connection.
    Close,
}

impl View for JoinAction<Vec<u8>> {
    type V = JoinAction<Seq<u8>>;

    open spec fn view(&self) -> JoinAction<Seq<u8>> {
        match self {
            JoinAction::Proxy => JoinAction::Proxy,
            JoinAction::Hold { wake, secs } => JoinAction::Hold { wake: *wake, secs: *secs },
            JoinAction::TurnAway { wake, packet } => JoinAction::TurnAway {
                wake: *wake,
                packet: packet@,
            },
            JoinAction::Close => JoinAction::Close,
        }
    }
}

/// Whether a client can be held.
pub open spec fn holdable(state: State, protocol: i32) -> bool {
    state.join_hold > 0 && protocol >= PROTO_LOGIN_PLUGIN
}

/// The packet that sends a player away with a styled message.
pub open spec fn farewell(message: Motd) -> Seq<u8> {
    crate::varint::framed(
        crate::packets::string_packet(
            0,
            vstd::utf8::encode_utf8(
                crate::json_text::json_text(crate::status::description(message)),
            ),
        ),
    )
}

/// What an event does to a join.
pub open spec fn join_next(
    phase: JoinPhase,
    event: JoinEvent,
    state: State,
    protocol: i32,
    startup_message: Motd,
) -> (JoinPhase, JoinAction<Seq<u8>>) {
    match (phase, event) {
        (JoinPhase::Trying, JoinEvent::Reached) => (JoinPhase::Decided, JoinAction::Proxy),
        (JoinPhase::Trying, JoinEvent::Unreached) => if holdable(state, protocol) {
            (JoinPhase::Holding, JoinAction::Hold { wake: !state.waking, secs: state.join_hold })
        } else {
            (
                JoinPhase::Decided,
                JoinAction::TurnAway { wake: !state.waking, packet: farewell(startup_message) },
            )
        },
        (JoinPhase::Holding, JoinEvent::Reached) => (JoinPhase::Decided, JoinAction::Proxy),
        (JoinPhase::Holding, JoinEvent::Unreached) => (
            JoinPhase::Decided,
            JoinAction::TurnAway { wake: false, packet: farewell(startup_message) },
        ),
        _ => (JoinPhase::Decided, JoinAction::Close),
    }
}

/// The packet that sends a player away with a styled message instead of a raw
/// timeout.
pub fn send_off(message: &Motd) -> (packet: Vec<u8>)
    ensures
        packet@ == farewell(*message),
{
    let component = motd_component(message);
    let json = print_json(component);
    login_disconnect(json.as_str())
}

/// Takes an event of a join and says where it stands next and what to do.
pub fn join_step(
    phase: JoinPhase,
    event: JoinEvent,
    state: &mut State,
    protocol: i32,
    startup_message: &Motd,
) -> (next: (JoinPhase, JoinAction<Vec<u8>>))
    ensures
        (next.0, next.1@) == join_next(phase, event, *old(state), protocol, *startup_message),
        *final(state) == (if phase is Trying && event is Unreached {
            State { waking: true, ..*old(state) }
        } else {
            *old(state)
        }),
{
    match (phase, event) {
        (JoinPhase::Trying, JoinEvent::Reached) => (JoinPhase::Decided, JoinAction::Proxy),
        (JoinPhase::Trying, JoinEvent::Unreached) => {
            let wake: bool = state.begin_waking();
            if state.join_hold > 0 && protocol >= PROTO_LOGIN_PLUGIN {
                (JoinPhase::Holding, JoinAction::Hold { wake, secs: state.join_hold })
            } else {
                (
                    JoinPhase::Decided,
                    JoinAction::TurnAway { wake, packet: send_off(startup_message) },
                )
            }
        },
        (JoinPhase::Holding, JoinEvent::Reached) => (JoinPhase::Decided, JoinAction::Proxy),
        (JoinPhase::Holding, JoinEvent::Unreached) => (
            JoinPhase::Decided,
            JoinAction::TurnAway { wake: false, packet: send_off(startup_message) },
        ),
        _ => (JoinPhase::Decided, JoinAction::Close),
    }
}

/// Where a hold stands.
#[derive(Clone, Copy, Debug, PartialEq, Eq, Structural)]
pub enum HoldPhase {
    /// A round is due.
    Round,
    /// The backend is being tried.
    Trying,
    /// A nudge is being sent.
    Nudging,
    /// The client's answer is due.
    Answering,
    /// The hold is over.
    Over,
}

/// What happened during a hold.
#[derive(Clone, Copy, Debug, PartialEq, Eq, Structural)]
pub enum HoldEvent {
    /// A round starts, this many whole seconds into the hold.
    Elapsed(u64),
    /// The backend accepted a connection.
    Reached,
    /// The backend did not; the last nudge was answered this many whole seconds
    /// ago.
    Unreached { since_nudge: u64 },
    /// The nudge is out.
    Sent,
    /// The client answered.
    Answered,
    /// The client did not answer in time.
    Silent,
    /// Reading or writing failed: the client is gone.
    ClientLeft,
}

/// What to do with a held client.
#[derive(Debug, PartialEq)]
pub enum HoldAction<B> {
    /// Try the backend for up to `secs`.
    TryBackend { secs: u64 },
    /// Send this packet.
    Nudge { packet: B },
    /// Read and drop the answer, which is due in `secs`.
    AwaitAnswer { secs: u64 },
    /// Wait, then start a round. If `answered`, the time since the last nudge
    /// starts over.
    Pause { secs: u64, answered: bool },
    /// Stop holding.
    Finish(JoinEvent),
}

impl View for HoldAction<Vec<u8>> {
    type V = HoldAction<Seq<u8>>;

    open spec fn view(&self) -> HoldAction<Seq<u8>> {
        match self {
            HoldAction::TryBackend { secs } => HoldAction::TryBackend { secs: *secs },
            HoldAction::Nudge { packet } => HoldAction::Nudge { packet: packet@ },
            HoldAction::AwaitAnswer { secs } => HoldAction::AwaitAnswer { secs: *secs },
            HoldAction::Pause { secs, answered } => HoldAction::Pause {
                secs: *secs,
                answered: *answered,
            },
            HoldAction::Finish(event) => HoldAction::Finish(*event),
        }
    }
}

/// A hold in progress: where it stands, how long it may take and how many nudges
/// it has sent, counted modulo 2^32.
#[derive(Clone, Copy, Debug, PartialEq, Eq, Structural)]
pub struct Hold {
    pub phase: HoldPhase,
    pub secs: u64,
    pub nudges: u32,
}

/// The number of the nudge after number `n`.
pub open spec fn next_nudge(n: u32) -> u32 {
    if n == u32::MAX {
        0
    } else {
        (n + 1) as u32
    }
}

/// A whole Login Plugin Request packet on the hold channel.
pub open spec fn nudge_packet(n: u32) -> Seq<u8> {
    crate::varint::framed(
        seq![4u8] + crate::varint::varint_bytes(n as nat) + crate::varint::framed(
            vstd::utf8::encode_utf8(crate::packets::HOLD_CHANNEL@),
        ),
    )
}

/// What an event does to a hold.
pub open spec fn hold_next(hold: Hold, event: HoldEvent) -> (Hold, HoldAction<Seq<u8>>) {
    let over = Hold { phase: HoldPhase::Over, ..hold };
    match (hold.phase, event) {
        (HoldPhase::Round, HoldEvent::Elapsed(elapsed)) => if elapsed < hold.secs {
            (
                Hold { phase: HoldPhase::Trying, ..hold },
                HoldAction::TryBackend { secs: HOLD_CONNECT_SECS },
            )
        } else {
            (over, HoldAction::Finish(JoinEvent::Unreached))
        },
        (HoldPhase::Trying, HoldEvent::Reached) => (over, HoldAction::Finish(JoinEvent::Reached)),
        (HoldPhase::Trying, HoldEvent::Unreached { since_nudge }) => if since_nudge
            >= HOLD_PING_SECS {
            (
                Hold {
                    phase: HoldPhase::Nudging,
                    nudges: next_nudge(hold.nudges),
                    ..hold
                },
                HoldAction::Nudge { packet: nudge_packet(next_nudge(hold.nudges)) },
            )
        } else {
            (
                Hold { phase: HoldPhase::Round, ..hold },
                HoldAction::Pause { secs: RETRY_PAUSE_SECS, answered: false },
            )
        },
        (HoldPhase::Nudging, HoldEvent::Sent) => (
            Hold { phase: HoldPhase::Answering, ..hold },
            HoldAction::AwaitAnswer { secs: HOLD_ANSWER_SECS },
        ),
        (HoldPhase::Answering, HoldEvent::Answered) => (
            Hold { phase: HoldPhase::Round, ..hold },
            HoldAction::Pause { secs: RETRY_PAUSE_SECS, answered: true },
        ),
        (HoldPhase::Answering, HoldEvent::Silent) => (
            over,
            HoldAction::Finish(JoinEvent::Unreached),
        ),
        _ => (over, HoldAction::Finish(JoinEvent::ClientLeft)),
    }
}

impl Hold {
    /// A hold of up to `secs` seconds.
    pub fn new(secs: u64) -> (hold: Hold)
        ensures
            hold == (Hold { phase: HoldPhase::Round, secs, nudges: 0 }),
    {
        Hold { phase: HoldPhase::Round, secs, nudges: 0 }
    }

    /// Takes an event of the hold and says what to do.
    pub fn step(&mut self, event: HoldEvent) -> (action: HoldAction<Vec<u8>>)
        ensures
            (*final(self), action@) == hold_next(*old(self), event),
    {
        match (self.phase, event) {
            (HoldPhase::Round, HoldEvent::Elapsed(elapsed)) => {
                if elapsed < self.secs {
                    self.phase = HoldPhase::Trying;
                    HoldAction::TryBackend { secs: HOLD_CONNECT_SECS }
                } else {
                    self.phase = HoldPhase::Over;
                    HoldAction::Finish(JoinEvent::Unreached)
                }
            },
            (HoldPhase::Trying, HoldEvent::Reached) => {
                self.phase = HoldPhase::Over;
                HoldAction::Finish(JoinEvent::Reached)
            },
            (HoldPhase::Trying, HoldEvent::Unreached { since_nudge }) => {
                if since_nudge >= HOLD_PING_SECS {
                    self.phase = HoldPhase::Nudging;
                    self.nudges = self.nudges.wrapping_add(1);
                    HoldAction::Nudge { packet: login_plugin_request(self.nudges) }
                } else {
                    self.phase = HoldPhase::Round;
                    HoldAction::Pause { secs: RETRY_PAUSE_SECS, answered: false }
                }
            },
            (HoldPhase::Nudging, HoldEvent::Sent) => {
                self.phase = HoldPhase::Answering;
                HoldAction::AwaitAnswer { secs: HOLD_ANSWER_SECS }
            },
            (HoldPhase::Answering, HoldEvent::Answered) => {
                self.phase = HoldPhase::Round;
                HoldAction::Pause { secs: RETRY_PAUSE_SECS, answered: true }
            },
            (HoldPhase::Answering, HoldEvent::Silent) => {
                self.phase = HoldPhase::Over;
                HoldAction::Finish(JoinEvent::Unreached)
            },
            _ => {
                self.phase = HoldPhase::Over;
                HoldAction::Finish(JoinEvent::ClientLeft)
            },
        }
    }
}

/// What happened to an attempt to reach the backend while it boots.
#[derive(Clone, Copy, Debug, PartialEq, Eq, Structural)]
pub enum RetryEvent {
    /// It accepted the connection.
    Connected,
    /// It refused the connection.
    Refused,
    /// The time for all attempts is up.
    DeadlinePassed,
}

/// What to do after an attempt to reach the backend.
#[derive(Clone, Copy, Debug, PartialEq, Eq, Structural)]
pub enum RetryAction {
    /// Nothing: the backend is up.
    Done,
    /// Wait, then try again.
    RetryAfter { secs: u64 },
    /// Nothing: the backend never woke up.
    GiveUp,
}

/// Takes the outcome of an attempt and says what to do, and how many attempts
/// have ended.
pub fn retry_step(attempts: i32, event: RetryEvent) -> (next: (i32, RetryAction))
    requires
        0 <= attempts < i32::MAX,
    ensures
        next == (match event {
            RetryEvent::Connected => ((attempts + 1) as i32, RetryAction::Done),
            RetryEvent::Refused => (
                (attempts + 1) as i32,
                RetryAction::RetryAfter { secs: RETRY_PAUSE_SECS },
            ),
            RetryEvent::DeadlinePassed => (attempts, RetryAction::GiveUp),
        }),
{
    match event {
        RetryEvent::Connected => (attempts + 1, RetryAction::Done),
        RetryEvent::Refused => (
            attempts + 1,
            RetryAction::RetryAfter { secs: RETRY_PAUSE_SECS },
        ),
        RetryEvent::DeadlinePassed => (attempts, RetryAction::GiveUp),
    }
}

/// The backend is booted by one join at a time: while one is at it, no other is
/// told to.
pub proof fn law_one_waker(
    phase: JoinPhase,
    event: JoinEvent,
    state: State,
    protocol: i32,
    startup_message: Motd,
)
    requires
        state.waking,
    ensures
        match join_next(phase, event, state, protocol, startup_message).1 {
            JoinAction::Hold { wake, secs } => !wake,
            JoinAction::TurnAway { wake, packet } => !wake,
            _ => true,
        },
{
}

/// A join that does not reach a backend nobody is booting starts its boot, held
/// or not.
pub proof fn law_cold_join_wakes(state: State, protocol: i32, startup_message: Motd)
    requires
        !state.waking,
    ensures
        match join_next(
            JoinPhase::Trying,
            JoinEvent::Unreached,
            state,
            protocol,
            startup_message,
        ).1 {
            JoinAction::Hold { wake, secs } => wake,
            JoinAction::TurnAway { wake, packet } => wake,
            _ => false,
        },
{
}

/// A client too old to be held, or any client when holding is off, is never
/// held: it gets the startup message.
pub proof fn law_unholdable_is_turned_away(state: State, protocol: i32, startup_message: Motd)
    requires
        state.join_hold == 0 || protocol < PROTO_LOGIN_PLUGIN,
    ensures
        join_next(
            JoinPhase::Trying,
            JoinEvent::Unreached,
            state,
            protocol,
            startup_message,
        ).1 == (JoinAction::TurnAway { wake: !state.waking, packet: farewell(startup_message) }),
{
}

/// No round of a hold starts once its time is up.
pub proof fn law_hold_ends_in_time(hold: Hold, elapsed: u64)
    requires
        hold.phase is Round,
        elapsed >= hold.secs,
    ensures
        hold_next(hold, HoldEvent::Elapsed(elapsed)).1 == HoldAction::<Seq<u8>>::Finish(
            JoinEvent::Unreached,
        ),
{
}

/// A held client is nudged before its patience runs out: a round that finds a
/// nudge due sends it, and one that does not leaves time for another round.
pub proof fn law_hold_nudges_in_time(hold: Hold, since_nudge: u64)
    requires
        hold.phase is Trying,
    ensures
        match hold_next(hold, HoldEvent::Unreached { since_nudge }).1 {
            HoldAction::Nudge { packet } => since_nudge >= HOLD_PING_SECS,
            HoldAction::Pause { secs, answered } => since_nudge + secs + HOLD_CONNECT_SECS
                < CLIENT_PATIENCE_SECS,
            _ => false,
        },
{
}

/// The client's stream is handed to the backend only between packets: a hold
/// that succeeds has no nudge waiting for its answer.
pub proof fn law_hold_succeeds_between_packets(hold: Hold, event: HoldEvent)
    ensures
        hold_next(hold, event).1 == HoldAction::<Seq<u8>>::Finish(JoinEvent::Reached)
            ==> hold.phase is Trying && event is Reached,
        hold.phase is Answering || hold.phase is Nudging ==> !(hold_next(
            hold,
            event,
        ).0.phase is Trying),
{
}

/// A cold join of any client that can be held is held, for the configured time,
/// and boots the backend unless that is under way.
pub proof fn law_holdable_joins_are_held(
    state: &mut State,
    protocol: i32,
    startup_message: &Motd,
    next: (JoinPhase, JoinAction<Vec<u8>>),
)
    requires
        call_ensures(
            join_step,
            (JoinPhase::Trying, JoinEvent::Unreached, state, protocol, startup_message),
            next,
        ),
        old(state).join_hold > 0,
        protocol >= 393,
    ensures
        next.0 is Holding,
        next.1 == (JoinAction::<Vec<u8>>::Hold {
            wake: !old(state).waking,
            secs: old(state).join_hold,
        }),
        *final(state) == (State { waking: true, ..*old(state) }),
{
}

/// A cold join of a client that cannot be held boots the backend unless that is
/// under way, and sends the client the startup message.
pub proof fn law_unholdable_joins_get_the_message(
    state: &mut State,
    protocol: i32,
    startup_message: &Motd,
    next: (JoinPhase, JoinAction<Vec<u8>>),
)
    requires
        call_ensures(
            join_step,
            (JoinPhase::Trying, JoinEvent::Unreached, state, protocol, startup_message),
            next,
        ),
        old(state).join_hold == 0 || protocol < 393,
    ensures
        next.0 is Decided,
        next.1 matches JoinAction::TurnAway { wake, packet } && wake == !old(state).waking
            && packet@ == farewell(*startup_message),
        *final(state) == (State { waking: true, ..*old(state) }),
{
}

/// Whenever the backend is reached, the player is let through, whatever the
/// client and the state.
pub proof fn law_reached_backend_lets_players_through(
    phase: JoinPhase,
    state: &mut State,
    protocol: i32,
    startup_message: &Motd,
    next: (JoinPhase, JoinAction<Vec<u8>>),
)
    requires
        call_ensures(
            join_step,
            (phase, JoinEvent::Reached, state, protocol, startup_message),
            next,
        ),
        phase is Trying || phase is Holding,
    ensures
        next.0 is Decided,
        next.1 is Proxy,
        *final(state) == *old(state),
{
}

/// A hold that ends without the backend ends with the startup message, and one
/// that the client left ends without a word; neither boots anything.
pub proof fn law_failed_holds_are_explained(
    event: JoinEvent,
    state: &mut State,
    protocol: i32,
    startup_message: &Motd,
    next: (JoinPhase, JoinAction<Vec<u8>>),
)
    requires
        call_ensures(
            join_step,
            (JoinPhase::Holding, event, state, protocol, startup_message),
            next,
        ),
    ensures
        event is Unreached ==> next.0 is Decided && (next.1 matches JoinAction::TurnAway {
            wake,
            packet,
        } && !wake && packet@ == farewell(*startup_message)),
        event is ClientLeft ==> next.0 is Decided && next.1 is Close,
        *final(state) == *old(state),
{
}

/// The startup message is a disconnect whose reason is the text of the message's
/// component.
pub proof fn law_farewell_says_the_message(message: Motd, text: Seq<char>)
    requires
        text == crate::json_text::json_text(
            crate::motd::motd_tree(message.text(), message.shades()),
        ),
    ensures
        farewell(message) == crate::varint::framed(
            seq![0u8] + crate::varint::framed(vstd::utf8::encode_utf8(text)),
        ),
{
}

/// A round of a hold tries the backend for two seconds as long as there is time,
/// and ends the hold when there is none.
pub proof fn law_hold_tries_while_there_is_time(
    hold: &mut Hold,
    elapsed: u64,
    action: HoldAction<Vec<u8>>,
)
    requires
        call_ensures(Hold::step, (hold, HoldEvent::Elapsed(elapsed)), action),
        old(hold).phase is Round,
    ensures
        elapsed < old(hold).secs ==> action == (HoldAction::<Vec<u8>>::TryBackend { secs: 2 })
            && *final(hold) == (Hold { phase: HoldPhase::Trying, ..*old(hold) }),
        elapsed >= old(hold).secs ==> action == HoldAction::<Vec<u8>>::Finish(JoinEvent::Unreached)
            && *final(hold) == (Hold { phase: HoldPhase::Over, ..*old(hold) }),
{
}

/// A held player is let in as soon as the backend is reached.
pub proof fn law_hold_ends_when_reached(hold: &mut Hold, action: HoldAction<Vec<u8>>)
    requires
        call_ensures(Hold::step, (hold, HoldEvent::Reached), action),
        old(hold).phase is Trying,
    ensures
        action == HoldAction::<Vec<u8>>::Finish(JoinEvent::Reached),
        final(hold).phase is Over,
{
}

/// While the backend is not reached, a nudge with the next number is sent every
/// twelve seconds, and otherwise the hold pauses for a second and goes on.
pub proof fn law_hold_nudges_or_pauses(
    hold: &mut Hold,
    since_nudge: u64,
    action: HoldAction<Vec<u8>>,
)
    requires
        call_ensures(Hold::step, (hold, HoldEvent::Unreached { since_nudge }), action),
        old(hold).phase is Trying,
    ensures
        since_nudge >= 12 ==> {
            &&& (final(hold).nudges - old(hold).nudges - 1) % 0x1_0000_0000 == 0
            &&& action matches HoldAction::Nudge { packet }
            &&& packet@ == nudge_packet(final(hold).nudges)
            &&& *final(hold) == (Hold {
                phase: HoldPhase::Nudging,
                nudges: final(hold).nudges,
                ..*old(hold)
            })
        },
        since_nudge < 12 ==> action == (HoldAction::<Vec<u8>>::Pause { secs: 1, answered: false })
            && *final(hold) == (Hold { phase: HoldPhase::Round, ..*old(hold) }),
{
}

/// A nudge that is out is followed by ten seconds for the answer; an answer lets
/// the hold go on and silence ends it.
pub proof fn law_nudges_are_answered(
    hold: &mut Hold,
    event: HoldEvent,
    action: HoldAction<Vec<u8>>,
)
    requires
        call_ensures(Hold::step, (hold, event), action),
    ensures
        old(hold).phase is Nudging && event is Sent ==> action == (HoldAction::<
            Vec<u8>,
        >::AwaitAnswer { secs: 10 }) && *final(hold) == (Hold {
            phase: HoldPhase::Answering,
            ..*old(hold)
        }),
        old(hold).phase is Answering && event is Answered ==> action == (HoldAction::<
            Vec<u8>,
        >::Pause { secs: 1, answered: true }) && *final(hold) == (Hold {
            phase: HoldPhase::Round,
            ..*old(hold)
        }),
        old(hold).phase is Answering && event is Silent ==> action == HoldAction::<
            Vec<u8>,
        >::Finish(JoinEvent::Unreached) && final(hold).phase is Over,
{
}

/// A client that leaves ends the hold, whenever it does.
pub proof fn law_hold_ends_with_the_client(hold: &mut Hold, action: HoldAction<Vec<u8>>)
    requires
        call_ensures(Hold::step, (hold, HoldEvent::ClientLeft), action),
    ensures
        action == HoldAction::<Vec<u8>>::Finish(JoinEvent::ClientLeft),
        final(hold).phase is Over,
{
}

/// A nudge is a framed Login Plugin Request with its number and the hold
/// channel.
pub proof fn law_nudge_is_a_plugin_request(n: u32, packet: Vec<u8>)
    requires
        call_ensures(login_plugin_request, (n,), packet),
    ensures
        nudge_packet(n) == packet@,
{
}

/// A hold starts with a round, no nudges and the time it is given.
pub proof fn law_hold_starts_fresh(secs: u64, hold: Hold)
    requires
        call_ensures(Hold::new, (secs,), hold),
    ensures
        hold.phase is Round && hold.secs == secs && hold.nudges == 0,
{
}

/// Every attempt that ended is counted; a refusal is followed by another one
/// after a second, success by none, and the deadline ends them all.
pub proof fn law_attempts_go_on(attempts: i32, event: RetryEvent, next: (i32, RetryAction))
    requires
        call_ensures(retry_step, (attempts, event), next),
        0 <= attempts < i32::MAX,
    ensures
        event is Connected ==> next.0 == attempts + 1 && next.1 is Done,
        event is Refused ==> next.0 == attempts + 1 && next.1 == (RetryAction::RetryAfter {
            secs: 1,
        }),
        event is DeadlinePassed ==> next.0 == attempts && next.1 is GiveUp,
{
}

} // verus!

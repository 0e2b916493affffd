//! What the proxy knows at run time.
use crate::clock::now_secs;
use crate::config::MAX_PLAYERS;
use crate::json::{Json, JsonTree, member};
use crate::sessions::Sessions;
use std::time::SystemTime;
use vstd::prelude::*;

verus! {

/// Shared run-time state, from which the proxy tells whether the backend is
/// awake.
#[derive(Debug)]
pub struct State {
    /// Number of players currently proxied.
    pub active: usize,
    /// Unix seconds of the last time a player was connected (0 = never).
    pub last_active: u64,
    /// Seconds after the last player left during which the online MOTD is shown.
    pub sleep_timeout: u64,
    /// Slot cap to show while the backend's own is not known; 0 stands for the
    /// default one.
    pub max_players: u64,
    /// Seconds to keep trying to reach the backend while it boots.
    pub connect_timeout: u64,
    /// Seconds to hold a joining player while the backend boots. 0 disables.
    pub join_hold: u64,
    /// Whether the backend is being booted.
    pub waking: bool,
    /// The last status that the backend answered.
    pub cached_status: Option<String>,
    /// Live sessions by username.
    pub sessions: Sessions,
    /// Protocol version of the most recent handshake.
    pub last_protocol: i32,
    /// Icon for statuses that the proxy makes up itself.
    pub favicon: Option<String>,
}

/// A text that may be there.
pub open spec fn text_view(text: Option<String>) -> Option<Seq<char>> {
    match text {
        Some(t) => Some(t@),
        None => None,
    }
}

/// A configured slot cap, or the default one if that is 0.
pub open spec fn plausible_max(configured: u64) -> u64 {
    if configured > 0 {
        configured
    } else {
        MAX_PLAYERS
    }
}

/// The slot cap to show: the backend's own if it is known and not 0, else the
/// configured one. It is never 0, so that the slot count stays plausible.
pub open spec fn shown_max(cached: Option<JsonTree>, configured: u64) -> u64 {
    match cached {
        Some(status) => match member(status, "players"@) {
            Some(players) => match member(players, "max"@) {
                Some(JsonTree::Integer(max)) => if 0 < max <= u64::MAX {
                    max as u64
                } else {
                    plausible_max(configured)
                },
                _ => plausible_max(configured),
            },
            None => plausible_max(configured),
        },
        None => plausible_max(configured),
    }
}

/// The slot cap to show, given the backend's cached status as a value.
pub fn advertised_max(cached: Option<&Json>, configured: u64) -> (max: u64)
    ensures
        max == shown_max(
            match cached {
                Some(status) => Some(status@),
                None => None,
            },
            configured,
        ),
{
    if let Some(status) = cached {
        if let Some(players) = status.get("players") {
            if let Some(max) = players.get("max") {
                if let Some(max) = max.as_u64() {
                    if max > 0 {
                        return max;
                    }
                }
            }
        }
    }
    if configured > 0 {
        configured
    } else {
        MAX_PLAYERS
    }
}

impl State {
    /// The backend's cached status as a value, if there is one and it is JSON.
    pub open spec fn cached_tree(self) -> Option<JsonTree> {
        match self.cached_status {
            Some(text) => crate::json_text::json_parse(text@),
            None => None,
        }
    }

    /// The slot cap that statuses of this state show.
    pub open spec fn max_shown(self) -> u64 {
        shown_max(self.cached_tree(), self.max_players)
    }
}

/// Slot cap for statuses that the proxy makes up itself.
pub fn display_max(state: &State) -> (max: u64)
    ensures
        max == state.max_shown(),
{
    let cached: Option<Json> = match &state.cached_status {
        Some(text) => crate::json_text::parse_json(text.as_str()),
        None => None,
    };
    advertised_max(cached.as_ref(), state.max_players)
}

/// Seconds from the last activity to `now`, or `None` if no player ever was
/// connected.
pub open spec fn idle_time(last_active: u64, now: u64) -> Option<u64> {
    if last_active == 0 {
        None
    } else if now < last_active {
        Some(0)
    } else {
        Some((now - last_active) as u64)
    }
}

/// Seconds from the last activity to `now`, or `None` if no player ever was
/// connected.
pub fn idle_secs(last_active: u64, now: u64) -> (secs: Option<u64>)
    ensures
        secs == idle_time(last_active, now),
{
    if last_active == 0 {
        None
    } else {
        Some(now.saturating_sub(last_active))
    }
}

/// Seconds since a player was last connected, or `None` if none ever was.
pub fn secs_since_active(state: &State) -> (secs: Option<u64>)
    ensures
        exists|now: SystemTime|
            secs == idle_time(state.last_active, #[trigger] crate::clock::unix_secs(now)),
{
    idle_secs(state.last_active, now_secs())
}

impl State {
    /// A fresh state: nobody connected, nothing known of the backend.
    pub fn new(
        sleep_timeout: u64,
        max_players: u64,
        connect_timeout: u64,
        join_hold: u64,
        favicon: Option<String>,
    ) -> (state: State)
        ensures
            state.active == 0,
            state.last_active == 0,
            state.sleep_timeout == sleep_timeout,
            state.max_players == max_players,
            state.connect_timeout == connect_timeout,
            state.join_hold == join_hold,
            !state.waking,
            state.cached_status is None,
            state.sessions@ == Map::<Seq<char>, u64>::empty(),
            state.last_protocol == 0,
            state.favicon == favicon,
    {
        State {
            active: 0,
            last_active: 0,
            sleep_timeout,
            max_players,
            connect_timeout,
            join_hold,
            waking: false,
            cached_status: None,
            sessions: Sessions::new(),
            last_protocol: 0,
            favicon,
        }
    }

    /// Counts a player who starts to join at `now`.
    pub fn enter(&mut self, now: u64) -> (active: usize)
        requires
            old(self).active < usize::MAX,
        ensures
            active == old(self).active + 1,
            *final(self) == (State { active, last_active: now, ..*old(self) }),
    {
        self.active = self.active + 1;
        self.last_active = now;
        self.active
    }

    /// Takes a player who left at `now` off the count; the idle time starts
    /// over.
    pub fn leave(&mut self, now: u64) -> (active: usize)
        requires
            old(self).active > 0,
        ensures
            active == old(self).active - 1,
            *final(self) == (State { active, last_active: now, ..*old(self) }),
    {
        self.active = self.active - 1;
        self.last_active = now;
        self.active
    }

    /// Claims the task of booting the backend. Returns whether the caller has to
    /// do it; it has not if somebody else is at it.
    pub fn begin_waking(&mut self) -> (mine: bool)
        ensures
            mine == !old(self).waking,
            *final(self) == (State { waking: true, ..*old(self) }),
    {
        let mine: bool = !self.waking;
        self.waking = true;
        mine
    }

    /// The boot attempt is over.
    pub fn end_waking(&mut self)
        ensures
            *final(self) == (State { waking: false, ..*old(self) }),
    {
        self.waking = false;
    }

    /// Remembers the status that the backend answered.
    pub fn cache_status(&mut self, json: String)
        ensures
            *final(self) == (State { cached_status: Some(json), ..*old(self) }),
    {
        self.cached_status = Some(json);
    }

    /// Remembers the status that the backend answered, unless there is one.
    pub fn seed_status(&mut self, json: String)
        ensures
            *final(self) == (if old(self).cached_status is None {
                State { cached_status: Some(json), ..*old(self) }
            } else {
                *old(self)
            }),
    {
        if self.cached_status.is_none() {
            self.cached_status = Some(json);
        }
    }
}

/// The slot cap shown is never 0, whatever is cached or configured.
pub proof fn law_max_never_zero(cached: Option<JsonTree>, configured: u64)
    ensures
        shown_max(cached, configured) > 0,
{
}

/// The backend's own slot cap is shown if it is known and not 0, and else the
/// configured one, or 20 in place of 0.
pub proof fn law_known_cap_is_shown(status: JsonTree, players: JsonTree, max: int, configured: u64)
    ensures
        member(status, "players"@) == Some(players) && member(players, "max"@) == Some(
            JsonTree::Integer(max),
        ) && 0 < max <= u64::MAX ==> shown_max(Some(status), configured) == max,
        member(status, "players"@) is None ==> shown_max(Some(status), configured) == shown_max(
            None,
            configured,
        ),
        member(status, "players"@) == Some(players) && !(member(players, "max"@) matches Some(
            JsonTree::Integer(n),
        ) && 0 < n <= u64::MAX) ==> shown_max(Some(status), configured) == shown_max(
            None,
            configured,
        ),
        configured > 0 ==> shown_max(None, configured) == configured,
        shown_max(None, 0) == 20,
{
}

/// The slot cap of a state is that of its cached status and its configuration.
pub proof fn law_slot_cap_of_a_state(state: &State, max: u64)
    requires
        call_ensures(display_max, (state,), max),
    ensures
        state.cached_status is None ==> max == shown_max(None, state.max_players),
        state.cached_status matches Some(text) ==> max == shown_max(
            crate::json_text::json_parse(text@),
            state.max_players,
        ),
        max > 0,
{
    law_max_never_zero(state.cached_tree(), state.max_players);
}

/// The idle time is what has passed since the last activity, and nothing if the
/// clock was set back; before the first player there is none.
pub proof fn law_idle_time_is_what_has_passed(last_active: u64, now: u64)
    ensures
        last_active == 0 ==> idle_time(last_active, now) is None,
        0 < last_active <= now ==> (idle_time(last_active, now) matches Some(idle) && idle
            + last_active == now),
        0 < last_active && now < last_active ==> idle_time(last_active, now) == Some(0u64),
{
}

/// Somebody who enters and somebody who leaves change the count by one and the
/// time of the last activity, and nothing else.
pub proof fn law_entering_and_leaving_are_counted(
    state: &mut State,
    entered: u64,
    during: usize,
    other: &mut State,
    left: u64,
    after: usize,
)
    requires
        call_ensures(State::enter, (state, entered), during),
        call_ensures(State::leave, (other, left), after),
        old(state).active < usize::MAX,
        old(other).active > 0,
    ensures
        during == old(state).active + 1,
        *final(state) == (State { active: during, last_active: entered, ..*old(state) }),
        after == old(other).active - 1,
        *final(other) == (State { active: after, last_active: left, ..*old(other) }),
{
}

/// Of all that want to boot the backend, the first one is told to until the
/// attempt is over.
pub proof fn law_waking_is_claimed_once(state: &mut State, mine: bool, done: &mut State)
    requires
        call_ensures(State::begin_waking, (state,), mine),
        call_ensures(State::end_waking, (done,), ()),
    ensures
        mine <==> !old(state).waking,
        *final(state) == (State { waking: true, ..*old(state) }),
        *final(done) == (State { waking: false, ..*old(done) }),
{
}

/// A status that is cached replaces the one before; one that is seeded does so
/// only if there was none.
pub proof fn law_status_is_remembered(
    state: &mut State,
    json: String,
    seeded: &mut State,
    seed: String,
)
    requires
        call_ensures(State::cache_status, (state, json), ()),
        call_ensures(State::seed_status, (seeded, seed), ()),
    ensures
        *final(state) == (State { cached_status: Some(json), ..*old(state) }),
        old(seeded).cached_status is None ==> *final(seeded) == (State {
            cached_status: Some(seed),
            ..*old(seeded)
        }),
        old(seeded).cached_status is Some ==> *final(seeded) == *old(seeded),
{
}

/// A fresh state knows of no player, no activity, no status, no session and no
/// protocol, and has what is configured.
pub proof fn law_fresh_state(
    sleep_timeout: u64,
    max_players: u64,
    connect_timeout: u64,
    join_hold: u64,
    favicon: Option<String>,
    state: State,
)
    requires
        call_ensures(
            State::new,
            (sleep_timeout, max_players, connect_timeout, join_hold, favicon),
            state,
        ),
    ensures
        state.active == 0 && state.last_active == 0 && state.last_protocol == 0 && !state.waking,
        state.cached_status is None,
        state.sessions@.dom().is_empty(),
        state.sleep_timeout == sleep_timeout && state.max_players == max_players,
        state.connect_timeout == connect_timeout && state.join_hold == join_hold,
        state.favicon == favicon,
{
    assert(state.sessions@.dom() =~= Set::empty());
}

/// Nobody has been idle before the first player, and after that the idle time is
/// counted to what the clock shows.
pub proof fn law_idle_time_is_read_off_the_clock(state: &State, secs: Option<u64>)
    requires
        call_ensures(secs_since_active, (state,), secs),
    ensures
        secs is None <==> state.last_active == 0,
        state.last_active > 0 ==> exists|now: SystemTime|
            secs == Some(
                if #[trigger] crate::clock::unix_secs(now) < state.last_active {
                    0
                } else {
                    (crate::clock::unix_secs(now) - state.last_active) as u64
                },
            ),
{
    let now = choose|now: SystemTime|
        secs == idle_time(state.last_active, #[trigger] crate::clock::unix_secs(now));
    law_idle_time_is_what_has_passed(state.last_active, crate::clock::unix_secs(now));
}

} // verus!

//! Answers to server-list pings.
use crate::json::{Json, JsonTree, member, set_member, takes_members, with_member};
use crate::json_text::{json_parse, json_text, parse_json, print_json, readable, MAX_DEPTH};
use crate::motd::{Motd, motd_component, motd_tree};
use crate::state::{State, display_max, text_view};
use vstd::prelude::*;

verus! {

/// A status that the proxy makes up itself.
pub open spec fn status_tree(
    name: Seq<char>,
    protocol: i32,
    max: u64,
    online: nat,
    description: JsonTree,
    favicon: Option<Seq<char>>,
) -> JsonTree {
    let version = Map::empty().insert("name"@, JsonTree::Text(name)).insert(
        "protocol"@,
        JsonTree::Integer(protocol as int),
    );
    let players = Map::empty().insert("max"@, JsonTree::Integer(max as int)).insert(
        "online"@,
        JsonTree::Integer(online as int),
    ).insert("sample"@, JsonTree::Array(Seq::empty()));
    let status = Map::empty().insert("version"@, JsonTree::Object(version)).insert(
        "players"@,
        JsonTree::Object(players),
    ).insert("description"@, description);
    match favicon {
        Some(icon) => JsonTree::Object(status.insert("favicon"@, JsonTree::Text(icon))),
        None => JsonTree::Object(status),
    }
}

/// The component of a MOTD.
pub open spec fn description(motd: Motd) -> JsonTree {
    motd_tree(motd.text(), motd.shades())
}

/// The component of a MOTD that may be configured.
pub open spec fn optional_description(motd: Option<&Motd>) -> Option<JsonTree> {
    match motd {
        Some(m) => Some(description(*m)),
        None => None,
    }
}

/// A text that may be there.
pub open spec fn str_view(text: Option<&str>) -> Option<Seq<char>> {
    match text {
        Some(t) => Some(t@),
        None => None,
    }
}

/// Makes up a status with `description` for its MOTD.
pub fn build_status(
    name: &str,
    protocol: i32,
    max: u64,
    online: usize,
    description: Json,
    favicon: Option<&str>,
) -> (status: Json)
    ensures
        status@ == status_tree(
            name@,
            protocol,
            max,
            online as nat,
            description@,
            str_view(favicon),
        ),
{
    let mut version: Vec<(String, Json)> = Vec::new();
    set_member(&mut version, "name", Json::Text(name.to_owned()));
    set_member(&mut version, "protocol", Json::Signed(protocol as i64));
    let mut players: Vec<(String, Json)> = Vec::new();
    set_member(&mut players, "max", Json::Unsigned(max));
    set_member(&mut players, "online", Json::Unsigned(online as u64));
    set_member(&mut players, "sample", Json::Array(Vec::new()));
    let mut status: Vec<(String, Json)> = Vec::new();
    set_member(&mut status, "version", Json::Object(version));
    set_member(&mut status, "players", Json::Object(players));
    set_member(&mut status, "description", description);
    if let Some(icon) = favicon {
        set_member(&mut status, "favicon", Json::Text(icon.to_owned()));
    }
    Json::Object(status)
}

/// A status that the proxy makes up can be read back if its MOTD can, one level
/// further down.
proof fn lemma_status_readable(
    name: Seq<char>,
    protocol: i32,
    max: u64,
    online: nat,
    description: JsonTree,
    favicon: Option<Seq<char>>,
)
    requires
        readable(description, (MAX_DEPTH - 1) as nat),
    ensures
        readable(
            status_tree(name, protocol, max, online, description, favicon),
            MAX_DEPTH as nat,
        ),
{
    let status = status_tree(name, protocol, max, online, description, favicon);
    let members = status->Object_0;
    assert forall|key: Seq<char>| members.contains_key(key) implies readable(
        #[trigger] members[key],
        (MAX_DEPTH - 1) as nat,
    ) by {
        if key == "description"@ {
        } else if key == "favicon"@ && favicon is Some {
        } else {
            let inner = members[key]->Object_0;
            assert forall|field: Seq<char>| inner.contains_key(field) implies readable(
                #[trigger] inner[field],
                (MAX_DEPTH - 2) as nat,
            ) by {}
        }
    }
}

/// The "sleeping" status. It echoes the client's protocol version, so that the
/// server never shows as incompatible, and it advertises `max` slots.
pub fn offline_status_json(motd: &Motd, protocol: i32, max: u64, favicon: Option<&str>) -> (json:
    String)
    ensures
        json@ == json_text(
            status_tree("sleeping"@, protocol, max, 0, description(*motd), str_view(favicon)),
        ),
        readable(description(*motd), (MAX_DEPTH - 1) as nat) ==> json_parse(json@) == Some(
            status_tree("sleeping"@, protocol, max, 0, description(*motd), str_view(favicon)),
        ),
{
    proof {
        if readable(description(*motd), (MAX_DEPTH - 1) as nat) {
            lemma_status_readable(
                "sleeping"@,
                protocol,
                max,
                0,
                description(*motd),
                str_view(favicon),
            );
        }
    }
    let component = motd_component(motd);
    print_json(build_status("sleeping", protocol, max, 0, component, favicon))
}

/// An "online" status made from configuration alone, for when nothing of the
/// backend has been cached.
pub fn synth_online_json(
    motd: &Motd,
    max: u64,
    online: usize,
    protocol: i32,
    favicon: Option<&str>,
) -> (json: String)
    ensures
        json@ == json_text(
            status_tree(
                "online"@,
                protocol,
                max,
                online as nat,
                description(*motd),
                str_view(favicon),
            ),
        ),
        readable(description(*motd), (MAX_DEPTH - 1) as nat) ==> json_parse(json@) == Some(
            status_tree(
                "online"@,
                protocol,
                max,
                online as nat,
                description(*motd),
                str_view(favicon),
            ),
        ),
{
    proof {
        if readable(description(*motd), (MAX_DEPTH - 1) as nat) {
            lemma_status_readable(
                "online"@,
                protocol,
                max,
                online as nat,
                description(*motd),
                str_view(favicon),
            );
        }
    }
    let component = motd_component(motd);
    print_json(build_status("online", protocol, max, online, component, favicon))
}

/// Whether a backend's status can be adapted: where a member is to be set, there
/// is an object or nothing.
pub open spec fn adaptable(status: JsonTree, describe: bool) -> bool {
    &&& describe ==> takes_members(status)
    &&& member(status, "players"@) matches Some(players) ==> takes_members(players)
}

/// A backend's status with another MOTD, if one is given, and with `online`
/// players, if it counts players at all.
pub open spec fn adapted(
    status: JsonTree,
    description: Option<JsonTree>,
    online: nat,
) -> JsonTree {
    let described = match description {
        Some(component) => with_member(status, "description"@, component),
        None => status,
    };
    match member(described, "players"@) {
        Some(players) => with_member(
            described,
            "players"@,
            with_member(players, "online"@, JsonTree::Integer(online as int)),
        ),
        None => described,
    }
}

/// Whether [`adapt_status`] can take a status.
pub fn can_adapt(status: &Json, describe: bool) -> (can: bool)
    ensures
        can == adaptable(status@, describe),
{
    if describe && !status.can_take_members() {
        return false;
    }
    match status.get("players") {
        Some(players) => players.can_take_members(),
        None => true,
    }
}

/// Setting the MOTD leaves the players alone.
proof fn lemma_describe_keeps_players(status: JsonTree, component: JsonTree)
    requires
        takes_members(status),
    ensures
        member(with_member(status, "description"@, component), "players"@) == member(
            status,
            "players"@,
        ),
{
    reveal_strlit("description");
    reveal_strlit("players");
    assert("description"@.len() != "players"@.len());
}

/// Puts another MOTD, if one is given, and the player count into a backend's
/// status.
pub fn adapt_status(status: Json, description: Option<Json>, online: usize) -> (changed: Json)
    requires
        adaptable(status@, description is Some),
    ensures
        changed@ == adapted(
            status@,
            match description {
                Some(component) => Some(component@),
                None => None,
            },
            online as nat,
        ),
{
    let described: Json = match description {
        Some(component) => {
            proof {
                lemma_describe_keeps_players(status@, component@);
            }
            status.with("description", component)
        },
        None => status,
    };
    described.with_inner("players", "online", Json::Unsigned(online as u64))
}

/// Whether [`build_online_json`] can take a backend's status text.
pub open spec fn adaptable_text(backend_json: Seq<char>, describe: bool) -> bool {
    json_parse(backend_json) matches Some(status) ==> adaptable(status, describe)
}

/// The status to show for a backend's status text. Text that is no JSON is
/// passed on as it is.
pub open spec fn online_text(
    backend_json: Seq<char>,
    description: Option<JsonTree>,
    online: nat,
) -> Seq<char> {
    match json_parse(backend_json) {
        Some(status) => json_text(adapted(status, description, online)),
        None => backend_json,
    }
}

/// Builds an online status from the backend's own: its MOTD is replaced if
/// `motd_online` is set, and its player count is `online`. Falls back to the raw
/// text if it cannot be parsed.
pub fn build_online_json(backend_json: &str, motd_online: Option<&Motd>, online: usize) -> (json:
    String)
    requires
        adaptable_text(backend_json@, motd_online is Some),
    ensures
        json@ == online_text(backend_json@, optional_description(motd_online), online as nat),
        json_parse(backend_json@) matches Some(status) ==> ({
            let shown = adapted(status, optional_description(motd_online), online as nat);
            readable(shown, MAX_DEPTH as nat) ==> json_parse(json@) == Some(shown)
        }),
{
    match parse_json(backend_json) {
        Some(status) => {
            let component: Option<Json> = match motd_online {
                Some(motd) => Some(motd_component(motd)),
                None => None,
            };
            print_json(adapt_status(status, component, online))
        },
        None => backend_json.to_owned(),
    }
}

/// Whether the backend's status text can be adapted; see
/// [`build_online_json`].
pub fn can_adapt_text(backend_json: &str, describe: bool) -> (can: bool)
    ensures
        can == adaptable_text(backend_json@, describe),
{
    match parse_json(backend_json) {
        Some(status) => can_adapt(&status, describe),
        None => true,
    }
}

/// Like [`build_online_json`], for any text: `None` if the backend's status
/// has something else where an object belongs.
pub fn checked_online_json(
    backend_json: &str,
    motd_online: Option<&Motd>,
    online: usize,
) -> (json: Option<String>)
    ensures
        match json {
            Some(text) => adaptable_text(backend_json@, motd_online is Some) && text@
                == online_text(
                backend_json@,
                optional_description(motd_online),
                online as nat,
            ),
            None => !adaptable_text(backend_json@, motd_online is Some),
        },
{
    if can_adapt_text(backend_json, motd_online.is_some()) {
        Some(build_online_json(backend_json, motd_online, online))
    } else {
        None
    }
}

/// The status to show without asking the backend: from its cached status, else
/// made up from the online MOTD, else the sleeping one.
pub open spec fn unprobed_text(
    cached: Option<Seq<char>>,
    online_description: Option<JsonTree>,
    online: nat,
    max: u64,
    protocol: i32,
    offline_description: JsonTree,
    favicon: Option<Seq<char>>,
) -> Seq<char> {
    match cached {
        Some(text) => online_text(text, online_description, online),
        None => match online_description {
            Some(component) => json_text(
                status_tree("online"@, protocol, max, online, component, favicon),
            ),
            None => json_text(
                status_tree("sleeping"@, protocol, max, 0, offline_description, favicon),
            ),
        },
    }
}

/// Whether a cached status, if there is one, can be adapted.
pub open spec fn adaptable_cache(cached: Option<Seq<char>>, describe: bool) -> bool {
    cached matches Some(text) ==> adaptable_text(text, describe)
}

/// The icon of a state.
fn icon(state: &State) -> (favicon: Option<&str>)
    ensures
        str_view(favicon) == text_view(state.favicon),
{
    match &state.favicon {
        Some(text) => Some(text.as_str()),
        None => None,
    }
}

/// Serves a status without asking the backend. `online` is the number of players
/// to show.
pub fn online_or_offline_json(
    cached: Option<&str>,
    motd_online: Option<&Motd>,
    online: usize,
    state: &State,
    protocol: i32,
    offline_motd: &Motd,
) -> (json: String)
    requires
        adaptable_cache(str_view(cached), motd_online is Some),
    ensures
        json@ == unprobed_text(
            str_view(cached),
            optional_description(motd_online),
            online as nat,
            state.max_shown(),
            protocol,
            description(*offline_motd),
            text_view(state.favicon),
        ),
{
    if let Some(backend_json) = cached {
        build_online_json(backend_json, motd_online, online)
    } else if let Some(motd) = motd_online {
        synth_online_json(motd, display_max(state), online, protocol, icon(state))
    } else {
        offline_status_json(offline_motd, protocol, display_max(state), icon(state))
    }
}

/// How a status request is answered.
#[derive(Debug, PartialEq)]
pub enum StatusReply<S> {
    /// With this JSON.
    Json(S),
    /// Not before the backend has been asked for its status.
    Probe,
    /// Not at all: the backend's status has something else where an object
    /// belongs.
    Broken,
}

impl View for StatusReply<String> {
    type V = StatusReply<Seq<char>>;

    open spec fn view(&self) -> StatusReply<Seq<char>> {
        match self {
            StatusReply::Json(json) => StatusReply::Json(json@),
            StatusReply::Probe => StatusReply::Probe,
            StatusReply::Broken => StatusReply::Broken,
        }
    }
}

/// The answer from a cached status, or without one from configuration.
pub open spec fn unprobed_reply(
    state: State,
    cached: Option<Seq<char>>,
    online: nat,
    protocol: i32,
    motd: Motd,
    motd_online: Option<&Motd>,
) -> StatusReply<Seq<char>> {
    if adaptable_cache(cached, motd_online is Some) {
        StatusReply::Json(
            unprobed_text(
                cached,
                optional_description(motd_online),
                online,
                state.max_shown(),
                protocol,
                description(motd),
                text_view(state.favicon),
            ),
        )
    } else {
        StatusReply::Broken
    }
}

/// Whether the last player left less than `sleep_timeout` seconds before `now`.
pub open spec fn within_window(state: State, now: u64) -> bool {
    crate::state::idle_time(state.last_active, now) matches Some(idle) && idle
        < state.sleep_timeout
}

/// The answer to a status request at `now`. While players are online it comes
/// from the cached status, for which the backend is asked if there is none. When
/// nobody is, the backend is left alone: for a while the online MOTD is shown,
/// and then the sleeping one.
pub open spec fn status_reply(
    state: State,
    now: u64,
    protocol: i32,
    motd: Motd,
    motd_online: Option<&Motd>,
) -> StatusReply<Seq<char>> {
    let cached = text_view(state.cached_status);
    if state.active > 0 {
        if cached is None {
            StatusReply::Probe
        } else {
            unprobed_reply(state, cached, state.active as nat, protocol, motd, motd_online)
        }
    } else if within_window(state, now) {
        unprobed_reply(state, cached, 0, protocol, motd, motd_online)
    } else {
        StatusReply::Json(
            json_text(
                status_tree(
                    "sleeping"@,
                    protocol,
                    state.max_shown(),
                    0,
                    description(motd),
                    text_view(state.favicon),
                ),
            ),
        )
    }
}

/// Answers from a cached status, or without one from configuration.
pub fn answer_unprobed(
    state: &State,
    cached: Option<&str>,
    online: usize,
    protocol: i32,
    motd: &Motd,
    motd_online: Option<&Motd>,
) -> (reply: StatusReply<String>)
    ensures
        reply@ == unprobed_reply(
            *state,
            str_view(cached),
            online as nat,
            protocol,
            *motd,
            motd_online,
        ),
{
    let usable: bool = match cached {
        Some(text) => can_adapt_text(text, motd_online.is_some()),
        None => true,
    };
    if usable {
        StatusReply::Json(
            online_or_offline_json(cached, motd_online, online, state, protocol, motd),
        )
    } else {
        StatusReply::Broken
    }
}

/// Answers a status request at `now`.
pub fn answer_status(
    state: &State,
    now: u64,
    protocol: i32,
    motd: &Motd,
    motd_online: Option<&Motd>,
) -> (reply: StatusReply<String>)
    ensures
        reply@ == status_reply(*state, now, protocol, *motd, motd_online),
{
    let cached: Option<&str> = match &state.cached_status {
        Some(text) => Some(text.as_str()),
        None => None,
    };
    assert(str_view(cached) == text_view(state.cached_status));
    let in_window: bool = match crate::state::idle_secs(state.last_active, now) {
        Some(idle) => idle < state.sleep_timeout,
        None => false,
    };
    if state.active > 0 {
        if cached.is_none() {
            StatusReply::Probe
        } else {
            answer_unprobed(state, cached, state.active, protocol, motd, motd_online)
        }
    } else if in_window {
        answer_unprobed(state, cached, 0, protocol, motd, motd_online)
    } else {
        StatusReply::Json(offline_status_json(motd, protocol, display_max(state), icon(state)))
    }
}

/// A ping never disturbs a sleeping backend: while no player is online, no
/// status request makes the proxy ask it.
pub proof fn law_idle_ping_stays_local(
    state: State,
    now: u64,
    protocol: i32,
    motd: Motd,
    motd_online: Option<&Motd>,
)
    requires
        state.active == 0,
    ensures
        !(status_reply(state, now, protocol, motd, motd_online) is Probe),
{
}

/// A ping is answered at once while nobody is online: after the sleep timeout
/// whatever is cached, and before it with nothing cached or with a status in the
/// form a server sends.
pub proof fn law_idle_ping_is_answered(
    state: State,
    now: u64,
    protocol: i32,
    motd: Motd,
    motd_online: Option<&Motd>,
)
    requires
        state.active == 0,
        within_window(state, now) ==> adaptable_cache(
            text_view(state.cached_status),
            motd_online is Some,
        ),
    ensures
        status_reply(state, now, protocol, motd, motd_online) is Json,
{
}

/// The backend is asked at most until it has answered once: with a cached status
/// no ping reaches it.
pub proof fn law_cache_spares_backend(
    state: State,
    now: u64,
    protocol: i32,
    motd: Motd,
    motd_online: Option<&Motd>,
)
    requires
        state.cached_status is Some,
    ensures
        !(status_reply(state, now, protocol, motd, motd_online) is Probe),
{
}

/// After the sleep timeout, before the first player, and always if the timeout
/// is 0, every ping while nobody is online gets the sleeping status.
pub proof fn law_idle_past_window_is_sleeping(
    state: State,
    now: u64,
    protocol: i32,
    motd: Motd,
    motd_online: Option<&Motd>,
)
    requires
        state.active == 0,
        state.last_active == 0 || state.sleep_timeout == 0 || now - state.last_active
            >= state.sleep_timeout,
    ensures
        status_reply(state, now, protocol, motd, motd_online) == StatusReply::Json(
            json_text(
                status_tree(
                    "sleeping"@,
                    protocol,
                    state.max_shown(),
                    0,
                    description(motd),
                    text_view(state.favicon),
                ),
            ),
        ),
{
}

/// For the sleep timeout after the last player left, a ping shows the online
/// MOTD with no players, from what is cached or configured. A clock that was set
/// back does not end that time early.
pub proof fn law_window_shows_online(
    state: State,
    now: u64,
    protocol: i32,
    motd: Motd,
    motd_online: Option<&Motd>,
)
    requires
        state.active == 0,
        0 < state.last_active,
        0 < state.sleep_timeout,
        now - state.last_active < state.sleep_timeout,
    ensures
        status_reply(state, now, protocol, motd, motd_online) == unprobed_reply(
            state,
            text_view(state.cached_status),
            0,
            protocol,
            motd,
            motd_online,
        ),
{
}

/// The status that the proxy makes up carries the client's own protocol version,
/// the given number of players and the given slot cap.
pub proof fn law_status_fields(
    name: Seq<char>,
    protocol: i32,
    max: u64,
    online: nat,
    description: JsonTree,
    favicon: Option<Seq<char>>,
)
    ensures
        ({
            let status = status_tree(name, protocol, max, online, description, favicon);
            &&& member(status, "version"@) matches Some(version) && member(
                version,
                "protocol"@,
            ) == Some(JsonTree::Integer(protocol as int))
            &&& member(status, "players"@) matches Some(players) && member(players, "online"@)
                == Some(JsonTree::Integer(online as int)) && member(players, "max"@) == Some(
                JsonTree::Integer(max as int),
            )
            &&& member(status, "description"@) == Some(description)
        }),
{
    reveal_strlit("name");
    reveal_strlit("protocol");
    reveal_strlit("max");
    reveal_strlit("online");
    reveal_strlit("sample");
    reveal_strlit("version");
    reveal_strlit("players");
    reveal_strlit("description");
    reveal_strlit("favicon");
    assert("max"@.len() == 3 && "online"@.len() == 6 && "sample"@.len() == 6);
    assert("online"@[0] != "sample"@[0]);
    assert("version"@.len() == 7 && "players"@.len() == 7 && "favicon"@.len() == 7);
    assert("version"@[0] != "players"@[0] && "version"@[0] != "favicon"@[0] && "players"@[0]
        != "favicon"@[0]);
    assert("description"@.len() == 11);
}

/// A backend's status that counts players shows the proxy's own count, and
/// nothing else of it but the MOTD changes.
pub proof fn law_adapted_status(
    status: JsonTree,
    description: Option<JsonTree>,
    online: nat,
    name: Seq<char>,
)
    requires
        adaptable(status, description is Some),
    ensures
        ({
            let shown = adapted(status, description, online);
            &&& member(status, "players"@) is Some ==> (member(
                shown,
                "players"@,
            ) matches Some(players) && member(players, "online"@) == Some(
                JsonTree::Integer(online as int),
            ))
            &&& description matches Some(component) ==> member(shown, "description"@) == Some(
                component,
            )
            &&& name != "players"@ && (name != "description"@ || description is None) ==> member(
                shown,
                name,
            ) == member(status, name)
        }),
{
    reveal_strlit("description");
    reveal_strlit("players");
    assert("description"@.len() != "players"@.len());
}

/// A text that may be there is there exactly if the value is.
pub proof fn law_optional_texts(text: Option<String>, borrowed: Option<&str>)
    ensures
        text is None ==> text_view(text) is None,
        text matches Some(t) ==> text_view(text) == Some(t@),
        borrowed is None ==> str_view(borrowed) is None,
        borrowed matches Some(t) ==> str_view(borrowed) == Some(t@),
{
}

/// The MOTD of a status is the component of the configured text, if there is one.
pub proof fn law_descriptions(motd: &Motd)
    ensures
        description(*motd) == motd_tree(motd.text(), motd.shades()),
        optional_description(Some(motd)) == Some(motd_tree(motd.text(), motd.shades())),
        optional_description(None) is None,
{
}

/// A status that the proxy makes up has a version with a name and a protocol,
/// players with a cap, a count and an empty sample, the MOTD, the icon if there
/// is one, and nothing else.
pub proof fn law_made_up_status_is_complete(
    name: Seq<char>,
    protocol: i32,
    max: u64,
    online: nat,
    description: JsonTree,
    favicon: Option<Seq<char>>,
    other: Seq<char>,
)
    ensures
        ({
            let status = status_tree(name, protocol, max, online, description, favicon);
            &&& member(status, "version"@) matches Some(version)
            &&& member(version, "name"@) == Some(JsonTree::Text(name))
            &&& member(version, "protocol"@) == Some(JsonTree::Integer(protocol as int))
            &&& other != "name"@ && other != "protocol"@ ==> member(version, other) is None
            &&& member(status, "players"@) matches Some(players)
            &&& member(players, "max"@) == Some(JsonTree::Integer(max as int))
            &&& member(players, "online"@) == Some(JsonTree::Integer(online as int))
            &&& member(players, "sample"@) == Some(JsonTree::Array(Seq::empty()))
            &&& other != "max"@ && other != "online"@ && other != "sample"@ ==> member(
                players,
                other,
            ) is None
            &&& member(status, "description"@) == Some(description)
            &&& member(status, "favicon"@) == (match favicon {
                Some(icon) => Some(JsonTree::Text(icon)),
                None => None,
            })
            &&& other != "version"@ && other != "players"@ && other != "description"@ && other
                != "favicon"@ ==> member(status, other) is None
        }),
{
    reveal_strlit("name");
    reveal_strlit("protocol");
    reveal_strlit("max");
    reveal_strlit("online");
    reveal_strlit("sample");
    reveal_strlit("version");
    reveal_strlit("players");
    reveal_strlit("description");
    reveal_strlit("favicon");
    assert("name"@.len() == 4 && "protocol"@.len() == 8);
    assert("max"@.len() == 3 && "online"@.len() == 6 && "sample"@.len() == 6);
    assert("online"@[0] != "sample"@[0]);
    assert("version"@.len() == 7 && "players"@.len() == 7 && "favicon"@.len() == 7);
    assert("version"@[0] != "players"@[0] && "version"@[0] != "favicon"@[0] && "players"@[0]
        != "favicon"@[0]);
    assert("description"@.len() == 11);
}

/// A backend's status keeps all it says of its players but their number; one
/// that does not speak of players does not start to.
pub proof fn law_adapted_players(
    status: JsonTree,
    description: Option<JsonTree>,
    online: nat,
    field: Seq<char>,
)
    requires
        adaptable(status, description is Some),
    ensures
        ({
            let shown = adapted(status, description, online);
            &&& member(status, "players"@) is None ==> member(shown, "players"@) is None
            &&& member(status, "players"@) matches Some(before) ==> (member(
                shown,
                "players"@,
            ) matches Some(after) && member(after, "online"@) == Some(
                JsonTree::Integer(online as int),
            ) && (field != "online"@ ==> member(after, field) == member(before, field)))
            &&& description is None && member(status, "players"@) is None ==> shown == status
        }),
{
    reveal_strlit("description");
    reveal_strlit("players");
    assert("description"@.len() != "players"@.len());
}

/// A status can be adapted unless a MOTD or a count has to be set on something
/// that is neither an object nor nothing.
pub proof fn law_adaptable_statuses(status: JsonTree, describe: bool)
    ensures
        adaptable(status, describe) <==> {
            &&& describe ==> status is Object || status is Null
            &&& member(status, "players"@) is Some ==> {
                ||| member(status, "players"@)->0 is Object
                ||| member(status, "players"@)->0 is Null
            }
        },
{
}

/// A backend's status text is shown adapted if it is JSON, and as it is
/// otherwise.
pub proof fn law_backend_status_is_shown(
    backend_json: Seq<char>,
    description: Option<JsonTree>,
    online: nat,
    describe: bool,
)
    ensures
        json_parse(backend_json) matches Some(status) ==> online_text(
            backend_json,
            description,
            online,
        ) == json_text(adapted(status, description, online)) && (adaptable_text(
            backend_json,
            describe,
        ) <==> adaptable(status, describe)),
        json_parse(backend_json) is None ==> online_text(backend_json, description, online)
            == backend_json && adaptable_text(backend_json, describe),
{
}

/// A status that can be shown is shown with the given number of players and the
/// online MOTD, and one that cannot is refused.
pub proof fn law_checked_status(
    backend_json: &str,
    motd_online: Option<&Motd>,
    online: usize,
    json: Option<String>,
)
    requires
        call_ensures(checked_online_json, (backend_json, motd_online, online), json),
    ensures
        json is Some <==> adaptable_text(backend_json@, motd_online is Some),
        json matches Some(text) ==> text@ == online_text(
            backend_json@,
            optional_description(motd_online),
            online as nat,
        ),
{
}

/// While players are on and a status in the form a server sends is cached, a
/// ping shows that status with the proxy's own count and, if one is configured,
/// the online MOTD.
pub proof fn law_players_are_shown_from_the_cache(
    state: &State,
    now: u64,
    protocol: i32,
    motd: &Motd,
    motd_online: Option<&Motd>,
    reply: StatusReply<String>,
    text: String,
)
    requires
        call_ensures(answer_status, (state, now, protocol, motd, motd_online), reply),
        state.active > 0,
        state.cached_status == Some(text),
        adaptable_text(text@, motd_online is Some),
    ensures
        reply matches StatusReply::Json(json) && json@ == online_text(
            text@,
            optional_description(motd_online),
            state.active as nat,
        ),
{
}

/// While players are on and nothing is cached, the backend is asked.
pub proof fn law_unknown_status_is_asked_for(
    state: &State,
    now: u64,
    protocol: i32,
    motd: &Motd,
    motd_online: Option<&Motd>,
    reply: StatusReply<String>,
)
    requires
        call_ensures(answer_status, (state, now, protocol, motd, motd_online), reply),
    ensures
        reply is Probe <==> state.active > 0 && state.cached_status is None,
{
}

/// While nobody is on but the last player left less than the sleep timeout ago,
/// a ping shows no players: in the cached status with the online MOTD, without
/// one in a made-up online status, and without an online MOTD in the sleeping
/// one.
pub proof fn law_idle_window_is_shown(
    state: &State,
    now: u64,
    protocol: i32,
    motd: &Motd,
    motd_online: Option<&Motd>,
    reply: StatusReply<String>,
)
    requires
        call_ensures(answer_status, (state, now, protocol, motd, motd_online), reply),
        state.active == 0,
        state.last_active > 0,
        state.sleep_timeout > 0,
        now - state.last_active < state.sleep_timeout,
    ensures
        state.cached_status matches Some(text) ==> (adaptable_text(text@, motd_online is Some) ==> (
        reply matches StatusReply::Json(json) && json@ == online_text(
            text@,
            optional_description(motd_online),
            0,
        ))),
        state.cached_status is None ==> (motd_online matches Some(online) ==> (
        reply matches StatusReply::Json(json) && json@ == json_text(
            status_tree(
                "online"@,
                protocol,
                state.max_shown(),
                0,
                description(*online),
                text_view(state.favicon),
            ),
        ))),
        state.cached_status is None && motd_online is None ==> (
        reply matches StatusReply::Json(json) && json@ == json_text(
            status_tree(
                "sleeping"@,
                protocol,
                state.max_shown(),
                0,
                description(*motd),
                text_view(state.favicon),
            ),
        )),
{
}

/// While nobody is on and the window is over, or there never was one, a ping
/// shows the sleeping status with the client's protocol and the configured MOTD.
pub proof fn law_sleeping_is_shown(
    state: &State,
    now: u64,
    protocol: i32,
    motd: &Motd,
    motd_online: Option<&Motd>,
    reply: StatusReply<String>,
)
    requires
        call_ensures(answer_status, (state, now, protocol, motd, motd_online), reply),
        state.active == 0,
        state.last_active == 0 || state.sleep_timeout == 0 || now - state.last_active
            >= state.sleep_timeout,
    ensures
        reply matches StatusReply::Json(json) && json@ == json_text(
            status_tree(
                "sleeping"@,
                protocol,
                state.max_shown(),
                0,
                description(*motd),
                text_view(state.favicon),
            ),
        ),
{
}

/// A request goes unanswered only for a cached status that cannot be shown.
pub proof fn law_only_broken_statuses_go_unanswered(
    state: &State,
    now: u64,
    protocol: i32,
    motd: &Motd,
    motd_online: Option<&Motd>,
    reply: StatusReply<String>,
)
    requires
        call_ensures(answer_status, (state, now, protocol, motd, motd_online), reply),
    ensures
        reply is Broken ==> state.cached_status is Some && !adaptable_text(
            state.cached_status->0@,
            motd_online is Some,
        ),
{
}

/// What the backend answered, or did not, is shown with the given number of
/// players: its status with the online MOTD, without one a made-up online status,
/// and without an online MOTD the sleeping one.
pub proof fn law_probe_result_is_shown(
    state: &State,
    cached: Option<&str>,
    online: usize,
    protocol: i32,
    motd: &Motd,
    motd_online: Option<&Motd>,
    reply: StatusReply<String>,
)
    requires
        call_ensures(answer_unprobed, (state, cached, online, protocol, motd, motd_online), reply),
    ensures
        cached matches Some(text) ==> (adaptable_text(text@, motd_online is Some) ==> (
        reply matches StatusReply::Json(json) && json@ == online_text(
            text@,
            optional_description(motd_online),
            online as nat,
        ))) && (!adaptable_text(text@, motd_online is Some) ==> reply is Broken),
        cached is None ==> (motd_online matches Some(shown) ==> (
        reply matches StatusReply::Json(json) && json@ == json_text(
            status_tree(
                "online"@,
                protocol,
                state.max_shown(),
                online as nat,
                description(*shown),
                text_view(state.favicon),
            ),
        ))),
        cached is None && motd_online is None ==> (reply matches StatusReply::Json(json) && json@
            == json_text(
            status_tree(
                "sleeping"@,
                protocol,
                state.max_shown(),
                0,
                description(*motd),
                text_view(state.favicon),
            ),
        )),
{
}

} // verus!

use sleepproxy::clock::{now_secs, secs_at};
use sleepproxy::config::{Config, Variables};
use sleepproxy::json::{set_member, Json};
use sleepproxy::json_text::{parse_json, print_json};
use sleepproxy::motd::Motd;
use sleepproxy::state::{advertised_max, display_max, idle_secs, secs_since_active, State};
use sleepproxy::status::{
    adapt_status, answer_status, answer_unprobed, build_online_json, build_status, can_adapt,
    can_adapt_text, checked_online_json, offline_status_json, online_or_offline_json,
    synth_online_json, StatusReply,
};
use std::time::{Duration, SystemTime, UNIX_EPOCH};

const LIVE: &str = "{\"version\":{\"name\":\"Paper\",\"protocol\":767},\
    \"players\":{\"max\":50,\"online\":9},\"description\":\"Live\"}";

fn plain(text: &str) -> Motd {
    Motd::new(text.to_string(), vec![]).unwrap()
}

fn fresh() -> State {
    State::new(600, 20, 120, 90, None)
}

fn unset() -> Variables {
    Variables {
        port: None,
        motd: None,
        motd_online: None,
        sleep_timeout_secs: None,
        connect_timeout_secs: None,
        join_hold_secs: None,
        max_players: None,
        startup_message: None,
        favicon: None,
        max_connections: None,
    }
}

#[test]
fn json_is_read_and_printed() {
    for (text, printed) in [
        ("null", "null"),
        (" true ", "true"),
        ("0", "0"),
        ("-3", "-3"),
        ("18446744073709551615", "18446744073709551615"),
        ("-9223372036854775808", "-9223372036854775808"),
        ("1.5", "1.5"),
        ("1e3", "1000.0"),
        ("-0.25", "-0.25"),
        ("\"a\\u00e9\\n\\\"\"", "\"a\u{e9}\\n\\\"\""),
        ("[1, [], {}]", "[1,[],{}]"),
        ("{\"b\":1,\"a\":2,\"b\":3}", "{\"a\":2,\"b\":3}"),
    ] {
        assert_eq!(print_json(parse_json(text).unwrap()), printed);
    }
    for text in ["", "nul", "{", "[1,]", "{\"a\"}", "1 2", "'a'"] {
        assert_eq!(parse_json(text), None);
    }
}

#[test]
fn printed_json_is_read_back() {
    let text = "{\"a\":[null,true,-1,18446744073709551615,\"\\u0000\\\"\u{1F600}\"],\"b\":{}}";
    let printed = print_json(parse_json(text).unwrap());
    assert_eq!(parse_json(&printed), parse_json(text));
    let deep = format!("{}{}", "[".repeat(127), "]".repeat(127));
    assert_eq!(print_json(parse_json(&deep).unwrap()), deep);
    let deeper = format!("[{}]", deep);
    assert_eq!(parse_json(&deeper), None);
    let status = parse_json(&offline_status_json(&plain("&aZzz"), -5, 20, None)).unwrap();
    assert_eq!(status.get("version").unwrap().get("protocol"), Some(&Json::Signed(-5)));
}

#[test]
fn json_numbers_keep_their_kind() {
    assert_eq!(parse_json("7"), Some(Json::Unsigned(7)));
    assert_eq!(parse_json("-7"), Some(Json::Signed(-7)));
    assert_eq!(parse_json("7").unwrap().as_u64(), Some(7));
    assert_eq!(parse_json("-7").unwrap().as_u64(), None);
    assert_eq!(parse_json("7.0").unwrap().as_u64(), None);
    assert_eq!(parse_json("\"7\"").unwrap().as_u64(), None);
    assert_eq!(Json::Signed(7).as_u64(), Some(7));
    assert_eq!(parse_json("18446744073709551615").unwrap().as_u64(), Some(u64::MAX));
    assert_eq!(parse_json("18446744073709551616").unwrap().as_u64(), None);
}

#[test]
fn json_members_are_found_and_set() {
    let json = parse_json("{\"a\":1,\"b\":{\"c\":2}}").unwrap();
    assert_eq!(json.get("a"), Some(&Json::Unsigned(1)));
    assert_eq!(json.get("c"), None);
    assert_eq!(Json::Null.get("a"), None);
    let json = json.with("a", Json::Bool(true)).with_inner("b", "d", Json::Null);
    assert_eq!(print_json(json), "{\"a\":true,\"b\":{\"c\":2,\"d\":null}}");
    assert_eq!(print_json(Json::Null.with("x", Json::Unsigned(1))), "{\"x\":1}");
    let mut entries: Vec<(String, Json)> = Vec::new();
    set_member(&mut entries, "k", Json::Unsigned(1));
    set_member(&mut entries, "k", Json::Unsigned(2));
    assert_eq!(print_json(Json::Object(entries)), "{\"k\":2}");
}

#[test]
fn sleeping_status_echoes_the_protocol() {
    assert_eq!(
        offline_status_json(&plain("Zzz"), 765, 20, None),
        "{\"description\":{\"extra\":[{\"text\":\"Zzz\"}],\"text\":\"\"},\
         \"players\":{\"max\":20,\"online\":0,\"sample\":[]},\
         \"version\":{\"name\":\"sleeping\",\"protocol\":765}}"
    );
    assert_eq!(
        offline_status_json(&plain("{\"text\":\"J\"}"), -1, 0, Some("data:image/png;base64,AA")),
        "{\"description\":{\"text\":\"J\"},\"favicon\":\"data:image/png;base64,AA\",\
         \"players\":{\"max\":0,\"online\":0,\"sample\":[]},\
         \"version\":{\"name\":\"sleeping\",\"protocol\":-1}}"
    );
}

#[test]
fn online_status_can_be_made_up() {
    let expected = "{\"description\":{\"extra\":[{\"text\":\"Up\"}],\"text\":\"\"},\
         \"players\":{\"max\":30,\"online\":4,\"sample\":[]},\
         \"version\":{\"name\":\"online\",\"protocol\":47}}";
    assert_eq!(synth_online_json(&plain("Up"), 30, 4, 47, None), expected);
    let made = build_status("online", 47, 30, 4, Json::Text("Up".to_string()), Some("i"));
    assert_eq!(made.get("favicon"), Some(&Json::Text("i".to_string())));
    assert_eq!(made.get("players").unwrap().get("online"), Some(&Json::Unsigned(4)));
}

#[test]
fn backend_status_gets_the_proxys_count() {
    assert_eq!(
        build_online_json(LIVE, None, 2),
        "{\"description\":\"Live\",\"players\":{\"max\":50,\"online\":2},\
         \"version\":{\"name\":\"Paper\",\"protocol\":767}}"
    );
    assert_eq!(
        build_online_json(LIVE, Some(&plain("Mine")), 0),
        "{\"description\":{\"extra\":[{\"text\":\"Mine\"}],\"text\":\"\"},\
         \"players\":{\"max\":50,\"online\":0},\
         \"version\":{\"name\":\"Paper\",\"protocol\":767}}"
    );
}

#[test]
fn odd_backend_statuses_are_kept() {
    assert_eq!(build_online_json("not json", Some(&plain("x")), 1), "not json");
    assert_eq!(build_online_json("{\"a\":1}", None, 1), "{\"a\":1}");
    assert_eq!(build_online_json("[1]", None, 1), "[1]");
    assert_eq!(build_online_json("{\"players\":null}", None, 1), "{\"players\":{\"online\":1}}");
    assert_eq!(
        build_online_json("null", Some(&plain("")), 1),
        "{\"description\":{\"extra\":[],\"text\":\"\"}}"
    );
}

#[test]
fn statuses_with_something_else_for_an_object_are_refused() {
    assert_eq!(checked_online_json("[1]", Some(&plain("x")), 1), None);
    assert_eq!(checked_online_json("3", Some(&plain("x")), 1), None);
    assert_eq!(checked_online_json("{\"players\":3}", None, 1), None);
    assert_eq!(checked_online_json("{\"players\":[]}", None, 1), None);
    assert_eq!(checked_online_json("[1]", None, 1), Some("[1]".to_string()));
    assert!(checked_online_json(LIVE, Some(&plain("x")), 1).is_some());
    assert!(can_adapt_text("no json", true));
    assert!(!can_adapt(&Json::Bool(true), true));
    assert!(can_adapt(&Json::Bool(true), false));
    let changed = adapt_status(parse_json(LIVE).unwrap(), Some(Json::Null), 7);
    assert_eq!(changed.get("description"), Some(&Json::Null));
    assert_eq!(changed.get("players").unwrap().get("online"), Some(&Json::Unsigned(7)));
    assert_eq!(changed.get("version"), parse_json(LIVE).unwrap().get("version"));
}

#[test]
fn slot_cap_comes_from_the_backend_when_known() {
    let mut state = fresh();
    assert_eq!(display_max(&state), 20);
    state.cache_status(LIVE.to_string());
    assert_eq!(display_max(&state), 50);
    for text in [
        "{\"players\":{\"max\":0}}",
        "{\"players\":{\"max\":-4}}",
        "{\"players\":{\"max\":2.5}}",
        "{\"players\":{}}",
        "{\"players\":5}",
        "[]",
        "oops",
    ] {
        state.cache_status(text.to_string());
        assert_eq!(display_max(&state), 20);
    }
    assert_eq!(advertised_max(None, 7), 7);
    assert_eq!(advertised_max(parse_json(LIVE).as_ref(), 0), 50);
}

#[test]
fn slot_cap_is_never_zero() {
    assert_eq!(advertised_max(None, 0), 20);
    let mut state = State::new(600, 0, 120, 90, None);
    assert_eq!(display_max(&state), 20);
    state.cache_status("{\"players\":{\"max\":0}}".to_string());
    assert_eq!(display_max(&state), 20);
    state.cache_status(LIVE.to_string());
    assert_eq!(display_max(&state), 50);
}

#[test]
fn idle_time_counts_from_the_last_player() {
    assert_eq!(idle_secs(0, 1000), None);
    assert_eq!(idle_secs(400, 1000), Some(600));
    assert_eq!(idle_secs(1000, 400), Some(0));
    let mut state = fresh();
    assert_eq!(secs_since_active(&state), None);
    state.last_active = u64::MAX;
    assert_eq!(secs_since_active(&state), Some(0));
    state.last_active = 1;
    assert!(secs_since_active(&state).unwrap() > 1_000_000_000);
}

#[test]
fn clock_shows_unix_seconds() {
    assert_eq!(secs_at(UNIX_EPOCH), 0);
    assert_eq!(secs_at(UNIX_EPOCH + Duration::from_millis(5999)), 5);
    assert_eq!(secs_at(UNIX_EPOCH - Duration::from_secs(5)), 0);
    let before = SystemTime::now().duration_since(UNIX_EPOCH).unwrap().as_secs();
    let shown = now_secs();
    assert!(before <= shown && shown <= before + 15);
}

#[test]
fn state_counts_players() {
    let mut state = fresh();
    assert_eq!(state.enter(100), 1);
    assert_eq!(state.enter(110), 2);
    assert_eq!(state.leave(120), 1);
    assert_eq!((state.active, state.last_active), (1, 120));
    assert!(state.begin_waking());
    assert!(!state.begin_waking());
    state.end_waking();
    assert!(state.begin_waking());
}

#[test]
fn only_an_empty_cache_is_seeded() {
    let mut state = fresh();
    state.seed_status("a".to_string());
    state.seed_status("b".to_string());
    assert_eq!(state.cached_status, Some("a".to_string()));
    state.cache_status("c".to_string());
    assert_eq!(state.cached_status, Some("c".to_string()));
}

#[test]
fn a_ping_before_the_first_player_shows_the_sleeping_motd() {
    let state = fresh();
    let reply = answer_status(&state, 5000, 765, &plain("Zzz"), Some(&plain("Up")));
    assert_eq!(reply, StatusReply::Json(offline_status_json(&plain("Zzz"), 765, 20, None)));
}

#[test]
fn a_ping_while_somebody_plays_needs_one_status() {
    let mut state = fresh();
    state.active = 3;
    assert_eq!(answer_status(&state, 5000, 765, &plain("Zzz"), None), StatusReply::Probe);
    state.cache_status(LIVE.to_string());
    assert_eq!(
        answer_status(&state, 5000, 765, &plain("Zzz"), None),
        StatusReply::Json(build_online_json(LIVE, None, 3))
    );
    state.cache_status("{\"players\":1}".to_string());
    assert_eq!(answer_status(&state, 5000, 765, &plain("Zzz"), None), StatusReply::Broken);
}

#[test]
fn the_window_after_the_last_player_shows_the_online_motd() {
    let mut state = fresh();
    state.last_active = 1000;
    state.favicon = Some("icon".to_string());
    let asleep = plain("Zzz");
    let up = plain("Up");
    assert_eq!(
        answer_status(&state, 1599, 765, &asleep, Some(&up)),
        StatusReply::Json(synth_online_json(&up, 20, 0, 765, Some("icon")))
    );
    assert_eq!(
        answer_status(&state, 1599, 765, &asleep, None),
        StatusReply::Json(offline_status_json(&asleep, 765, 20, Some("icon")))
    );
    state.cache_status(LIVE.to_string());
    assert_eq!(
        answer_status(&state, 1599, 765, &asleep, None),
        StatusReply::Json(build_online_json(LIVE, None, 0))
    );
    assert_eq!(
        answer_status(&state, 1600, 765, &asleep, Some(&up)),
        StatusReply::Json(offline_status_json(&asleep, 765, 50, Some("icon")))
    );
}

#[test]
fn the_window_survives_a_clock_that_was_set_back() {
    let mut state = fresh();
    state.last_active = 1000;
    let asleep = plain("Zzz");
    let up = plain("Up");
    assert_eq!(
        answer_status(&state, 400, 765, &asleep, Some(&up)),
        StatusReply::Json(synth_online_json(&up, 20, 0, 765, None))
    );
    state.sleep_timeout = 0;
    for now in [400, 1000, 1001] {
        assert_eq!(
            answer_status(&state, now, 765, &asleep, Some(&up)),
            StatusReply::Json(offline_status_json(&asleep, 765, 20, None))
        );
    }
}

#[test]
fn a_broken_cache_does_not_matter_past_the_window() {
    let mut state = fresh();
    state.last_active = 1000;
    state.cache_status("{\"players\":1}".to_string());
    let asleep = plain("Zzz");
    assert_eq!(answer_status(&state, 1599, 765, &asleep, None), StatusReply::Broken);
    assert_eq!(
        answer_status(&state, 1600, 765, &asleep, None),
        StatusReply::Json(offline_status_json(&asleep, 765, 20, None))
    );
}

#[test]
fn a_failed_probe_falls_back_to_configuration() {
    let mut state = fresh();
    state.active = 2;
    let up = plain("Up");
    assert_eq!(
        answer_unprobed(&state, None, 2, 47, &plain("Zzz"), Some(&up)),
        StatusReply::Json(synth_online_json(&up, 20, 2, 47, None))
    );
    assert_eq!(
        answer_unprobed(&state, None, 2, 47, &plain("Zzz"), None),
        StatusReply::Json(offline_status_json(&plain("Zzz"), 47, 20, None))
    );
    assert_eq!(
        online_or_offline_json(Some(LIVE), Some(&up), 2, &state, 47, &plain("Zzz")),
        build_online_json(LIVE, Some(&up), 2)
    );
}

#[test]
fn unset_variables_have_defaults() {
    assert_eq!(
        Config::from_variables(unset()),
        Config {
            bind_addr: "0.0.0.0:25565".to_string(),
            motd: "Server is asleep \u{2014} join to wake it up!".to_string(),
            motd_online: None,
            sleep_timeout: 600,
            connect_timeout: 120,
            join_hold: 90,
            max_players: 20,
            startup_message: "&e&lServer is starting up!\n&7Please rejoin in a few seconds."
                .to_string(),
            favicon: None,
            max_connections: 256,
        }
    );
}

#[test]
fn variables_are_read() {
    let config = Config::from_variables(Variables {
        port: Some("7777".to_string()),
        motd: Some(String::new()),
        motd_online: Some("Up".to_string()),
        sleep_timeout_secs: Some("10".to_string()),
        connect_timeout_secs: Some("+20".to_string()),
        join_hold_secs: Some("0".to_string()),
        max_players: Some("18446744073709551615".to_string()),
        startup_message: Some("Wait".to_string()),
        favicon: Some("data:".to_string()),
        max_connections: Some("1".to_string()),
    });
    assert_eq!(
        config,
        Config {
            bind_addr: "0.0.0.0:7777".to_string(),
            motd: String::new(),
            motd_online: Some("Up".to_string()),
            sleep_timeout: 10,
            connect_timeout: 20,
            join_hold: 0,
            max_players: u64::MAX,
            startup_message: "Wait".to_string(),
            favicon: Some("data:".to_string()),
            max_connections: 1,
        }
    );
}

#[test]
fn variables_that_are_no_numbers_give_way_to_defaults() {
    let config = Config::from_variables(Variables {
        sleep_timeout_secs: Some("ten".to_string()),
        connect_timeout_secs: Some("-1".to_string()),
        join_hold_secs: Some(String::new()),
        max_players: Some("18446744073709551616".to_string()),
        favicon: Some(String::new()),
        max_connections: Some("1.5".to_string()),
        ..unset()
    });
    assert_eq!(config, Config::from_variables(unset()));
}

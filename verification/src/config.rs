//! Configuration, as it stands in environment variables.
use crate::text::parse_unsigned;
use vstd::prelude::*;

verus! {

/// The port to listen on if none is configured.
pub const PORT: &'static str = "25565";

/// The MOTD of a sleeping server if none is configured.
pub const MOTD: &'static str = "Server is asleep \u{2014} join to wake it up!";

/// The message for a player who has to rejoin, if none is configured.
pub const STARTUP_MESSAGE: &'static str =
    "&e&lServer is starting up!\n&7Please rejoin in a few seconds.";

/// Seconds for which the online MOTD is shown after the last player left.
pub const SLEEP_TIMEOUT_SECS: u64 = 600;

/// Seconds to keep trying to reach the backend while it boots.
pub const CONNECT_TIMEOUT_SECS: u64 = 120;

/// Seconds to hold a joining player.
pub const JOIN_HOLD_SECS: u64 = 90;

/// Slot cap to show while the backend's own is not known.
pub const MAX_PLAYERS: u64 = 20;

/// Cap on simultaneous client connections.
pub const MAX_CONNECTIONS: usize = 256;

/// The values of the environment variables, `None` for each that is not set.
#[derive(Debug)]
pub struct Variables {
    pub port: Option<String>,
    pub motd: Option<String>,
    pub motd_online: Option<String>,
    pub sleep_timeout_secs: Option<String>,
    pub connect_timeout_secs: Option<String>,
    pub join_hold_secs: Option<String>,
    pub max_players: Option<String>,
    pub startup_message: Option<String>,
    pub favicon: Option<String>,
    pub max_connections: Option<String>,
}

/// The proxy's configuration.
#[derive(Debug, PartialEq)]
pub struct Config {
    pub bind_addr: String,
    pub motd: String,
    pub motd_online: Option<String>,
    pub sleep_timeout: u64,
    pub connect_timeout: u64,
    pub join_hold: u64,
    pub max_players: u64,
    pub startup_message: String,
    pub favicon: Option<String>,
    pub max_connections: usize,
}

/// A number that a variable spells, or `default` if it is not set, spells none
/// or one above `max`.
pub open spec fn number_or(variable: Option<String>, max: u64, default: u64) -> u64 {
    match variable {
        Some(text) => match crate::text::unsigned_text(text@) {
            Some(n) => if n <= max {
                n as u64
            } else {
                default
            },
            None => default,
        },
        None => default,
    }
}

/// The text of a variable, or `default` if it is not set.
pub open spec fn text_or(variable: Option<String>, default: Seq<char>) -> Seq<char> {
    match variable {
        Some(text) => text@,
        None => default,
    }
}

fn read_number(variable: &Option<String>, max: u64, default: u64) -> (number: u64)
    ensures
        number == number_or(*variable, max, default),
{
    match variable {
        Some(text) => match parse_unsigned(text.as_str(), max) {
            Some(number) => number,
            None => default,
        },
        None => default,
    }
}

fn read_text(variable: Option<String>, default: &str) -> (text: String)
    ensures
        text@ == text_or(variable, default@),
{
    match variable {
        Some(text) => text,
        None => default.to_owned(),
    }
}

impl Config {
    /// Reads the configuration. A variable that is not set, or does not spell a
    /// number where one is due, gives way to its default.
    pub fn from_variables(variables: Variables) -> (config: Config)
        ensures
            config.bind_addr@ == "0.0.0.0:"@ + text_or(variables.port, PORT@),
            config.motd@ == text_or(variables.motd, MOTD@),
            config.motd_online == variables.motd_online,
            config.sleep_timeout == number_or(
                variables.sleep_timeout_secs,
                u64::MAX,
                SLEEP_TIMEOUT_SECS,
            ),
            config.connect_timeout == number_or(
                variables.connect_timeout_secs,
                u64::MAX,
                CONNECT_TIMEOUT_SECS,
            ),
            config.join_hold == number_or(variables.join_hold_secs, u64::MAX, JOIN_HOLD_SECS),
            config.max_players == number_or(variables.max_players, u64::MAX, MAX_PLAYERS),
            config.startup_message@ == text_or(variables.startup_message, STARTUP_MESSAGE@),
            config.favicon == (match variables.favicon {
                Some(icon) => if icon@.len() > 0 {
                    Some(icon)
                } else {
                    None
                },
                None => None,
            }),
            config.max_connections == number_or(
                variables.max_connections,
                usize::MAX as u64,
                MAX_CONNECTIONS as u64,
            ),
    {
        let mut bind_addr: String = "0.0.0.0:".to_owned();
        bind_addr.append(read_text(variables.port, PORT).as_str());
        let favicon: Option<String> = match variables.favicon {
            Some(icon) => if icon.as_str().is_empty() {
                None
            } else {
                Some(icon)
            },
            None => None,
        };
        Config {
            bind_addr,
            motd: read_text(variables.motd, MOTD),
            motd_online: variables.motd_online,
            sleep_timeout: read_number(
                &variables.sleep_timeout_secs,
                u64::MAX,
                SLEEP_TIMEOUT_SECS,
            ),
            connect_timeout: read_number(
                &variables.connect_timeout_secs,
                u64::MAX,
                CONNECT_TIMEOUT_SECS,
            ),
            join_hold: read_number(&variables.join_hold_secs, u64::MAX, JOIN_HOLD_SECS),
            max_players: read_number(&variables.max_players, u64::MAX, MAX_PLAYERS),
            startup_message: read_text(variables.startup_message, STARTUP_MESSAGE),
            favicon,
            max_connections: read_number(
                &variables.max_connections,
                usize::MAX as u64,
                MAX_CONNECTIONS as u64,
            ) as usize,
        }
    }
}

/// A variable that spells a number within its limit gives that number; one that
/// is not set, spells no number or one above the limit gives way to the default.
pub proof fn law_numbers_are_taken_over(variable: Option<String>, max: u64, default: u64)
    ensures
        variable is None ==> number_or(variable, max, default) == default,
        variable matches Some(text) ==> (match crate::text::unsigned_text(text@) {
            Some(n) => (n <= max ==> number_or(variable, max, default) == n) && (n > max
                ==> number_or(variable, max, default) == default),
            None => number_or(variable, max, default) == default,
        }),
{
}

/// A text that is set is taken as it is, and one that is not gives way to the
/// default.
pub proof fn law_texts_are_taken_over(variable: Option<String>, default: Seq<char>)
    ensures
        variable is None ==> text_or(variable, default) == default,
        variable matches Some(text) ==> text_or(variable, default) == text@,
{
}

/// What is set is configured: every text as it stands, every number that is
/// spelled.
pub proof fn law_set_variables_are_configured(variables: Variables, config: Config)
    requires
        call_ensures(Config::from_variables, (variables,), config),
    ensures
        variables.port matches Some(port) ==> config.bind_addr@ == "0.0.0.0:"@ + port@,
        variables.motd matches Some(motd) ==> config.motd@ == motd@,
        config.motd_online == variables.motd_online,
        variables.startup_message matches Some(text) ==> config.startup_message@ == text@,
        variables.favicon matches Some(icon) ==> (icon@.len() > 0 ==> config.favicon == Some(icon))
            && (icon@.len() == 0 ==> config.favicon is None),
        variables.sleep_timeout_secs matches Some(text) ==> (crate::text::unsigned_text(
            text@,
        ) matches Some(n) ==> (n <= u64::MAX ==> config.sleep_timeout == n)),
        variables.connect_timeout_secs matches Some(text) ==> (crate::text::unsigned_text(
            text@,
        ) matches Some(n) ==> (n <= u64::MAX ==> config.connect_timeout == n)),
        variables.join_hold_secs matches Some(text) ==> (crate::text::unsigned_text(
            text@,
        ) matches Some(n) ==> (n <= u64::MAX ==> config.join_hold == n)),
        variables.max_players matches Some(text) ==> (crate::text::unsigned_text(
            text@,
        ) matches Some(n) ==> (n <= u64::MAX ==> config.max_players == n)),
        variables.max_connections matches Some(text) ==> (crate::text::unsigned_text(
            text@,
        ) matches Some(n) ==> (n <= usize::MAX ==> config.max_connections == n)),
{
}

/// What is not set, or is no number where one is due, has its default.
pub proof fn law_defaults(variables: Variables, config: Config)
    requires
        call_ensures(Config::from_variables, (variables,), config),
    ensures
        variables.port is None ==> config.bind_addr@ == "0.0.0.0:"@ + "25565"@,
        variables.motd is None ==> config.motd@
            == "Server is asleep \u{2014} join to wake it up!"@,
        variables.startup_message is None ==> config.startup_message@
            == "&e&lServer is starting up!\n&7Please rejoin in a few seconds."@,
        variables.favicon is None ==> config.favicon is None,
        number_or(variables.sleep_timeout_secs, u64::MAX, 600) == config.sleep_timeout,
        number_or(variables.connect_timeout_secs, u64::MAX, 120) == config.connect_timeout,
        number_or(variables.join_hold_secs, u64::MAX, 90) == config.join_hold,
        number_or(variables.max_players, u64::MAX, 20) == config.max_players,
        number_or(variables.max_connections, usize::MAX as u64, 256) == config.max_connections,
{
}

} // verus!

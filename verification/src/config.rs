//! The settings of the updater, read from the plain text of its four
//! variables, and the address that the address service reports.

use crate::seqs::views;
use crate::text::{parse_u64, parsed_u64, split, split_trimmed, trim, trimmed, trimmed_each};
use vstd::prelude::*;
use vstd::string::StringExecFns;

verus! {

/// The seconds between two passes where no delay is set.
pub const DEFAULT_DELAY: u64 = 300;

/// The address service: it answers a plain request with the caller's public
/// address as text.
pub const CHECK_IP_URL: &'static str = "https://checkip.amazonaws.com/";

/// The settings of the updater.
#[derive(Debug, PartialEq, Eq)]
pub struct EnvVars {
    /// The bearer token of the API.
    pub api_key: String,
    /// The names of the zones that are managed.
    pub zones_of_interest: Vec<String>,
    /// The seconds between two passes.
    pub delay: u64,
    /// Whether every record but the one for the current address is removed.
    pub unique: bool,
}

/// The mathematical content of an [`EnvVars`].
pub struct EnvVarsView {
    pub api_key: Seq<char>,
    pub zones_of_interest: Seq<Seq<char>>,
    pub delay: u64,
    pub unique: bool,
}

impl View for EnvVars {
    type V = EnvVarsView;

    open spec fn view(&self) -> EnvVarsView {
        EnvVarsView {
            api_key: self.api_key@,
            zones_of_interest: views(self.zones_of_interest@),
            delay: self.delay,
            unique: self.unique,
        }
    }
}

/// Why no settings could be read.
#[derive(Debug, Clone, Copy, PartialEq, Eq, Structural)]
pub enum ConfigError {
    /// The list of zones is not set.
    MissingZones,
    /// The API key is not set.
    MissingApiKey,
    /// The delay is set, but is no unsigned number of seconds.
    MalformedDelay,
}

/// The text of an optional string slice.
pub open spec fn text_of(value: Option<&str>) -> Option<Seq<char>> {
    match value {
        Some(text) => Some(text@),
        None => None,
    }
}

/// The names in a comma-separated list, each without surrounding whitespace.
pub open spec fn zone_names(zones: Seq<char>) -> Seq<Seq<char>> {
    trimmed_each(split(zones, ','))
}

/// The delay in seconds: the default where none is set, else the number that
/// the text denotes, if it denotes one.
pub open spec fn delay_seconds(delay: Option<Seq<char>>) -> Option<u64> {
    match delay {
        Some(text) => parsed_u64(text),
        None => Some(DEFAULT_DELAY),
    }
}

/// Unique mode is on exactly when the variable is set to `yes`.
pub open spec fn unique_mode(unique: Option<Seq<char>>) -> bool {
    unique == Some("yes"@)
}

/// The settings that the four variables give, or the first reason why they
/// give none: the zones are looked at first, then the key, then the delay.
pub open spec fn loaded(
    zones: Option<Seq<char>>,
    api_key: Option<Seq<char>>,
    delay: Option<Seq<char>>,
    unique: Option<Seq<char>>,
) -> Result<EnvVarsView, ConfigError> {
    if zones is None {
        Err(ConfigError::MissingZones)
    } else if api_key is None {
        Err(ConfigError::MissingApiKey)
    } else if delay_seconds(delay) is None {
        Err(ConfigError::MalformedDelay)
    } else {
        Ok(
            EnvVarsView {
                api_key: api_key.unwrap(),
                zones_of_interest: zone_names(zones.unwrap()),
                delay: delay_seconds(delay).unwrap(),
                unique: unique_mode(unique),
            },
        )
    }
}

/// Reads the delay between two passes: [`DEFAULT_DELAY`] where the variable is
/// not set, the number of seconds it denotes where it is, and nothing where it
/// is set to anything but an unsigned decimal number.
pub fn parse_delay(delay: Option<&str>) -> (seconds: Option<u64>)
    ensures
        seconds == delay_seconds(text_of(delay)),
{
    match delay {
        Some(text) => parse_u64(text),
        None => Some(DEFAULT_DELAY),
    }
}

/// Reads the switch of unique mode: on exactly when the variable is `yes`.
pub fn parse_unique(unique: Option<&str>) -> (on: bool)
    ensures
        on == unique_mode(text_of(unique)),
{
    match unique {
        Some(text) => text.to_owned() == String::from_str("yes"),
        None => false,
    }
}

/// Reads the settings from the text of the variables `ZONES`, `CF_API_KEY`,
/// `DELAY` and `UNIQUE`, each absent where the variable is not set.
pub fn load_env_vars(
    zones: Option<&str>,
    api_key: Option<&str>,
    delay: Option<&str>,
    unique: Option<&str>,
) -> (settings: Result<EnvVars, ConfigError>)
    ensures
        match settings {
            Ok(env_vars) => Ok(env_vars@),
            Err(error) => Err(error),
        } == loaded(text_of(zones), text_of(api_key), text_of(delay), text_of(unique)),
{
    let zones_of_interest = match zones {
        Some(list) => split_trimmed(list, ','),
        None => {
            return Err(ConfigError::MissingZones);
        },
    };
    let api_key = match api_key {
        Some(key) => key.to_owned(),
        None => {
            return Err(ConfigError::MissingApiKey);
        },
    };
    let delay = match parse_delay(delay) {
        Some(seconds) => seconds,
        None => {
            return Err(ConfigError::MalformedDelay);
        },
    };
    let unique = parse_unique(unique);
    Ok(EnvVars { zones_of_interest, api_key, delay, unique })
}

/// The address that the address service reports: the body of its answer
/// without surrounding whitespace, and none where there was no answer.
pub fn aws_ip(body: Option<&str>) -> (ip: Option<String>)
    ensures
        match ip {
            Some(address) => Some(address@),
            None => None,
        } == match body {
            Some(text) => Some(trimmed(text@)),
            None => None,
        },
{
    match body {
        Some(text) => Some(trim(text).to_owned()),
        None => None,
    }
}

/// Without a delay in the variables the settings hold the default of 300
/// seconds, and a delay that is no unsigned number gives no settings at all.
pub proof fn lemma_delay_is_default_or_number(
    zones: Seq<char>,
    api_key: Seq<char>,
    delay: Option<Seq<char>>,
    unique: Option<Seq<char>>,
)
    ensures
        delay is None ==> (loaded(Some(zones), Some(api_key), delay, unique) matches Ok(settings)
            && settings.delay == 300),
        (delay matches Some(text) && parsed_u64(text) is None) ==> loaded(
            Some(zones),
            Some(api_key),
            delay,
            unique,
        ) == Err::<EnvVarsView, ConfigError>(ConfigError::MalformedDelay),
        (delay matches Some(text) && parsed_u64(text) is Some) ==> (loaded(
            Some(zones),
            Some(api_key),
            delay,
            unique,
        ) matches Ok(settings) && Some(settings.delay) == parsed_u64(delay.unwrap())),
{
}

} // verus!

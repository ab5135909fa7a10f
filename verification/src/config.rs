//! The bot's configuration, read from the values of its environment variables.
use vstd::prelude::*;

use crate::calendar::{known_zone, zone_is_known};
use crate::choices::trimmed_nonempty;
use crate::validation::str_to_string;
use crate::text::{
    append_str, chars_of, parse_u64, parse_unsigned, split_chars, split_on, string_of_range,
    trim, trim_bounds,
};

verus! {

pub const DEFAULT_SCHEDULER_INTERVAL_SECONDS: u64 = 60;

/// Why the configuration could not be read.
#[derive(Debug)]
pub enum ConfigError {
    MissingToken,
    /// The guild id is not set or is not a number.
    MissingGuildId,
    MissingChannelIds,
    InvalidChannelId { value: String },
    NoChannelIds,
    UnknownTimezone,
}

impl ConfigError {
    pub open spec fn message_text(&self) -> Seq<char> {
        match self {
            ConfigError::MissingToken => "DISCORD_TOKEN is required"@,
            ConfigError::MissingGuildId => "DISCORD_GUILD_ID is required"@,
            ConfigError::MissingChannelIds =>
                "DISCORD_CHANNEL_IDS or DISCORD_CHANNEL_ID is required"@,
            ConfigError::InvalidChannelId { value } => "invalid Discord channel ID '"@ + value@
                + "'"@,
            ConfigError::NoChannelIds =>
                "DISCORD_CHANNEL_IDS must contain at least one channel ID"@,
            ConfigError::UnknownTimezone =>
                "DEFAULT_TIMEZONE must be an IANA timezone like Europe/Berlin"@,
        }
    }

    pub fn message(&self) -> (m: String)
        ensures
            m@ == self.message_text(),
    {
        match self {
            ConfigError::InvalidChannelId { value } => {
                let mut m = String::new();
                append_str(&mut m, "invalid Discord channel ID '");
                append_str(&mut m, value.as_str());
                append_str(&mut m, "'");
                m
            },
            ConfigError::MissingToken => str_to_string("DISCORD_TOKEN is required"),
            ConfigError::MissingGuildId => str_to_string("DISCORD_GUILD_ID is required"),
            ConfigError::MissingChannelIds => str_to_string(
                "DISCORD_CHANNEL_IDS or DISCORD_CHANNEL_ID is required",
            ),
            ConfigError::NoChannelIds => str_to_string(
                "DISCORD_CHANNEL_IDS must contain at least one channel ID",
            ),
            ConfigError::UnknownTimezone => str_to_string(
                "DEFAULT_TIMEZONE must be an IANA timezone like Europe/Berlin",
            ),
        }
    }
}

pub open spec fn read_ids(pieces: Seq<Seq<char>>) -> Result<Seq<u64>, Seq<char>>
    decreases pieces.len(),
{
    if pieces.len() == 0 {
        Ok(Seq::empty())
    } else {
        match read_ids(pieces.drop_last()) {
            Err(p) => Err(p),
            Ok(ids) => match parse_unsigned(pieces.last(), u64::MAX as nat) {
                None => Err(pieces.last()),
                Some(id) => Ok(ids.push(id as u64)),
            },
        }
    }
}

/// Reads `DISCORD_CHANNEL_IDS`: comma-separated ids, blanks skipped, at
/// least one.
pub fn parse_channel_ids(raw: &str) -> (r: Result<Vec<u64>, ConfigError>)
    ensures
        match read_ids(trimmed_nonempty(split_on(raw@, ','))) {
            Err(p) => r matches Err(ConfigError::InvalidChannelId { value }) && value@ == p,
            Ok(ids) => if ids.len() == 0 {
                r matches Err(ConfigError::NoChannelIds)
            } else {
                r matches Ok(v) && v@ == ids
            },
        },
{
    let chars = chars_of(raw);
    let pieces = split_chars(&chars, ',');
    let ghost sp = split_on(raw@, ',');
    let mut ids: Vec<u64> = Vec::new();
    let mut i: usize = 0;
    assert(sp.take(0) =~= Seq::<Seq<char>>::empty());
    while i < pieces.len()
        invariant
            i <= pieces@.len() == sp.len(),
            sp == split_on(raw@, ','),
            forall|k: int| 0 <= k < pieces@.len() ==> (#[trigger] pieces@[k])@ == sp[k],
            read_ids(trimmed_nonempty(sp.take(i as int))) == Ok::<Seq<u64>, Seq<char>>(ids@),
        decreases pieces@.len() - i,
    {
        assert(sp.take(i + 1).drop_last() =~= sp.take(i as int));
        assert(sp.take(i + 1).last() == sp[i as int]);
        let (a, b) = trim_bounds(&pieces[i]);
        if a < b {
            let piece = string_of_range(&pieces[i], a, b);
            let ghost cands = trimmed_nonempty(sp.take(i + 1));
            assert(cands.drop_last() == trimmed_nonempty(sp.take(i as int)));
            assert(cands.last() == piece@);
            match parse_u64(piece.as_str()) {
                Some(id) => {
                    ids.push(id);
                },
                None => {
                    proof {
                        lemma_trimmed_err(sp, i as int);
                    }
                    return Err(ConfigError::InvalidChannelId { value: piece });
                },
            }
        }
        i += 1;
    }
    assert(sp.take(sp.len() as int) =~= sp);
    if ids.len() == 0 {
        return Err(ConfigError::NoChannelIds);
    }
    Ok(ids)
}

proof fn lemma_trimmed_err(sp: Seq<Seq<char>>, i: int)
    requires
        0 <= i < sp.len(),
        read_ids(trimmed_nonempty(sp.take(i + 1))) is Err,
    ensures
        read_ids(trimmed_nonempty(sp)) == read_ids(trimmed_nonempty(sp.take(i + 1))),
    decreases sp.len() - i,
{
    if i + 1 < sp.len() {
        let x = trimmed_nonempty(sp.take(i + 1));
        assert(sp.take(i + 2).drop_last() =~= sp.take(i + 1));
        assert(sp.take(i + 2).last() == sp[i + 1]);
        let t = trim(sp[i + 1]);
        assert(x.push(t).drop_last() =~= x);
        lemma_trimmed_err(sp, i + 1);
    } else {
        assert(sp.take(i + 1) =~= sp);
    }
}

/// The scheduler's interval in seconds: the configured number when it reads
/// as one, else sixty.
pub fn scheduler_interval_seconds(value: Option<&str>) -> (r: u64)
    ensures
        r == (match value {
            Some(v) => match parse_unsigned(v@, u64::MAX as nat) {
                Some(n) => n as u64,
                None => DEFAULT_SCHEDULER_INTERVAL_SECONDS,
            },
            None => DEFAULT_SCHEDULER_INTERVAL_SECONDS,
        }),
{
    match value {
        Some(v) => match parse_u64(v) {
            Some(n) => n,
            None => DEFAULT_SCHEDULER_INTERVAL_SECONDS,
        },
        None => DEFAULT_SCHEDULER_INTERVAL_SECONDS,
    }
}

/// The bot's settings.
#[derive(Clone, Debug)]
pub struct Config {
    pub token: String,
    pub guild_id: u64,
    pub channel_ids: Vec<u64>,
    pub database_path: String,
    /// The IANA name of the zone that schedules and the easter egg's days
    /// are read in.
    pub default_timezone: String,
    pub scheduler_interval_seconds: u64,
}

/// A variable's value read as a number.
pub open spec fn number_value(value: Option<String>) -> Option<nat> {
    match value {
        Some(v) => parse_unsigned(v@, u64::MAX as nat),
        None => None,
    }
}

/// The channel list: `DISCORD_CHANNEL_IDS` when it is set, else
/// `DISCORD_CHANNEL_ID`.
pub open spec fn channel_list_value(ids: Option<String>, id: Option<String>) -> Option<Seq<char>> {
    match ids {
        Some(v) => Some(v@),
        None => match id {
            Some(v) => Some(v@),
            None => None,
        },
    }
}

/// A variable's value, or a default when it is not set.
pub open spec fn value_or(value: Option<String>, default: Seq<char>) -> Seq<char> {
    match value {
        Some(v) => v@,
        None => default,
    }
}

/// The configuration that `Config::from_values` reads, when it is one.
pub open spec fn config_matches(
    c: Config,
    token: Seq<char>,
    guild_id: nat,
    ids: Seq<u64>,
    database_path: Option<String>,
    timezone: Option<String>,
    scheduler_interval: Option<String>,
) -> bool {
    &&& c.token@ == token
    &&& c.guild_id == guild_id
    &&& c.channel_ids@ == ids
    &&& c.database_path@ == value_or(database_path, "data/bot.db"@)
    &&& c.default_timezone@ == value_or(timezone, "Europe/Berlin"@)
    &&& c.scheduler_interval_seconds == (match number_value(scheduler_interval) {
        Some(n) => n as u64,
        None => DEFAULT_SCHEDULER_INTERVAL_SECONDS,
    })
}

fn value_or_default(value: Option<String>, default: &str) -> (r: String)
    ensures
        r@ == value_or(value, default@),
{
    match value {
        Some(v) => v,
        None => str_to_string(default),
    }
}

impl Config {
    /// Reads the configuration from the values of `DISCORD_TOKEN`,
    /// `DISCORD_GUILD_ID`, `DISCORD_CHANNEL_IDS`, `DISCORD_CHANNEL_ID`,
    /// `DATABASE_PATH`, `DEFAULT_TIMEZONE` and `SCHEDULER_INTERVAL_SECONDS`,
    /// each `None` when the variable is not set. The first problem found, in
    /// that order, is the error.
    pub fn from_values(
        token: Option<String>,
        guild_id: Option<String>,
        channel_ids: Option<String>,
        channel_id: Option<String>,
        database_path: Option<String>,
        timezone: Option<String>,
        scheduler_interval: Option<String>,
    ) -> (r: Result<Config, ConfigError>)
        ensures
            match token {
                None => r matches Err(ConfigError::MissingToken),
                Some(t) => match number_value(guild_id) {
                    None => r matches Err(ConfigError::MissingGuildId),
                    Some(g) => match channel_list_value(channel_ids, channel_id) {
                        None => r matches Err(ConfigError::MissingChannelIds),
                        Some(raw) => match read_ids(trimmed_nonempty(split_on(raw, ','))) {
                            Err(p) => r matches Err(ConfigError::InvalidChannelId { value })
                                && value@ == p,
                            Ok(ids) => if ids.len() == 0 {
                                r matches Err(ConfigError::NoChannelIds)
                            } else if !known_zone(value_or(timezone, "Europe/Berlin"@)) {
                                r matches Err(ConfigError::UnknownTimezone)
                            } else {
                                r matches Ok(c) && config_matches(
                                    c,
                                    t@,
                                    g,
                                    ids,
                                    database_path,
                                    timezone,
                                    scheduler_interval,
                                )
                            },
                        },
                    },
                },
            },
    {
        let token = match token {
            Some(t) => t,
            None => return Err(ConfigError::MissingToken),
        };
        let guild = match &guild_id {
            Some(g) => parse_u64(g.as_str()),
            None => None,
        };
        let guild_id = match guild {
            Some(g) => g,
            None => return Err(ConfigError::MissingGuildId),
        };
        let raw = match channel_ids {
            Some(v) => v,
            None => match channel_id {
                Some(v) => v,
                None => return Err(ConfigError::MissingChannelIds),
            },
        };
        let channel_ids = parse_channel_ids(raw.as_str())?;
        let database_path = value_or_default(database_path, "data/bot.db");
        let default_timezone = value_or_default(timezone, "Europe/Berlin");
        if !zone_is_known(default_timezone.as_str()) {
            return Err(ConfigError::UnknownTimezone);
        }
        let scheduler_interval_seconds = match &scheduler_interval {
            Some(v) => scheduler_interval_seconds(Some(v.as_str())),
            None => scheduler_interval_seconds(None),
        };
        Ok(Config {
            token,
            guild_id,
            channel_ids,
            database_path,
            default_timezone,
            scheduler_interval_seconds,
        })
    }
}

} // verus!

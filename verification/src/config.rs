//! Validated application configuration. Locating, reading and decoding the
//! configuration file happen at the system's edge; the raw values arrive
//! here and are validated into an `AppConfig`, so that no invalid window or
//! channel ever reaches the pipeline.

use vstd::prelude::*;

use crate::channel::{has_uc_prefix, Channel, ChannelId, ChannelIdError};
use crate::video::FetchWindowDays;

verus! {

/// Why a configuration was rejected.
#[derive(Debug)]
pub enum ConfigError {
    NotFound(String),
    Read(String),
    InvalidToml(String),
    InvalidChannel { name: String, reason: String },
    InvalidFetchWindow(String),
}

/// The validated application configuration.
#[derive(Debug)]
pub struct AppConfig {
    pub fetch_window_days: FetchWindowDays,
    pub channels: Vec<Channel>,
    pub data_dir: String,
}

/// The window used when the configuration names none.
pub const DEFAULT_FETCH_WINDOW_DAYS: i64 = 7;

/// One channel table as the configuration file carries it: display name and
/// identifier text.
#[derive(Debug)]
pub struct RawChannel {
    pub name: String,
    pub id: String,
}

/// The window the configuration asks for: the named value, or the default.
pub open spec fn effective_days(raw: Option<i64>) -> int {
    match raw {
        Some(d) => d as int,
        None => DEFAULT_FETCH_WINDOW_DAYS as int,
    }
}

/// Validate raw configuration values. The window must be positive (the
/// default applies when none is named), every channel identifier must carry
/// the `UC` prefix, and the first invalid channel is reported by name.
pub fn parse_config(raw_days: Option<i64>, raw_channels: Vec<RawChannel>, data_dir: String) -> (r:
    Result<AppConfig, ConfigError>)
    ensures
        effective_days(raw_days) <= 0 ==> (r matches Err(ConfigError::InvalidFetchWindow(m)) && m@
            == "fetch_window_days must be positive"@),
        (effective_days(raw_days) > 0 && !(forall|k: int|
            0 <= k < raw_channels@.len() ==> has_uc_prefix(#[trigger] raw_channels@[k].id@))) ==> (
        r matches Err(ConfigError::InvalidChannel { name, reason }) && (exists|k: int|
            {
                &&& 0 <= k < raw_channels@.len()
                &&& !has_uc_prefix(#[trigger] raw_channels@[k].id@)
                &&& forall|j: int| 0 <= j < k ==> has_uc_prefix(#[trigger] raw_channels@[j].id@)
                &&& name@ == raw_channels@[k].name@
                &&& reason@ == (if raw_channels@[k].id@.len() == 0 {
                    "channel ID cannot be empty"@
                } else {
                    "channel ID must start with 'UC'"@
                })
            })),
        (effective_days(raw_days) > 0 && (forall|k: int|
            0 <= k < raw_channels@.len() ==> has_uc_prefix(#[trigger] raw_channels@[k].id@))) ==> (
        r matches Ok(c) && {
            &&& c.fetch_window_days@ == effective_days(raw_days)
            &&& c.channels@.len() == raw_channels@.len()
            &&& forall|k: int|
                0 <= k < raw_channels@.len() ==> (#[trigger] c.channels@[k]).name@
                    == raw_channels@[k].name@ && c.channels@[k].id@ == raw_channels@[k].id@
            &&& c.data_dir@ == data_dir@
        }),
{
    let days = match raw_days {
        Some(d) => d,
        None => DEFAULT_FETCH_WINDOW_DAYS,
    };
    let window = match FetchWindowDays::parse(days) {
        Ok(w) => w,
        Err(_) => {
            return Err(
                ConfigError::InvalidFetchWindow("fetch_window_days must be positive".to_owned()),
            );
        },
    };
    let ghost all = raw_channels@;
    let mut rest = raw_channels;
    let mut channels: Vec<Channel> = Vec::new();
    proof {
        assert(all.skip(0) =~= all);
    }
    while rest.len() > 0
        invariant
            effective_days(raw_days) > 0,
            all == raw_channels@,
            channels@.len() + rest@.len() == all.len(),
            rest@ == all.skip(channels@.len() as int),
            forall|j: int| 0 <= j < channels@.len() ==> has_uc_prefix(#[trigger] all[j].id@),
            forall|j: int|
                0 <= j < channels@.len() ==> (#[trigger] channels@[j]).name@ == all[j].name@
                    && channels@[j].id@ == all[j].id@,
        decreases rest@.len(),
    {
        let ghost k = channels@.len() as int;
        proof {
            assert(rest@[0] == all[k]);
        }
        let entry = rest.remove(0);
        let id = match ChannelId::parse(entry.id.as_str()) {
            Ok(id) => id,
            Err(e) => {
                let reason = match e {
                    ChannelIdError::Empty => "channel ID cannot be empty".to_owned(),
                    ChannelIdError::InvalidPrefix => "channel ID must start with 'UC'".to_owned(),
                };
                proof {
                    assert(!has_uc_prefix(raw_channels@[k].id@));
                    assert(forall|j: int|
                        0 <= j < k ==> has_uc_prefix(#[trigger] raw_channels@[j].id@));
                }
                return Err(ConfigError::InvalidChannel { name: entry.name, reason });
            },
        };
        channels.push(Channel { name: entry.name, id });
        proof {
            assert(rest@ =~= all.skip(channels@.len() as int));
        }
    }
    Ok(AppConfig { fetch_window_days: window, channels, data_dir })
}

} // verus!

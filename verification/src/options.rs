use vstd::prelude::*;

use config::{Config, ConfigError};

use crate::manager::ClusterManagerOptions;

verus! {

#[verifier::external_type_specification]
#[verifier::external_body]
pub struct ExConfig(Config);

#[verifier::external_type_specification]
#[verifier::external_body]
pub struct ExConfigError(ConfigError);

/// Why settings could not be loaded.
#[derive(Debug)]
pub enum LoadError {
    /// A setting could not be read from the configuration.
    ReadConfig { source: ConfigError },
}

/// The setting under `key` in `config`, read as a `u16`, or why it could not be.
pub uninterp spec fn config_u16(config: Config, key: Seq<char>) -> Result<u16, ConfigError>;

/// Calls `config::Config::get::<u16>(key)`: the setting under `key`, read as a
/// `u16`. It reads the configuration's cached values only, so its result is named
/// `config_u16(config, key)`; nothing more is claimed of it.
#[verifier::external_body]
fn config_get_u16(config: &Config, key: &str) -> (value: Result<u16, ConfigError>)
    ensures
        value == config_u16(*config, key@),
{
    config.get::<u16>(key)
}

/// The options from the two settings as read: both values when both were read,
/// else the error of the first setting that could not be read.
pub open spec fn options_from_settings(
    range_start: Result<u16, ConfigError>,
    range_end: Result<u16, ConfigError>,
) -> Result<ClusterManagerOptions, LoadError> {
    match (range_start, range_end) {
        (Ok(start), Ok(end)) => Ok(
            ClusterManagerOptions { can_server_port_range_start: start, can_server_port_range_end: end },
        ),
        (Err(source), _) => Err(LoadError::ReadConfig { source }),
        (Ok(_), Err(source)) => Err(LoadError::ReadConfig { source }),
    }
}

/// The key of the setting where the port range starts.
pub open spec fn range_start_key() -> Seq<char> {
    "peer.can.server_port_range_start"@
}

/// The key of the setting where the port range ends.
pub open spec fn range_end_key() -> Seq<char> {
    "peer.can.server_port_range_end"@
}

impl ClusterManagerOptions {
    /// The options from the two settings as read: both must have been read.
    pub fn from_settings(
        range_start: Result<u16, ConfigError>,
        range_end: Result<u16, ConfigError>,
    ) -> (options: Result<Self, LoadError>)
        ensures
            options == options_from_settings(range_start, range_end),
    {
        let can_server_port_range_start = match range_start {
            Ok(start) => start,
            Err(source) => {
                return Err(LoadError::ReadConfig { source });
            },
        };
        let can_server_port_range_end = match range_end {
            Ok(end) => end,
            Err(source) => {
                return Err(LoadError::ReadConfig { source });
            },
        };
        Ok(ClusterManagerOptions { can_server_port_range_start, can_server_port_range_end })
    }

    /// Reads the port range from the settings `peer.can.server_port_range_start`
    /// and `peer.can.server_port_range_end`.
    pub fn load(config: &Config) -> (options: Result<Self, LoadError>)
        ensures
            options == options_from_settings(
                config_u16(*config, range_start_key()),
                config_u16(*config, range_end_key()),
            ),
    {
        let range_start = config_get_u16(config, "peer.can.server_port_range_start");
        let range_end = config_get_u16(config, "peer.can.server_port_range_end");
        Self::from_settings(range_start, range_end)
    }
}

} // verus!

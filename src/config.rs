//! The exporter's settings, with their defaults.
use vstd::prelude::*;
use vstd::string::StringExecFns;

verus! {

/// All settings.
#[derive(Clone, Debug)]
pub struct Config {
    pub unifi: UnifiConfig,
    pub monitoring: MonitoringConfig,
    pub server: ServerConfig,
    pub logging: LoggingConfig,
}

/// Where the controller is, how to authenticate, and how often to poll.
#[derive(Clone, Debug)]
pub struct UnifiConfig {
    pub ip: String,
    pub api_token: String,
    pub poll_interval: u64,
}

/// Which sources are polled.
#[derive(Clone, Copy, Debug)]
pub struct MonitoringConfig {
    pub network_devices: bool,
    pub protect_sensors: bool,
}

/// Where the HTTP server listens, and the bearer token it asks for, if any.
#[derive(Clone, Debug)]
pub struct ServerConfig {
    pub bind_address: String,
    pub port: u16,
    pub bearer_token: Option<String>,
}

/// Where log lines go and from which level on.
#[derive(Clone, Debug)]
pub struct LoggingConfig {
    pub log_file: Option<String>,
    pub log_level: String,
}

impl Default for Config {
    /// Controller at 10.0.0.1 with an empty token, polled every 30 s; both
    /// sources on; server on 0.0.0.0:9090 without a token; logs at `info`
    /// to standard output only.
    fn default() -> (r: Config)
        ensures
            r.unifi.ip@ == "10.0.0.1"@,
            r.unifi.api_token@ == ""@,
            r.unifi.poll_interval == 30,
            r.monitoring.network_devices,
            r.monitoring.protect_sensors,
            r.server.bind_address@ == "0.0.0.0"@,
            r.server.port == 9090,
            r.server.bearer_token is None,
            r.logging.log_file is None,
            r.logging.log_level@ == "info"@,
    {
        Config {
            unifi: UnifiConfig {
                ip: String::from_str("10.0.0.1"),
                api_token: String::from_str(""),
                poll_interval: 30,
            },
            monitoring: MonitoringConfig { network_devices: true, protect_sensors: true },
            server: ServerConfig { bind_address: String::from_str("0.0.0.0"), port: 9090, bearer_token: None },
            logging: LoggingConfig { log_file: None, log_level: String::from_str("info") },
        }
    }
}

} // verus!

//! The server configuration and its defaults.

use vstd::prelude::*;
use std::sync::Arc;
use std::sync::Mutex;
use crate::logs::Logger;
use crate::logs::new_mutex;
use crate::logs::lock_contents;

verus! {

/// The server settings, as read from the configuration file.
#[derive(Clone)]
pub struct ServerConfig {
    /// Address the server listens on.
    pub ip: String,
    /// Port the server listens on.
    pub port: u16,
    /// Directory under which each user's passwords are stored.
    pub data_dir: Option<String>,
    /// File listing the accepted API keys.
    pub api_key_file: Option<String>,
    /// File the log lines are appended to.
    pub log_file: Option<String>,
    /// Log level handed to the logger.
    pub log_level: Option<u8>,
}

/// The configuration file read when none is named.
pub open spec fn default_config_path() -> Seq<char> {
    "config.toml"@
}

/// The path of the configuration file: the one given, or `config.toml`.
pub fn config_file_path(config_dir: Option<String>) -> (path: String)
    ensures
        path@ == match config_dir {
            Some(p) => p@,
            None => default_config_path(),
        },
{
    match config_dir {
        Some(p) => p,
        None => String::from_str("config.toml"),
    }
}

impl ServerConfig {
    /// The data directory: the configured one, or `data`.
    pub open spec fn data_dir_view(&self) -> Seq<char> {
        match self.data_dir {
            Some(d) => d@,
            None => "data"@,
        }
    }

    /// The log file: the configured one, or the empty path.
    pub open spec fn log_file_view(&self) -> Seq<char> {
        match self.log_file {
            Some(f) => f@,
            None => Seq::empty(),
        }
    }

    /// The log level: the configured one, or 1.
    pub open spec fn log_level_view(&self) -> u8 {
        match self.log_level {
            Some(l) => l,
            None => 1,
        }
    }

    /// The configured data directory, or `data`.
    pub fn data_dir(&self) -> (dir: String)
        ensures
            dir@ == self.data_dir_view(),
    {
        match &self.data_dir {
            Some(d) => d.clone(),
            None => String::from_str("data"),
        }
    }

    /// The configured log file, or the empty path.
    pub fn log_file(&self) -> (file: String)
        ensures
            file@ == self.log_file_view(),
    {
        match &self.log_file {
            Some(f) => f.clone(),
            None => String::new(),
        }
    }

    /// The configured log level, or 1.
    pub fn log_level(&self) -> (level: u8)
        ensures
            level == self.log_level_view(),
    {
        match self.log_level {
            Some(l) => l,
            None => 1,
        }
    }

    /// A shared logger writing to the configured log file at the configured
    /// level.
    pub fn new_logger(&self) -> (logger: Arc<Mutex<Logger>>)
        ensures
            lock_contents(*logger) == seq![(self.log_file_view(), self.log_level_view())],
    {
        let file = self.log_file();
        let logger = Logger::new(file.as_str(), self.log_level());
        Arc::new(new_mutex(logger))
    }
}

impl Default for ServerConfig {
    /// Listens on 127.0.0.1:8000, with every optional setting left out.
    fn default() -> (config: Self)
        ensures
            config.ip@ == "127.0.0.1"@,
            config.port == 8000,
            config.data_dir is None,
            config.api_key_file is None,
            config.log_file is None,
            config.log_level is None,
    {
        ServerConfig {
            ip: String::from_str("127.0.0.1"),
            port: 8000,
            data_dir: None,
            api_key_file: None,
            log_file: None,
            log_level: None,
        }
    }
}

} // verus!

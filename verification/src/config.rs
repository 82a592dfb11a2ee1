//! The configuration of a server, read from its command line:
//! `--port <port>` and `--replicaof <host> <port>`, in any order and any
//! number of times; where an option is given twice, the last one counts.

use crate::decimal::{parse_u64, parse_unsigned};
use crate::text::{chars_of, str_eq};
use vstd::prelude::*;

verus! {

/// The port that a server listens on when none is given.
pub const DEFAULT_PORT: u16 = 6379;

/// What a server is started with.
#[derive(Debug, Clone)]
pub struct Config {
    /// The port to listen on.
    pub port: u16,
    /// The host and port of the master, for a server that is a replica.
    pub replica_of: Option<(String, u16)>,
}

/// Why a command line is no configuration.
#[derive(Debug, Clone, PartialEq, Eq)]
pub enum ConfigError {
    /// Nothing follows where a port number is due.
    MissingPort,
    /// The text is no port number.
    InvalidPort(String),
    /// Nothing follows `--replicaof`.
    MissingMaster,
    /// The argument is no option.
    UnknownArgument(String),
}

/// What a `Config` holds.
pub struct ConfigView {
    pub port: u16,
    pub replica_of: Option<(Seq<char>, u16)>,
}

/// What a `ConfigError` holds.
pub enum ConfigErrorView {
    MissingPort,
    InvalidPort(Seq<char>),
    MissingMaster,
    UnknownArgument(Seq<char>),
}

impl View for Config {
    type V = ConfigView;

    open spec fn view(&self) -> ConfigView {
        ConfigView {
            port: self.port,
            replica_of: match self.replica_of {
                Some((host, port)) => Some((host@, port)),
                None => None,
            },
        }
    }
}

impl View for ConfigError {
    type V = ConfigErrorView;

    open spec fn view(&self) -> ConfigErrorView {
        match self {
            ConfigError::MissingPort => ConfigErrorView::MissingPort,
            ConfigError::InvalidPort(text) => ConfigErrorView::InvalidPort(text@),
            ConfigError::MissingMaster => ConfigErrorView::MissingMaster,
            ConfigError::UnknownArgument(text) => ConfigErrorView::UnknownArgument(text@),
        }
    }
}

/// The configuration of a server that was given no options.
pub open spec fn default_config() -> ConfigView {
    ConfigView { port: DEFAULT_PORT, replica_of: None }
}

/// The port number that stands at `args[at]`.
pub open spec fn port_at(args: Seq<Seq<char>>, at: int) -> Result<u16, ConfigErrorView> {
    if at >= args.len() {
        Err(ConfigErrorView::MissingPort)
    } else {
        match parse_unsigned(args[at], u16::MAX as nat) {
            Some(port) => Ok(port as u16),
            None => Err(ConfigErrorView::InvalidPort(args[at])),
        }
    }
}

/// The host and port of a master that stand at `args[at]` and behind it.
pub open spec fn master_at(args: Seq<Seq<char>>, at: int) -> Result<
    (Seq<char>, u16),
    ConfigErrorView,
> {
    if at >= args.len() {
        Err(ConfigErrorView::MissingMaster)
    } else {
        match port_at(args, at + 1) {
            Ok(port) => Ok((args[at], port)),
            Err(error) => Err(error),
        }
    }
}

/// The configuration that the options from `args[at]` on make of `config`.
pub open spec fn apply_args(args: Seq<Seq<char>>, at: int, config: ConfigView) -> Result<
    ConfigView,
    ConfigErrorView,
>
    decreases args.len() - at,
{
    if at < 0 || at >= args.len() {
        Ok(config)
    } else if args[at] == "--port"@ {
        match port_at(args, at + 1) {
            Ok(port) => apply_args(args, at + 2, ConfigView { port, ..config }),
            Err(error) => Err(error),
        }
    } else if args[at] == "--replicaof"@ {
        match master_at(args, at + 1) {
            Ok(master) => apply_args(args, at + 3, ConfigView { replica_of: Some(master), ..config }),
            Err(error) => Err(error),
        }
    } else {
        Err(ConfigErrorView::UnknownArgument(args[at]))
    }
}

/// The configuration that the command line `args` asks for. The first
/// argument is the name of the program and says nothing.
pub open spec fn config_of(args: Seq<Seq<char>>) -> Result<ConfigView, ConfigErrorView> {
    apply_args(args, 1, default_config())
}

/// The text that reports `error`.
pub open spec fn config_error_message(error: ConfigErrorView) -> Seq<char> {
    match error {
        ConfigErrorView::MissingPort => "expected port number to follow --port"@,
        ConfigErrorView::InvalidPort(text) => "invalid port number '"@ + text + "'"@,
        ConfigErrorView::MissingMaster => "expected ip address of master to follow --replicaof"@,
        ConfigErrorView::UnknownArgument(text) => "unknown argument '"@ + text + "'"@,
    }
}

impl ConfigError {
    /// The text that reports this error.
    pub fn message(&self) -> (text: String)
        ensures
            text@ == config_error_message(self@),
    {
        match self {
            ConfigError::MissingPort => String::from_str("expected port number to follow --port"),
            ConfigError::InvalidPort(at) => {
                let mut text = String::from_str("invalid port number '");
                text.append(at.as_str());
                text.append("'");
                text
            },
            ConfigError::MissingMaster => String::from_str(
                "expected ip address of master to follow --replicaof",
            ),
            ConfigError::UnknownArgument(at) => {
                let mut text = String::from_str("unknown argument '");
                text.append(at.as_str());
                text.append("'");
                text
            },
        }
    }
}

impl Default for Config {
    fn default() -> (config: Config)
        ensures
            config@ == default_config(),
    {
        Config { port: DEFAULT_PORT, replica_of: None }
    }
}

impl Config {
    /// Reads the port number at `args[at]`.
    pub fn read_port(args: &Vec<String>, at: usize) -> (r: Result<u16, ConfigError>)
        ensures
            match r {
                Ok(port) => port_at(args.deep_view(), at as int) == Ok::<u16, ConfigErrorView>(
                    port,
                ),
                Err(error) => port_at(args.deep_view(), at as int) == Err::<u16, ConfigErrorView>(
                    error@,
                ),
            },
    {
        if at >= args.len() {
            return Err(ConfigError::MissingPort);
        }
        let text = args[at].as_str();
        let digits = chars_of(text);
        match parse_u64(digits.as_slice()) {
            Some(port) => if port <= u16::MAX as u64 {
                Ok(port as u16)
            } else {
                Err(ConfigError::InvalidPort(args[at].clone()))
            },
            None => Err(ConfigError::InvalidPort(args[at].clone())),
        }
    }

    /// Reads the host and the port of a master at `args[at]` and behind it.
    pub fn read_replicaof(args: &Vec<String>, at: usize) -> (r: Result<(String, u16), ConfigError>)
        ensures
            match r {
                Ok((host, port)) => master_at(args.deep_view(), at as int) == Ok::<
                    (Seq<char>, u16),
                    ConfigErrorView,
                >((host@, port)),
                Err(error) => master_at(args.deep_view(), at as int) == Err::<
                    (Seq<char>, u16),
                    ConfigErrorView,
                >(error@),
            },
    {
        if at >= args.len() {
            return Err(ConfigError::MissingMaster);
        }
        match Config::read_port(args, at + 1) {
            Ok(port) => Ok((args[at].clone(), port)),
            Err(error) => Err(error),
        }
    }

    /// Reads the configuration from the command line `args`, the name of
    /// the program first.
    pub fn from_args(args: &Vec<String>) -> (r: Result<Config, ConfigError>)
        ensures
            match r {
                Ok(config) => config_of(args.deep_view()) == Ok::<ConfigView, ConfigErrorView>(
                    config@,
                ),
                Err(error) => config_of(args.deep_view()) == Err::<ConfigView, ConfigErrorView>(
                    error@,
                ),
            },
    {
        let mut config = Config::default();
        let mut at: usize = 1;
        while at < args.len()
            invariant
                1 <= at,
                config_of(args.deep_view()) == apply_args(args.deep_view(), at as int, config@),
            decreases args.len() - at,
        {
            let arg = args[at].as_str();
            if str_eq(arg, "--port") {
                match Config::read_port(args, at + 1) {
                    Ok(port) => {
                        config.port = port;
                    },
                    Err(error) => {
                        return Err(error);
                    },
                }
                at = at + 2;
            } else if str_eq(arg, "--replicaof") {
                match Config::read_replicaof(args, at + 1) {
                    Ok(master) => {
                        config.replica_of = Some(master);
                    },
                    Err(error) => {
                        return Err(error);
                    },
                }
                at = at + 3;
            } else {
                return Err(ConfigError::UnknownArgument(args[at].clone()));
            }
        }
        Ok(config)
    }
}

} // verus!

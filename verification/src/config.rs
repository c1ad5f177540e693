//! The server's configuration, as it comes from the command line.

use vstd::prelude::*;

verus! {

/// The transports that can be asked for.
#[derive(Debug, Clone, Copy, PartialEq, Eq, Structural)]
pub enum TransportKind {
    /// Standard input and output, framed.
    Stdio,
    /// A Unix domain socket.
    UnixSocket,
}

/// The options of the server.
#[derive(Debug, Clone)]
pub struct Cli {
    pub transport: TransportKind,
    /// The socket to listen on, for [`TransportKind::UnixSocket`].
    pub socket_path: Option<String>,
    /// The directory that the tool catalog is read from.
    pub scripts_dir: String,
}

/// A transport with what it needs.
#[derive(Debug, Clone, PartialEq, Eq)]
pub enum TransportConfig {
    Stdio,
    UnixSocket(String),
}

/// Why the options name no transport.
#[derive(Debug, Clone, Copy, PartialEq, Eq, Structural)]
pub enum ConfigError {
    /// A socket was asked for, and no path was given.
    MissingSocketPath,
}

impl ConfigError {
    /// The error in words.
    pub fn message(&self) -> (r: String)
        ensures
            r@ == "--socket-path is required when using --transport unix-socket"@,
    {
        "--socket-path is required when using --transport unix-socket".to_owned()
    }
}

impl Cli {
    /// The transport that the options ask for. A socket needs its path.
    pub fn transport_config(&self) -> (r: Result<TransportConfig, ConfigError>)
        ensures
            match self.transport {
                TransportKind::Stdio => r == Ok::<TransportConfig, ConfigError>(
                    TransportConfig::Stdio,
                ),
                TransportKind::UnixSocket => match self.socket_path {
                    Some(path) => r matches Ok(TransportConfig::UnixSocket(p)) && p@ == path@,
                    None => r == Err::<TransportConfig, ConfigError>(ConfigError::MissingSocketPath),
                },
            },
    {
        match self.transport {
            TransportKind::Stdio => Ok(TransportConfig::Stdio),
            TransportKind::UnixSocket => match &self.socket_path {
                Some(path) => Ok(TransportConfig::UnixSocket(path.clone())),
                None => Err(ConfigError::MissingSocketPath),
            },
        }
    }
}

} // verus!

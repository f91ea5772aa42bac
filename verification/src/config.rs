//! The server's configuration and the checks made on it at startup.

use vstd::prelude::*;
use crate::classify::{kind_of, EntryKind, Metadata};
use crate::resolve::{resolve_against, resolved};
use crate::text::{chars_of, string_of};

verus! {

/// The port that is served when none is asked for.
pub const DEFAULT_PORT: u16 = 8080;

/// What the server is started with. It does not change afterwards.
#[derive(Clone, Debug, PartialEq, Eq)]
pub struct ServerConfig {
    /// The directory whose contents are served.
    pub root_directory: String,
    /// The port to listen on.
    pub port: u16,
}

/// Why a configuration cannot be served.
#[derive(Clone, Copy, Debug, PartialEq, Eq, Structural)]
pub enum ConfigError {
    /// The root directory is there but is not a directory.
    NotADirectory,
    /// The root directory's metadata could not be read.
    Inaccessible,
}

/// The directory that is served when none is asked for.
pub open spec fn default_directory() -> Seq<char> {
    seq!['.']
}

/// What the server does once its configuration is checked.
#[derive(Clone, Copy, Debug, PartialEq, Eq, Structural)]
pub enum Startup {
    /// Bind the port and serve.
    Listen { port: u16 },
    /// Print the error's diagnostic and end without binding any port.
    Abort { error: ConfigError },
}

/// Whether a `directory` argument is taken relative to the current directory:
/// a missing one is, and so is one that starts with `.`.
pub open spec fn is_relative_to_current_dir(directory: Option<Seq<char>>) -> bool {
    match directory {
        Some(text) => text.len() > 0 && text[0] == '.',
        None => true,
    }
}

/// The root directory that a `directory` argument stands for. One that starts
/// with `.` is taken relative to `current_dir`: a lone `.` is `current_dir`
/// itself, anything longer has what follows the `.` resolved against
/// `current_dir`. Any other argument is taken as it is.
pub open spec fn working_directory(directory: Seq<char>, current_dir: Seq<char>) -> Seq<char> {
    if directory.len() > 0 && directory[0] == '.' {
        if directory.len() == 1 {
            current_dir
        } else {
            resolved(current_dir, directory.drop_first())
        }
    } else {
        directory
    }
}

/// The check that a root directory with this metadata passes or fails.
pub open spec fn config_check(root_metadata: Option<Metadata>) -> Result<(), ConfigError> {
    match kind_of(root_metadata) {
        EntryKind::Directory => Ok(()),
        EntryKind::File => Err(ConfigError::NotADirectory),
        EntryKind::Missing => Err(ConfigError::Inaccessible),
    }
}

impl ConfigError {
    /// The diagnostic shown for this error.
    pub open spec fn diagnostic(self) -> Seq<char> {
        match self {
            ConfigError::NotADirectory => "not a working directory"@,
            ConfigError::Inaccessible => "error accessing working directory"@,
        }
    }

    /// The diagnostic to print before giving up.
    pub fn message(&self) -> (text: &'static str)
        ensures
            text@ == self.diagnostic(),
    {
        match self {
            ConfigError::NotADirectory => "not a working directory",
            ConfigError::Inaccessible => "error accessing working directory",
        }
    }
}

/// Whether `init_config` will look at the current directory for this
/// `directory` argument. Where it will not, any text may be handed to it in
/// the current directory's place.
pub fn needs_current_dir(directory: Option<&str>) -> (needed: bool)
    ensures
        needed == is_relative_to_current_dir(
            match directory {
                Some(text) => Some(text@),
                None => None,
            },
        ),
        !needed ==> forall|current_dir: Seq<char>|
            working_directory(directory->0@, current_dir) == directory->0@,
{
    match directory {
        Some(text) => {
            let chars = chars_of(text);
            chars.len() > 0 && chars[0] == '.'
        },
        None => true,
    }
}

/// Builds the configuration from the startup arguments, each of which may be
/// missing, and the process's current directory.
pub fn init_config(port: Option<u16>, directory: Option<&str>, current_dir: &str) -> (config:
    ServerConfig)
    ensures
        config.port == match port {
            Some(number) => number,
            None => DEFAULT_PORT,
        },
        config.root_directory@ == working_directory(
            match directory {
                Some(text) => text@,
                None => default_directory(),
            },
            current_dir@,
        ),
{
    let port_number = match port {
        Some(number) => number,
        None => DEFAULT_PORT,
    };
    let root_directory = match directory {
        Some(text) => root_directory_for(text, current_dir),
        None => current_dir.to_owned(),
    };
    ServerConfig { root_directory, port: port_number }
}

/// The root directory that `directory` stands for in `current_dir`.
pub fn root_directory_for(directory: &str, current_dir: &str) -> (root: String)
    ensures
        root@ == working_directory(directory@, current_dir@),
{
    let mut chars = chars_of(directory);
    if chars.len() > 0 && chars[0] == '.' {
        if chars.len() == 1 {
            current_dir.to_owned()
        } else {
            chars.remove(0);
            resolve_against(current_dir, string_of(&chars).as_str())
        }
    } else {
        directory.to_owned()
    }
}

/// Decides from the root directory's metadata whether the server may start.
/// It may only if the root is a directory; otherwise the error says why not,
/// and no port is to be bound.
pub fn check_config(root_metadata: Option<Metadata>) -> (checked: Result<(), ConfigError>)
    ensures
        checked == config_check(root_metadata),
        checked is Ok <==> (root_metadata matches Some(found) && found.is_dir),
{
    match root_metadata {
        None => Err(ConfigError::Inaccessible),
        Some(found) => if found.is_dir {
            Ok(())
        } else {
            Err(ConfigError::NotADirectory)
        },
    }
}

/// Decides whether to serve: the port is bound only if the root directory is
/// one, and otherwise the error to report is named.
pub fn startup(config: &ServerConfig, root_metadata: Option<Metadata>) -> (decision: Startup)
    ensures
        decision == match config_check(root_metadata) {
            Ok(_) => Startup::Listen { port: config.port },
            Err(error) => Startup::Abort { error },
        },
        decision is Listen <==> (root_metadata matches Some(found) && found.is_dir),
{
    match check_config(root_metadata) {
        Ok(_) => Startup::Listen { port: config.port },
        Err(error) => Startup::Abort { error },
    }
}

} // verus!

//! The server's configuration and its validation.

use vstd::prelude::*;
use vstd::string::*;
use crate::text::{decimal, decimal_text, signed_decimal, signed_decimal_text, text_eq};

verus! {

/// The standard library's `PathBuf`, carried through without a look
/// inside.
#[verifier::external_type_specification]
#[verifier::external_body]
pub struct ExPathBuf(std::path::PathBuf);

/// The path that the standard library's `PathBuf::from` makes of the text
/// `path`.
pub uninterp spec fn path_of(path: Seq<char>) -> std::path::PathBuf;

/// Where the server listens.
#[derive(Debug)]
pub struct ServerConfig {
    pub host: String,
    pub port: u16,
}

/// Where the event table is kept, and how SQLite is tuned for it.
#[derive(Debug)]
pub struct DatabaseConfig {
    pub path: String,
    pub pragma_journal_mode: String,
    pub pragma_synchronous: String,
    pub pragma_busy_timeout: u32,
    pub pragma_cache_size: i32,
}

/// What the server asks of a request before it reads the event.
#[derive(Debug)]
pub struct SecurityConfig {
    pub expected_user_agent: String,
    pub valid_actions: Vec<String>,
}

/// How the server logs.
#[derive(Debug)]
pub struct LoggingConfig {
    pub level: String,
    pub format: String,
}

/// The whole configuration of the server.
#[derive(Debug)]
pub struct Config {
    pub server: ServerConfig,
    pub database: DatabaseConfig,
    pub security: SecurityConfig,
    pub logging: LoggingConfig,
}

/// Why a configuration was not accepted.
#[derive(Debug)]
pub enum ConfigError {
    /// The file could not be read.
    FileRead(String),
    /// The file is not the TOML that the server expects.
    Parse(String),
    /// The list of valid actions holds a code that the server does not know.
    InvalidAction(String),
    /// The port is 0.
    InvalidPort,
}

/// The texts of a list of strings.
pub open spec fn texts(list: Seq<String>) -> Seq<Seq<char>> {
    Seq::new(list.len(), |i: int| list[i]@)
}

/// `action` is one of the codes that the server knows: `C`, `D`, `M`.
pub open spec fn known_action(action: Seq<char>) -> bool {
    action == "C"@ || action == "D"@ || action == "M"@
}

/// Whether `action` is one of the codes that the server knows.
pub fn is_known_action(action: &str) -> (known: bool)
    ensures
        known == known_action(action@),
{
    text_eq(action, "C") || text_eq(action, "D") || text_eq(action, "M")
}

impl DatabaseConfig {
    /// The path of the database file. Trusted: calls `PathBuf::from` of
    /// the standard library on `path`, and claims only that the result
    /// depends on the text alone.
    #[verifier::external_body]
    pub fn path_buf(&self) -> (path: std::path::PathBuf)
        ensures
            path == path_of(self.path@),
    {
        std::path::PathBuf::from(&self.path)
    }

    /// The address of the database for the SQLite driver: `sqlite:` and the
    /// path.
    pub fn sqlite_url(&self) -> (url: String)
        ensures
            url@ == "sqlite:"@ + self.path@,
    {
        let mut url = String::from_str("sqlite:");
        url.append(self.path.as_str());
        url
    }

    /// The statements that tune SQLite, in the order in which they are
    /// sent: journal mode, synchronous, busy timeout, cache size.
    pub fn pragmas(&self) -> (statements: Vec<String>)
        ensures
            statements@.len() == 4,
            statements@[0]@ == "PRAGMA journal_mode = "@ + self.pragma_journal_mode@,
            statements@[1]@ == "PRAGMA synchronous = "@ + self.pragma_synchronous@,
            statements@[2]@ == "PRAGMA busy_timeout = "@ + decimal(self.pragma_busy_timeout as nat),
            statements@[3]@ == "PRAGMA cache_size = "@ + signed_decimal(
                self.pragma_cache_size as int,
            ),
    {
        let mut journal = String::from_str("PRAGMA journal_mode = ");
        journal.append(self.pragma_journal_mode.as_str());
        let mut synchronous = String::from_str("PRAGMA synchronous = ");
        synchronous.append(self.pragma_synchronous.as_str());
        let mut busy = String::from_str("PRAGMA busy_timeout = ");
        busy.append(decimal_text(self.pragma_busy_timeout as u64).as_str());
        let mut cache = String::from_str("PRAGMA cache_size = ");
        cache.append(signed_decimal_text(self.pragma_cache_size as i64).as_str());
        let mut statements: Vec<String> = Vec::new();
        statements.push(journal);
        statements.push(synchronous);
        statements.push(busy);
        statements.push(cache);
        statements
    }
}

impl Config {
    /// The address that the server binds: host, a colon, and the port.
    pub fn bind_address(&self) -> (address: String)
        ensures
            address@ == self.server.host@ + seq![':'] + decimal(self.server.port as nat),
    {
        let mut address = self.server.host.clone();
        address.append(":");
        proof {
            reveal_strlit(":");
        }
        address.append(decimal_text(self.server.port as u64).as_str());
        address
    }

    /// Checks the list of valid actions, then the port. The first action
    /// that the server does not know is refused by name; with every action
    /// known, a port of 0 is refused.
    pub fn validate(&self) -> (r: Result<(), ConfigError>)
        ensures
            match r {
                Ok(_) => {
                    &&& forall|i: int|
                        0 <= i < self.security.valid_actions@.len() ==> known_action(
                            #[trigger] self.security.valid_actions@[i]@,
                        )
                    &&& self.server.port != 0
                },
                Err(ConfigError::InvalidAction(action)) => exists|i: int|
                    {
                        &&& 0 <= i < self.security.valid_actions@.len()
                        &&& !known_action(#[trigger] self.security.valid_actions@[i]@)
                        &&& action@ == self.security.valid_actions@[i]@
                        &&& forall|j: int|
                            0 <= j < i ==> known_action(
                                #[trigger] self.security.valid_actions@[j]@,
                            )
                    },
                Err(ConfigError::InvalidPort) => {
                    &&& forall|i: int|
                        0 <= i < self.security.valid_actions@.len() ==> known_action(
                            #[trigger] self.security.valid_actions@[i]@,
                        )
                    &&& self.server.port == 0
                },
                Err(_) => false,
            },
    {
        let actions = &self.security.valid_actions;
        let mut i: usize = 0;
        while i < actions.len()
            invariant
                i <= actions@.len(),
                actions == &self.security.valid_actions,
                forall|j: int| 0 <= j < i ==> known_action(#[trigger] actions@[j]@),
            decreases actions@.len() - i,
        {
            if !is_known_action(actions[i].as_str()) {
                return Err(ConfigError::InvalidAction(actions[i].clone()));
            }
            i += 1;
        }
        if self.server.port == 0 {
            return Err(ConfigError::InvalidPort);
        }
        Ok(())
    }
}

impl ConfigError {
    /// The error in words.
    pub fn message(&self) -> (text: String)
        ensures
            text@ == match self {
                ConfigError::FileRead(cause) => "Impossible de lire le fichier de configuration: "@
                    + cause@,
                ConfigError::Parse(cause) => "Erreur de parsing TOML: "@ + cause@,
                ConfigError::InvalidAction(action) => "Action invalide: "@ + action@,
                ConfigError::InvalidPort => "Port invalide"@,
            },
    {
        match self {
            ConfigError::FileRead(cause) => {
                let mut text = String::from_str("Impossible de lire le fichier de configuration: ");
                text.append(cause.as_str());
                text
            },
            ConfigError::Parse(cause) => {
                let mut text = String::from_str("Erreur de parsing TOML: ");
                text.append(cause.as_str());
                text
            },
            ConfigError::InvalidAction(action) => {
                let mut text = String::from_str("Action invalide: ");
                text.append(action.as_str());
                text
            },
            ConfigError::InvalidPort => String::from_str("Port invalide"),
        }
    }
}

} // verus!

//! A rule-based URL dispatcher.
//!
//! Given a URL and an ordered list of user rules, the library selects the
//! first rule whose constraints match the URL, follows redirect templates
//! until a rule with a command is found, and expands that command template
//! into an argument vector by substituting URL components.

use vstd::prelude::*;

pub mod args;
pub mod config;
pub mod find_command;
pub mod format;
pub mod urls;

verus! {

/// Everything that can go wrong while dispatching a URL.
///
/// `ParseUrl`, `ParseConfig`, `ConfigNotFound`, `ExecuteCommand` and
/// `CommandFinish` are produced by the surrounding program (argument
/// handling, config loading, process spawning); the library itself returns
/// only `InvalidRedirect`, `NoRuleFound`, `BadTemplate` and
/// `TooManyRedirects`.
#[derive(Debug, Clone, PartialEq, Eq)]
pub enum Error {
    /// A command-line argument could not be parsed as a URL.
    ParseUrl(String),
    /// A redirect template rendered to a string that is not a valid URL.
    InvalidRedirect,
    /// No rule matched, or the matched rule has neither command nor redirect.
    NoRuleFound,
    /// The config file could not be parsed.
    ParseConfig,
    /// The config file could not be found.
    ConfigNotFound,
    /// The resolved command could not be spawned.
    ExecuteCommand,
    /// Waiting for the spawned command failed.
    CommandFinish,
    /// A template holds a malformed or unresolvable variable reference.
    BadTemplate,
    /// Redirect resolution did not reach a command within the hop limit.
    TooManyRedirects,
}

impl Error {
    /// A one-line human-readable description of the error.
    pub fn message(&self) -> (r: String)
        ensures
            r@ == self.message_spec(),
    {
        match self {
            Error::ParseUrl(u) => String::from_str("Failed to parse url: ").concat(u.as_str()),
            Error::InvalidRedirect => String::from_str("Invalid url on redirect"),
            Error::NoRuleFound => String::from_str("No rule found"),
            Error::ParseConfig => String::from_str("Could not parse config"),
            Error::ConfigNotFound => String::from_str("Could not find config file"),
            Error::ExecuteCommand => String::from_str("Could not execute command"),
            Error::CommandFinish => String::from_str("Failed to wait for command to finish"),
            Error::BadTemplate => String::from_str("Invalid variable reference in template"),
            Error::TooManyRedirects => String::from_str("Too many redirects"),
        }
    }

    /// The text `message` returns, as a sequence of characters.
    pub open spec fn message_spec(&self) -> Seq<char> {
        match self {
            Error::ParseUrl(u) => "Failed to parse url: "@ + u@,
            Error::InvalidRedirect => "Invalid url on redirect"@,
            Error::NoRuleFound => "No rule found"@,
            Error::ParseConfig => "Could not parse config"@,
            Error::ConfigNotFound => "Could not find config file"@,
            Error::ExecuteCommand => "Could not execute command"@,
            Error::CommandFinish => "Failed to wait for command to finish"@,
            Error::BadTemplate => "Invalid variable reference in template"@,
            Error::TooManyRedirects => "Too many redirects"@,
        }
    }
}

} // verus!

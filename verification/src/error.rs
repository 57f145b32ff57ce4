//! Errors of the library, each with the text that describes it.
use vstd::prelude::*;
use crate::text::string_push_str;

verus! {

/// Errors in building a message.
#[derive(Debug)]
pub enum MessageError {
    /// The input could not be read as a message.
    ParseError(String),
}

/// Errors in managing a bot's plugins.
#[derive(Debug)]
pub enum BotError {
    /// No plugin has this name.
    PluginNotFound(String),
    /// The bot that a handle pointed to no longer exists.
    RefExpired,
}

/// Errors in building a bot from its configuration.
#[derive(Debug)]
pub enum BotBuildError {
    /// The configuration file is not valid TOML.
    TomlParseError(String),
    /// The configuration file could not be created.
    FileCreateError(String),
    /// The configuration file could not be read.
    FileReadError(String),
}

/// Errors in reading an event.
#[derive(Debug)]
pub enum EventBuildError {
    /// The event is not valid JSON or lacks a field it needs.
    ParseError(String),
}

/// `prefix` followed by `s`.
fn prefixed(prefix: &str, s: &str) -> (r: String)
    ensures
        r@ == prefix@ + s@,
{
    let mut r = String::new();
    string_push_str(&mut r, prefix);
    string_push_str(&mut r, s);
    r
}

impl MessageError {
    /// The text that describes the error.
    pub fn to_string(&self) -> (r: String)
        ensures
            match self {
                MessageError::ParseError(s) => r@ == "Parse error: "@ + s@,
            },
    {
        match self {
            MessageError::ParseError(s) => prefixed("Parse error: ", s.as_str()),
        }
    }
}

impl BotError {
    /// The text that describes the error.
    pub fn to_string(&self) -> (r: String)
        ensures
            match self {
                BotError::PluginNotFound(s) => r@ == "Plugin not found: "@ + s@,
                BotError::RefExpired => r@ == "Bot's Weak reference has expired"@,
            },
    {
        match self {
            BotError::PluginNotFound(s) => prefixed("Plugin not found: ", s.as_str()),
            BotError::RefExpired => "Bot's Weak reference has expired".to_owned(),
        }
    }
}

impl BotBuildError {
    /// The text that describes the error.
    pub fn to_string(&self) -> (r: String)
        ensures
            match self {
                BotBuildError::TomlParseError(s) => r@ == "Failed to parse TOML:\n"@ + s@
                    + "\nPlease reload the config file"@,
                BotBuildError::FileCreateError(s) => r@ == "Failed to create config file: "@ + s@,
                BotBuildError::FileReadError(s) => r@ == "Failed to read TOML file: "@ + s@,
            },
    {
        match self {
            BotBuildError::TomlParseError(s) => {
                let mut r = prefixed("Failed to parse TOML:\n", s.as_str());
                string_push_str(&mut r, "\nPlease reload the config file");
                r
            },
            BotBuildError::FileCreateError(s) => prefixed("Failed to create config file: ", s.as_str()),
            BotBuildError::FileReadError(s) => prefixed("Failed to read TOML file: ", s.as_str()),
        }
    }
}

impl EventBuildError {
    /// The text that describes the error.
    pub fn to_string(&self) -> (r: String)
        ensures
            match self {
                EventBuildError::ParseError(s) => r@ == "Parse error: "@ + s@,
            },
    {
        match self {
            EventBuildError::ParseError(s) => prefixed("Parse error: ", s.as_str()),
        }
    }
}

} // verus!

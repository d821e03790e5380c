//! The engine's errors.

use crate::text::{concat, decimal, push_decimal};
use vstd::prelude::*;
use vstd::string::StringExecFns;

verus! {

#[derive(Debug)]
pub enum EngineError {
    Config(String),
    ConfigValidation { message: String, field: String },
    Transform { transform: String, message: String },
    FlowLimitExceeded { max: usize, current: usize },
    QueueFull { queue_name: String, max_size: usize },
    InvalidPacket(String),
    Pipeline(String),
    /// An address that could not be used, in its text form.
    InvalidIpAddr(String),
    /// An I/O failure, by its message.
    Io(String),
    /// A JSON failure, by its message.
    Serialization(String),
    /// A TOML failure, by its message.
    TomlParse(String),
    NotRunning,
    AlreadyRunning,
    Shutdown,
}

impl EngineError {
    /// Whether this is a validation failure on `field` with `message`.
    pub open spec fn is_validation(&self, field: Seq<char>, message: Seq<char>) -> bool {
        match self {
            EngineError::ConfigValidation { message: m, field: f } => f@ == field && m@ == message,
            _ => false,
        }
    }

    /// Whether this is a failure of the transform `transform` with `message`.
    pub open spec fn is_transform(&self, transform: Seq<char>, message: Seq<char>) -> bool {
        match self {
            EngineError::Transform { transform: t, message: m } => t@ == transform && m@
                == message,
            _ => false,
        }
    }

    pub fn validation(field: &str, message: &str) -> (error: Self)
        ensures
            error.is_validation(field@, message@),
    {
        EngineError::ConfigValidation { field: field.to_owned(), message: message.to_owned() }
    }

    pub fn transform(transform: &str, message: &str) -> (error: Self)
        ensures
            error.is_transform(transform@, message@),
    {
        EngineError::Transform { transform: transform.to_owned(), message: message.to_owned() }
    }

    /// The text that `describe` gives.
    pub open spec fn description(&self) -> Seq<char> {
        match self {
            EngineError::Config(text) => "Configuration error: "@ + text@,
            EngineError::ConfigValidation { message, field } => "Configuration validation failed: "@
                + message@,
            EngineError::Transform { transform, message } => "Transform error in '"@ + transform@
                + "': "@ + message@,
            EngineError::FlowLimitExceeded { max, current } => "Flow limit exceeded: max "@
                + decimal(*max as nat) + " flows, current "@ + decimal(*current as nat),
            EngineError::QueueFull { queue_name, max_size } => "Queue full: "@ + queue_name@
                + " (max size: "@ + decimal(*max_size as nat) + ")"@,
            EngineError::InvalidPacket(text) => "Invalid packet: "@ + text@,
            EngineError::Pipeline(text) => "Pipeline error: "@ + text@,
            EngineError::InvalidIpAddr(text) => "Invalid IP address: "@ + text@,
            EngineError::Io(text) => "IO error: "@ + text@,
            EngineError::Serialization(text) => "Serialization error: "@ + text@,
            EngineError::TomlParse(text) => "TOML parse error: "@ + text@,
            EngineError::NotRunning => "Engine not running"@,
            EngineError::AlreadyRunning => "Engine already running"@,
            EngineError::Shutdown => "Shutdown requested"@,
        }
    }

    /// The error as a line of text for people.
    pub fn describe(&self) -> (text: String)
        ensures
            text@ == self.description(),
    {
        match self {
            EngineError::Config(text) => concat("Configuration error: ", text.as_str()),
            EngineError::ConfigValidation { message, field } => concat(
                "Configuration validation failed: ",
                message.as_str(),
            ),
            EngineError::Transform { transform, message } => {
                let mut text = concat("Transform error in '", transform.as_str());
                text.append("': ");
                text.append(message.as_str());
                text
            },
            EngineError::FlowLimitExceeded { max, current } => {
                let mut text = "Flow limit exceeded: max ".to_owned();
                push_decimal(&mut text, *max as u64);
                text.append(" flows, current ");
                push_decimal(&mut text, *current as u64);
                text
            },
            EngineError::QueueFull { queue_name, max_size } => {
                let mut text = concat("Queue full: ", queue_name.as_str());
                text.append(" (max size: ");
                push_decimal(&mut text, *max_size as u64);
                text.append(")");
                text
            },
            EngineError::InvalidPacket(text) => concat("Invalid packet: ", text.as_str()),
            EngineError::Pipeline(text) => concat("Pipeline error: ", text.as_str()),
            EngineError::InvalidIpAddr(text) => concat("Invalid IP address: ", text.as_str()),
            EngineError::Io(text) => concat("IO error: ", text.as_str()),
            EngineError::Serialization(text) => concat("Serialization error: ", text.as_str()),
            EngineError::TomlParse(text) => concat("TOML parse error: ", text.as_str()),
            EngineError::NotRunning => "Engine not running".to_owned(),
            EngineError::AlreadyRunning => "Engine already running".to_owned(),
            EngineError::Shutdown => "Shutdown requested".to_owned(),
        }
    }
}

} // verus!

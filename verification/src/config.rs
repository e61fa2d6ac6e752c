//! The settings that a connection needs, and the rule that they must meet.

use vstd::prelude::*;
use vstd::string::StringExecFns;

verus! {

/// Bytes in a device's local key.
pub const LOCAL_KEY_LEN: usize = 16;

/// Where the device is and how to talk to it.
pub struct Config {
    /// Address of the device on the local network.
    pub device_ip: String,
    /// Identity under which the device knows itself.
    pub device_id: String,
    /// The symmetric key shared with the device, as text.
    pub local_key: String,
}

/// Why no configuration could be had.
#[derive(Debug)]
pub enum ConfigError {
    /// There is no file at this path.
    FileNotFound(String),
    /// The file is no valid configuration; holds the parser's complaint.
    ParseError(String),
    /// The local key is not exactly 16 bytes long.
    InvalidLocalKey,
}

impl ConfigError {
    /// The error in words.
    pub open spec fn message(self) -> Seq<char> {
        match self {
            ConfigError::FileNotFound(path) => "Config file not found: "@ + path@,
            ConfigError::ParseError(complaint) => "Failed to parse config: "@ + complaint@,
            ConfigError::InvalidLocalKey => "local_key must be exactly 16 characters"@,
        }
    }

    /// Writes the error out in words.
    pub fn to_string(&self) -> (text: String)
        ensures
            text@ == self.message(),
    {
        let mut text = String::new();
        match self {
            ConfigError::FileNotFound(path) => {
                text.append("Config file not found: ");
                text.append(path.as_str());
            },
            ConfigError::ParseError(complaint) => {
                text.append("Failed to parse config: ");
                text.append(complaint.as_str());
            },
            ConfigError::InvalidLocalKey => {
                text.append("local_key must be exactly 16 characters");
            },
        }
        assert(text@ =~= self.message());
        text
    }
}

/// Number of bytes that `text` takes up in UTF-8.
pub open spec fn byte_len(text: Seq<char>) -> nat {
    vstd::utf8::encode_utf8(text).len()
}

/// Accepts a configuration whose local key is exactly 16 bytes long and
/// rejects every other.
pub fn check_config(config: Config) -> (r: Result<Config, ConfigError>)
    ensures
        match r {
            Ok(accepted) => accepted == config && byte_len(config.local_key@) == LOCAL_KEY_LEN,
            Err(e) => e == ConfigError::InvalidLocalKey && byte_len(config.local_key@)
                != LOCAL_KEY_LEN,
        },
{
    if config.local_key.as_str().as_bytes().len() != LOCAL_KEY_LEN {
        return Err(ConfigError::InvalidLocalKey);
    }
    Ok(config)
}

} // verus!

//! The library's error type and its retry classification.
use vstd::prelude::*;
use crate::text::{cat2, string_from, has_prefix};

verus! {

/// Every failure the library reports.
#[derive(Debug)]
pub enum Error {
    Io(std::io::Error),
    Protocol(String),
    Auth(String),
    Config(String),
    Transport(String),
    Codec(String),
    Proxy(String),
    Timeout(String),
    InvalidMessage(String),
    /// A JSON (de)serialisation failure, by its message.
    Json(String),
    /// A TOML parse failure, by its message.
    Toml(String),
    ChannelSend,
    ChannelRecv,
    ConnectionClosed,
    Other(String),
}

/// The error is transient (connection lost, timeout, channel failure), so the
/// operation that failed may be retried.
pub open spec fn retriable(e: Error) -> bool {
    match e {
        Error::Io(_) | Error::Transport(_) | Error::Timeout(_) | Error::ConnectionClosed
        | Error::ChannelSend | Error::ChannelRecv => true,
        _ => false,
    }
}

impl Error {
    /// Returns true if this error is transient and the operation can be retried
    /// (connection lost, timeout); false for permanent errors (authentication,
    /// configuration, proxy registration rejected, malformed data).
    pub fn is_retriable(&self) -> (r: bool)
        ensures
            r == retriable(*self),
    {
        match self {
            Error::Io(_) => true,
            Error::Transport(_) => true,
            Error::Timeout(_) => true,
            Error::ConnectionClosed => true,
            Error::ChannelSend | Error::ChannelRecv => true,
            Error::Auth(_) | Error::Config(_) | Error::Proxy(_) => false,
            Error::Protocol(_) | Error::Codec(_) | Error::InvalidMessage(_) => false,
            Error::Json(_) | Error::Toml(_) | Error::Other(_) => false,
        }
    }
}

/// The text of an error, as it is shown to users and sent to peers (for an
/// I/O error, its prefix: the rest is the operating system's text).
pub open spec fn error_text(e: Error) -> Seq<char> {
    match e {
        Error::Io(_) => "IO error: "@,
        Error::Protocol(m) => "Protocol error: "@ + m@,
        Error::Auth(m) => "Authentication failed: "@ + m@,
        Error::Config(m) => "Configuration error: "@ + m@,
        Error::Transport(m) => "Transport error: "@ + m@,
        Error::Codec(m) => "Codec error: "@ + m@,
        Error::Proxy(m) => "Proxy error: "@ + m@,
        Error::Timeout(m) => "Timeout: "@ + m@,
        Error::InvalidMessage(m) => "Invalid message type: "@ + m@,
        Error::Json(m) => "JSON error: "@ + m@,
        Error::Toml(m) => "TOML error: "@ + m@,
        Error::ChannelSend => "Channel send error"@,
        Error::ChannelRecv => "Channel receive error"@,
        Error::ConnectionClosed => "Connection closed"@,
        Error::Other(m) => "Other error: "@ + m@,
    }
}

/// `Display` of an I/O error: the operating system's text for it.
#[verifier::external_body]
fn io_error_text(e: &std::io::Error) -> (s: String) {
    e.to_string()
}

impl Error {
    /// The text of the error (what `Display` shows).
    pub fn message(&self) -> (s: String)
        ensures
            self is Io ==> has_prefix(s@, error_text(*self)),
            !(self is Io) ==> s@ == error_text(*self),
    {
        match self {
            Error::Io(e) => {
                let t = io_error_text(e);
                let s = cat2("IO error: ", t.as_str());
                proof {
                    reveal_strlit("IO error: ");
                    assert(s@.take(10) =~= "IO error: "@);
                }
                s
            },
            Error::Protocol(m) => cat2("Protocol error: ", m.as_str()),
            Error::Auth(m) => cat2("Authentication failed: ", m.as_str()),
            Error::Config(m) => cat2("Configuration error: ", m.as_str()),
            Error::Transport(m) => cat2("Transport error: ", m.as_str()),
            Error::Codec(m) => cat2("Codec error: ", m.as_str()),
            Error::Proxy(m) => cat2("Proxy error: ", m.as_str()),
            Error::Timeout(m) => cat2("Timeout: ", m.as_str()),
            Error::InvalidMessage(m) => cat2("Invalid message type: ", m.as_str()),
            Error::Json(m) => cat2("JSON error: ", m.as_str()),
            Error::Toml(m) => cat2("TOML error: ", m.as_str()),
            Error::ChannelSend => string_from("Channel send error"),
            Error::ChannelRecv => string_from("Channel receive error"),
            Error::ConnectionClosed => string_from("Connection closed"),
            Error::Other(m) => cat2("Other error: ", m.as_str()),
        }
    }
}

/// The library's result type.
pub type Result<T> = core::result::Result<T, Error>;

} // verus!

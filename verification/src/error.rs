//! The typed errors the management layer maps to responses.
use vstd::prelude::*;
use vstd::string::*;

use crate::numbers::{decimal_text, u64_text};

verus! {

/// An error surfaced to the management layer.
#[derive(Debug, Clone, PartialEq, Eq)]
pub enum Error {
    SessionNotFound(u64),
    SessionAlreadyExists(u64),
    ActiveSessionArchive(u64),
    SessionRequestsInProgress(u64),
    ArchivedSessionNotFound(u64),
    ArchivedSessionAlreadyExists(u64),
    ScriptNotFound(String),
    ScriptAlreadyExists(String),
    InvalidScriptName,
    InvalidScript(String),
    CaptureNotFound(u64),
    BreakpointNotFound(u64),
    BypassEntryNotFound(u64),
    BypassEntryInProgress(u64),
    ProxyAlreadyRunning,
    ProxyMustBeStopped,
    InvalidArgument(String),
}

/// The text of an error.
pub open spec fn error_text(e: Error) -> Seq<char> {
    match e {
        Error::SessionNotFound(id) => "session "@ + decimal_text(id as nat) + " not found"@,
        Error::SessionAlreadyExists(id) => "session "@ + decimal_text(id as nat) + " already exists"@,
        Error::ActiveSessionArchive(id) => "active session "@ + decimal_text(id as nat) + " cannot be archived"@,
        Error::SessionRequestsInProgress(id) => "session "@ + decimal_text(id as nat)
            + " has requests in progress"@,
        Error::ArchivedSessionNotFound(id) => "archived session "@ + decimal_text(id as nat) + " not found"@,
        Error::ArchivedSessionAlreadyExists(id) => "archived session "@ + decimal_text(id as nat)
            + " already exists"@,
        Error::ScriptNotFound(name) => "script "@ + name@ + " not found"@,
        Error::ScriptAlreadyExists(name) => "script "@ + name@ + " already exists"@,
        Error::InvalidScriptName => "invalid script name"@,
        Error::InvalidScript(message) => "invalid script: "@ + message@,
        Error::CaptureNotFound(id) => "capture "@ + decimal_text(id as nat) + " not found"@,
        Error::BreakpointNotFound(id) => "breakpoint "@ + decimal_text(id as nat) + " not found"@,
        Error::BypassEntryNotFound(id) => "bypass entry "@ + decimal_text(id as nat) + " not found"@,
        Error::BypassEntryInProgress(id) => "bypass entry "@ + decimal_text(id as nat) + " is still in progress"@,
        Error::ProxyAlreadyRunning => "proxy is already running or changing state"@,
        Error::ProxyMustBeStopped => "proxy must be stopped before regenerating the CA"@,
        Error::InvalidArgument(message) => message@,
    }
}

fn around_id(before: &str, id: u64, after: &str) -> (r: String)
    ensures
        r@ == before@ + decimal_text(id as nat) + after@,
{
    let mut text = String::from_str(before);
    let digits = u64_text(id);
    text.append(digits.as_str());
    text.append(after);
    text
}

fn around_text(before: &str, middle: &str, after: &str) -> (r: String)
    ensures
        r@ == before@ + middle@ + after@,
{
    let mut text = String::from_str(before);
    text.append(middle);
    text.append(after);
    text
}

impl Error {
    /// The text of the error, as it is shown.
    pub fn message(&self) -> (r: String)
        ensures
            r@ == error_text(*self),
    {
        proof {
            reveal_strlit("");
        }
        match self {
            Error::SessionNotFound(id) => around_id("session ", *id, " not found"),
            Error::SessionAlreadyExists(id) => around_id("session ", *id, " already exists"),
            Error::ActiveSessionArchive(id) => around_id("active session ", *id, " cannot be archived"),
            Error::SessionRequestsInProgress(id) => around_id("session ", *id, " has requests in progress"),
            Error::ArchivedSessionNotFound(id) => around_id("archived session ", *id, " not found"),
            Error::ArchivedSessionAlreadyExists(id) => around_id("archived session ", *id, " already exists"),
            Error::ScriptNotFound(name) => around_text("script ", name.as_str(), " not found"),
            Error::ScriptAlreadyExists(name) => around_text("script ", name.as_str(), " already exists"),
            Error::InvalidScriptName => String::from_str("invalid script name"),
            Error::InvalidScript(message) => {
                let text = around_text("invalid script: ", message.as_str(), "");
                assert(text@ =~= "invalid script: "@ + message@);
                text
            },
            Error::CaptureNotFound(id) => around_id("capture ", *id, " not found"),
            Error::BreakpointNotFound(id) => around_id("breakpoint ", *id, " not found"),
            Error::BypassEntryNotFound(id) => around_id("bypass entry ", *id, " not found"),
            Error::BypassEntryInProgress(id) => around_id("bypass entry ", *id, " is still in progress"),
            Error::ProxyAlreadyRunning => String::from_str("proxy is already running or changing state"),
            Error::ProxyMustBeStopped => String::from_str("proxy must be stopped before regenerating the CA"),
            Error::InvalidArgument(message) => message.clone(),
        }
    }
}

} // verus!

//! Failures that the client reports to its caller.

use vstd::prelude::*;
use vstd::string::*;

verus! {

/// The credential file could not be turned into a configuration.
#[derive(Debug)]
pub enum ConfigError {
    /// The file could not be read; carries the reason.
    IO(String),
    /// The file is not a well-formed credential document; carries the reason.
    YAML(String),
}

/// A failed call to the service.
#[derive(Debug)]
pub enum APIClientError {
    /// The connection address is malformed.
    HTTP(tonic::codegen::http::Error),
    /// The session could not be established or was lost; carries the reason.
    Transport(String),
    /// The service answered with a non-success status; carries the status.
    Status(String),
    /// A row batch was not a JSON array.
    MalformedResponse(serde_json::Error),
    /// The service reported that the query failed; carries the whole log line.
    VQL(String),
    /// An operation that needs at least one row received none.
    EmptyResult,
    /// The flow logged an entry of level ERROR; carries the flow identifier.
    FlowFailed(String),
}

/// The kinds of failed calls that a caller tells apart.
#[derive(Clone, Copy, Debug, PartialEq, Eq, Structural)]
pub enum ErrorKind {
    /// The address is malformed, or the session could not be established
    /// or was lost.
    Transport,
    /// The service answered with a non-success status.
    Call,
    /// A row batch could not be decoded.
    Decode,
    /// The service reported that the query failed.
    Query,
    /// An operation that needs at least one row received none.
    EmptyResult,
    /// The flow logged an error.
    FlowFailed,
}

impl ConfigError {
    /// The text shown to the operator.
    pub open spec fn message_text(self) -> Seq<char> {
        match self {
            ConfigError::IO(reason) => "Failed to read file: "@ + reason@,
            ConfigError::YAML(reason) => "Failed to parse YAML: "@ + reason@,
        }
    }

    /// The text shown to the operator.
    pub fn message(&self) -> (r: String)
        ensures
            r@ == self.message_text(),
    {
        match self {
            ConfigError::IO(reason) => String::from_str("Failed to read file: ").concat(
                reason.as_str(),
            ),
            ConfigError::YAML(reason) => String::from_str("Failed to parse YAML: ").concat(
                reason.as_str(),
            ),
        }
    }
}

impl APIClientError {
    /// The kind of the failure.
    pub open spec fn kind_of(self) -> ErrorKind {
        match self {
            APIClientError::HTTP(_) => ErrorKind::Transport,
            APIClientError::Transport(_) => ErrorKind::Transport,
            APIClientError::Status(_) => ErrorKind::Call,
            APIClientError::MalformedResponse(_) => ErrorKind::Decode,
            APIClientError::VQL(_) => ErrorKind::Query,
            APIClientError::EmptyResult => ErrorKind::EmptyResult,
            APIClientError::FlowFailed(_) => ErrorKind::FlowFailed,
        }
    }

    /// The kind of the failure.
    pub fn kind(&self) -> (r: ErrorKind)
        ensures
            r == self.kind_of(),
    {
        match self {
            APIClientError::HTTP(_) => ErrorKind::Transport,
            APIClientError::Transport(_) => ErrorKind::Transport,
            APIClientError::Status(_) => ErrorKind::Call,
            APIClientError::MalformedResponse(_) => ErrorKind::Decode,
            APIClientError::VQL(_) => ErrorKind::Query,
            APIClientError::EmptyResult => ErrorKind::EmptyResult,
            APIClientError::FlowFailed(_) => ErrorKind::FlowFailed,
        }
    }

    /// What the text shown to the operator begins with.
    pub open spec fn message_start(self) -> Seq<char> {
        match self {
            APIClientError::HTTP(_) => "Failed to build API client: "@,
            APIClientError::Transport(_) => "Transport error: "@,
            APIClientError::Status(_) => "Failed to run RPC: "@,
            APIClientError::MalformedResponse(_) => "Failed to parse response: "@,
            APIClientError::VQL(_) => "Failed to run VQL query: "@,
            APIClientError::EmptyResult => "No row received where one is needed"@,
            APIClientError::FlowFailed(_) => "Flow "@,
        }
    }

    /// The text shown to the operator, where the error carries no value of
    /// another library.
    pub open spec fn message_text(self) -> Option<Seq<char>> {
        match self {
            APIClientError::HTTP(_) => None,
            APIClientError::Transport(reason) => Some(self.message_start() + reason@),
            APIClientError::Status(status) => Some(self.message_start() + status@),
            APIClientError::MalformedResponse(_) => None,
            APIClientError::VQL(log) => Some(self.message_start() + log@),
            APIClientError::EmptyResult => Some(self.message_start()),
            APIClientError::FlowFailed(flow_id) => Some(
                self.message_start() + flow_id@ + " failed."@,
            ),
        }
    }

    /// The text shown to the operator.  An error that carries a value of
    /// another library ends with that library's description of it.
    pub fn message(&self) -> (r: String)
        ensures
            self.message_start().is_prefix_of(r@),
            self.message_text() matches Some(text) ==> r@ == text,
    {
        match self {
            APIClientError::HTTP(e) => {
                let reason = e.to_string();
                String::from_str("Failed to build API client: ").concat(reason.as_str())
            },
            APIClientError::Transport(reason) => String::from_str("Transport error: ").concat(
                reason.as_str(),
            ),
            APIClientError::Status(status) => String::from_str("Failed to run RPC: ").concat(
                status.as_str(),
            ),
            APIClientError::MalformedResponse(e) => {
                let reason = e.to_string();
                String::from_str("Failed to parse response: ").concat(reason.as_str())
            },
            APIClientError::VQL(log) => String::from_str("Failed to run VQL query: ").concat(
                log.as_str(),
            ),
            APIClientError::EmptyResult => String::from_str("No row received where one is needed"),
            APIClientError::FlowFailed(flow_id) => {
                let start = String::from_str("Flow ").concat(flow_id.as_str());
                let r = start.concat(" failed.");
                assert(r@ =~= "Flow "@ + flow_id@ + " failed."@);
                assert("Flow "@.is_prefix_of(r@)) by {
                    assert(r@.subrange(0, "Flow "@.len() as int) =~= "Flow "@);
                }
                r
            },
        }
    }
}

} // verus!

//! Error taxonomy shared by the protocol, client, server and agent layers.

use vstd::prelude::*;
use vstd::string::StringExecFns;

verus! {

/// Every failure the library reports, with the human-readable detail kept
/// as a plain string payload.
#[derive(Debug, Clone)]
pub enum Error {
    InvalidRequest(String),
    InvalidParams(String),
    MethodNotFound(String),
    InternalError(String),
    ServerError(String),
    ToolNotFound(String),
    ResourceNotFound(String),
    SerializationError(String),
    RequestError(String),
    Timeout,
    ConnectionError(String),
    LLMError(String),
    Unknown(String),
}

impl Error {
    /// The JSON-RPC numeric code of each error kind.
    pub open spec fn spec_error_code(&self) -> i64 {
        match self {
            Error::InvalidRequest(_) => -32600i64,
            Error::InvalidParams(_) => -32602i64,
            Error::MethodNotFound(_) => -32601i64,
            Error::InternalError(_) => -32603i64,
            Error::ServerError(_) => -32000i64,
            Error::ToolNotFound(_) => -32001i64,
            Error::ResourceNotFound(_) => -32002i64,
            Error::SerializationError(_) => -32603i64,
            Error::RequestError(_) => -32603i64,
            Error::Timeout => -32604i64,
            Error::ConnectionError(_) => -32605i64,
            Error::LLMError(_) => -32606i64,
            Error::Unknown(_) => -32603i64,
        }
    }

    pub fn error_code(&self) -> (c: i64)
        ensures
            c == self.spec_error_code(),
    {
        match self {
            Error::InvalidRequest(_) => -32600,
            Error::InvalidParams(_) => -32602,
            Error::MethodNotFound(_) => -32601,
            Error::InternalError(_) => -32603,
            Error::ServerError(_) => -32000,
            Error::ToolNotFound(_) => -32001,
            Error::ResourceNotFound(_) => -32002,
            Error::SerializationError(_) => -32603,
            Error::RequestError(_) => -32603,
            Error::Timeout => -32604,
            Error::ConnectionError(_) => -32605,
            Error::LLMError(_) => -32606,
            Error::Unknown(_) => -32603,
        }
    }

    /// The prefix that introduces each error kind in its rendered message.
    pub open spec fn spec_message_prefix(&self) -> Seq<char> {
        match self {
            Error::InvalidRequest(_) => "Invalid request: "@,
            Error::InvalidParams(_) => "Invalid params: "@,
            Error::MethodNotFound(_) => "Method not found: "@,
            Error::InternalError(_) => "Internal error: "@,
            Error::ServerError(_) => "Server error: "@,
            Error::ToolNotFound(_) => "Tool not found: "@,
            Error::ResourceNotFound(_) => "Resource not found: "@,
            Error::SerializationError(_) => "Serialization error: "@,
            Error::RequestError(_) => "Request error: "@,
            Error::Timeout => "Timeout"@,
            Error::ConnectionError(_) => "Connection error: "@,
            Error::LLMError(_) => "LLM error: "@,
            Error::Unknown(_) => "Unknown error: "@,
        }
    }

    /// The detail string carried by the error, empty for `Timeout`.
    pub open spec fn spec_detail(&self) -> Seq<char> {
        match self {
            Error::InvalidRequest(s) => s@,
            Error::InvalidParams(s) => s@,
            Error::MethodNotFound(s) => s@,
            Error::InternalError(s) => s@,
            Error::ServerError(s) => s@,
            Error::ToolNotFound(s) => s@,
            Error::ResourceNotFound(s) => s@,
            Error::SerializationError(s) => s@,
            Error::RequestError(s) => s@,
            Error::Timeout => Seq::<char>::empty(),
            Error::ConnectionError(s) => s@,
            Error::LLMError(s) => s@,
            Error::Unknown(s) => s@,
        }
    }

    /// Renders the error as `<prefix><detail>`, the display form callers log.
    pub fn message(&self) -> (r: String)
        ensures
            r@ == self.spec_message_prefix() + self.spec_detail(),
    {
        let (prefix, detail): (&str, Option<&String>) = match self {
            Error::InvalidRequest(s) => ("Invalid request: ", Some(s)),
            Error::InvalidParams(s) => ("Invalid params: ", Some(s)),
            Error::MethodNotFound(s) => ("Method not found: ", Some(s)),
            Error::InternalError(s) => ("Internal error: ", Some(s)),
            Error::ServerError(s) => ("Server error: ", Some(s)),
            Error::ToolNotFound(s) => ("Tool not found: ", Some(s)),
            Error::ResourceNotFound(s) => ("Resource not found: ", Some(s)),
            Error::SerializationError(s) => ("Serialization error: ", Some(s)),
            Error::RequestError(s) => ("Request error: ", Some(s)),
            Error::Timeout => ("Timeout", None),
            Error::ConnectionError(s) => ("Connection error: ", Some(s)),
            Error::LLMError(s) => ("LLM error: ", Some(s)),
            Error::Unknown(s) => ("Unknown error: ", Some(s)),
        };
        let base = String::from_str(prefix);
        match detail {
            Some(s) => base.concat(s.as_str()),
            None => {
                proof {
                    assert(base@ + self.spec_detail() =~= base@);
                }
                base
            },
        }
    }
}

} // verus!

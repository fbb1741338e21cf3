//! Transports: how envelopes reach an endpoint.
//!
//! A [`Connector`] exchanges one request for one response; everything
//! higher — the handshake, listings, tool calls — is derived here from
//! `send_request` by wrapping and unwrapping envelopes. The library ships
//! no transport of its own: implementations plug in from outside, chosen
//! by [`parse_locator`] from the endpoint locator.

use vstd::prelude::*;
use crate::json::{JsonValue, JsonRep, obj_view, lemma_obj_view_len, lemma_obj_view_index};
use crate::envelope::{
    JsonRpcRequest, JsonRpcResponse, opt_json_view, params_member, MCP_VERSION,
};
use crate::error::Error;
use crate::protocol::{Tool, Resource, Prompt, ToolResult, strings_view};
use crate::text::{split_ws, split_whitespace_words};
use crate::wire::{
    parse_tools_result, parse_resources_result, parse_prompts_result, parse_read_resource_result,
    tool_result_from_json,
};

verus! {

/// Settings of an HTTP transport. `retry_attempts` is carried as
/// configured but never acted upon: no transport retries.
pub struct ConnectorConfig {
    pub url: String,
    pub timeout_secs: u64,
    pub retry_attempts: usize,
}

/// The model of a [`ConnectorConfig`].
#[verifier::ext_equal]
pub struct ConnectorConfigRep {
    pub url: Seq<char>,
    pub timeout_secs: u64,
    pub retry_attempts: usize,
}

impl View for ConnectorConfig {
    type V = ConnectorConfigRep;

    open spec fn view(&self) -> ConnectorConfigRep {
        ConnectorConfigRep {
            url: self.url@,
            timeout_secs: self.timeout_secs,
            retry_attempts: self.retry_attempts,
        }
    }
}

impl Clone for ConnectorConfig {
    /// Copies preserve the model.
    fn clone(&self) -> (r: Self)
        ensures
            r@ == self@,
    {
        ConnectorConfig {
            url: self.url.clone(),
            timeout_secs: self.timeout_secs,
            retry_attempts: self.retry_attempts,
        }
    }
}

impl Default for ConnectorConfig {
    /// The default transport settings: a local URL, a 30 second timeout,
    /// and the inert retry count of 3.
    fn default() -> (r: Self)
        ensures
            r@ == (ConnectorConfigRep {
                url: "http://localhost:3000"@,
                timeout_secs: 30u64,
                retry_attempts: 3usize,
            }),
    {
        ConnectorConfig {
            url: String::from_str("http://localhost:3000"),
            timeout_secs: 30,
            retry_attempts: 3,
        }
    }
}

/// Which transport a locator selects, with everything that transport
/// needs to be built.
pub enum TransportConfig {
    Http { config: ConnectorConfig },
    Stdio { command: String, args: Vec<String> },
}

/// The model of a [`TransportConfig`].
#[verifier::ext_equal]
pub enum TransportRep {
    Http { url: Seq<char>, timeout_secs: u64, retry_attempts: usize },
    Stdio { command: Seq<char>, args: Seq<Seq<char>> },
}

impl View for TransportConfig {
    type V = TransportRep;

    open spec fn view(&self) -> TransportRep {
        match self {
            TransportConfig::Http { config } => TransportRep::Http {
                url: config.url@,
                timeout_secs: config.timeout_secs,
                retry_attempts: config.retry_attempts,
            },
            TransportConfig::Stdio { command, args } => TransportRep::Stdio {
                command: command@,
                args: strings_view(args@),
            },
        }
    }
}

/// Whether `p` is a prefix of `s`.
pub open spec fn starts_with(s: Seq<char>, p: Seq<char>) -> bool {
    s.len() >= p.len() && s.subrange(0, p.len() as int) == p
}

/// Tests a string for a prefix.
pub fn has_prefix(s: &str, p: &str) -> (b: bool)
    ensures
        b == starts_with(s@, p@),
{
    let n = s.unicode_len();
    let pn = p.unicode_len();
    if n < pn {
        return false;
    }
    let head = s.substring_char(0, pn).to_owned();
    let pat = String::from_str(p);
    head == pat
}

/// The transport a locator selects: `http://` and `https://` pick the
/// HTTP transport with default timeout and the inert retry count;
/// `stdio://` splits the rest into an executable and its arguments.
pub open spec fn spec_parse_locator(url: Seq<char>) -> Result<TransportRep, ()> {
    if starts_with(url, "http://"@) || starts_with(url, "https://"@) {
        Ok(TransportRep::Http { url, timeout_secs: 30u64, retry_attempts: 3usize })
    } else if starts_with(url, "stdio://"@) {
        let words = split_ws(url.skip(8));
        if words.len() == 0 {
            Err(())
        } else {
            Ok(TransportRep::Stdio { command: words[0], args: words.skip(1) })
        }
    } else {
        Err(())
    }
}

/// Chooses a transport from an endpoint locator. A locator with an
/// unsupported scheme, or a `stdio://` locator with no command word, is
/// rejected as an invalid request.
pub fn parse_locator(url: &str) -> (r: Result<TransportConfig, Error>)
    ensures
        match r {
            Ok(t) => spec_parse_locator(url@) == Ok::<TransportRep, ()>(t@),
            Err(e) => spec_parse_locator(url@) is Err && e is InvalidRequest,
        },
{
    if has_prefix(url, "http://") || has_prefix(url, "https://") {
        Ok(
            TransportConfig::Http {
                config: ConnectorConfig {
                    url: String::from_str(url),
                    timeout_secs: 30,
                    retry_attempts: 3,
                },
            },
        )
    } else if has_prefix(url, "stdio://") {
        let n = url.unicode_len();
        proof {
            reveal_strlit("stdio://");
            assert(url@.len() >= 8);
        }
        let rest = url.substring_char(8, n);
        let mut words = split_whitespace_words(rest);
        if words.len() == 0 {
            Err(Error::InvalidRequest(String::from_str("No command specified in stdio:// URL")))
        } else {
            let command = words.remove(0);
            proof {
                assert(strings_view(words@) =~= split_ws(url@.skip(8)).skip(1));
            }
            Ok(TransportConfig::Stdio { command, args: words })
        }
    } else {
        Err(
            Error::InvalidRequest(
                String::from_str("Unsupported URL scheme. Use http://, https://, or stdio://"),
            ),
        )
    }
}

/// One exchange with an endpoint. Implementations live outside the
/// library: an HTTP POST per request, or a spawned subprocess written and
/// read line by line. `send_request` sends one envelope and blocks for
/// exactly one response; no transport reconnects or retries on its own.
pub trait Connector: Sized {
    /// Builds the transport an endpoint locator selected; nothing is
    /// connected yet.
    fn from_config(config: TransportConfig) -> Self;

    /// Establishes the connection.
    fn connect(&mut self) -> Result<(), Error>;

    /// Tears the connection down.
    fn disconnect(&mut self) -> Result<(), Error>;

    /// Whether the transport is currently connected.
    fn is_connected(&self) -> bool;

    /// Exchanges one request for one response.
    fn send_request(&self, request: &JsonRpcRequest) -> Result<JsonRpcResponse, Error>;
}

/// Unwraps a response envelope: its result if one is there, the reported
/// server error otherwise, and an internal error when it carries neither.
pub fn response_into_result(resp: JsonRpcResponse, missing_msg: &str) -> (r: Result<
    JsonValue,
    Error,
>)
    ensures
        match r {
            Ok(v) => resp@.result == Some(v@),
            Err(e) => resp@.result is None && match e {
                Error::ServerError(m) => resp@.error matches Some(erep) && erep.message == m@,
                Error::InternalError(m) => resp@.error is None && m@ == missing_msg@,
                _ => false,
            },
        },
{
    match resp.result {
        Some(result) => Ok(result),
        None => match resp.error {
            Some(e) => Err(Error::ServerError(e.message)),
            None => Err(Error::InternalError(String::from_str(missing_msg))),
        },
    }
}

/// The handshake parameters: protocol version, client capabilities and
/// client identity.
pub open spec fn spec_initialize_params() -> JsonRep {
    JsonRep::Obj(
        seq![
            ("protocolVersion"@, JsonRep::Str("2025-11-05"@)),
            ("capabilities"@, JsonRep::Obj(seq![("sampling"@, JsonRep::Obj(Seq::empty()))])),
            (
                "clientInfo"@,
                JsonRep::Obj(
                    seq![
                        ("name"@, JsonRep::Str("mcp-framework"@)),
                        ("version"@, JsonRep::Str("0.1.0"@)),
                    ],
                ),
            ),
        ],
    )
}

/// Builds the `initialize` handshake parameters.
pub fn initialize_params() -> (v: JsonValue)
    ensures
        v@ == spec_initialize_params(),
{
    let mut sampling_fields: Vec<(String, JsonValue)> = Vec::new();
    sampling_fields.push((String::from_str("sampling"), JsonValue::empty_obj()));
    let capabilities = JsonValue::Obj(sampling_fields);
    proof {
        lemma_obj_view_len(capabilities->Obj_0@);
        assert forall|j: int| 0 <= j < capabilities->Obj_0@.len()
            implies obj_view(capabilities->Obj_0@)[j] == seq![
            ("sampling"@, JsonRep::Obj(Seq::<(Seq<char>, JsonRep)>::empty())),
        ][j] by {
            lemma_obj_view_index(capabilities->Obj_0@, j);
        }
        assert(obj_view(capabilities->Obj_0@) =~= seq![
            ("sampling"@, JsonRep::Obj(Seq::<(Seq<char>, JsonRep)>::empty())),
        ]);
    }
    let mut info_fields: Vec<(String, JsonValue)> = Vec::new();
    info_fields.push((String::from_str("name"), JsonValue::Str(String::from_str("mcp-framework"))));
    info_fields.push((String::from_str("version"), JsonValue::Str(String::from_str("0.1.0"))));
    let client_info = JsonValue::Obj(info_fields);
    proof {
        let target = seq![
            ("name"@, JsonRep::Str("mcp-framework"@)),
            ("version"@, JsonRep::Str("0.1.0"@)),
        ];
        lemma_obj_view_len(client_info->Obj_0@);
        assert forall|j: int| 0 <= j < client_info->Obj_0@.len()
            implies obj_view(client_info->Obj_0@)[j] == target[j] by {
            lemma_obj_view_index(client_info->Obj_0@, j);
        }
        assert(obj_view(client_info->Obj_0@) =~= target);
    }
    let mut fields: Vec<(String, JsonValue)> = Vec::new();
    fields.push((String::from_str("protocolVersion"), JsonValue::Str(String::from_str(MCP_VERSION))));
    fields.push((String::from_str("capabilities"), capabilities));
    fields.push((String::from_str("clientInfo"), client_info));
    let v = JsonValue::Obj(fields);
    proof {
        reveal_strlit("2025-11-05");
        let target = spec_initialize_params()->Obj_0;
        lemma_obj_view_len(v->Obj_0@);
        assert forall|j: int| 0 <= j < v->Obj_0@.len()
            implies obj_view(v->Obj_0@)[j] == target[j] by {
            lemma_obj_view_index(v->Obj_0@, j);
        }
        assert(obj_view(v->Obj_0@) =~= target);
    }
    v
}

/// The parameters of a `tools/call`: the tool's name and its arguments.
pub open spec fn spec_call_tool_params(name: Seq<char>, arguments: JsonRep) -> JsonRep {
    JsonRep::Obj(seq![("name"@, JsonRep::Str(name)), ("arguments"@, arguments)])
}

/// Builds `tools/call` parameters.
pub fn call_tool_params(tool_name: &str, arguments: JsonValue) -> (v: JsonValue)
    ensures
        v@ == spec_call_tool_params(tool_name@, arguments@),
{
    let ghost arep = arguments@;
    let mut fields: Vec<(String, JsonValue)> = Vec::new();
    fields.push((String::from_str("name"), JsonValue::Str(String::from_str(tool_name))));
    fields.push((String::from_str("arguments"), arguments));
    let v = JsonValue::Obj(fields);
    proof {
        let target = spec_call_tool_params(tool_name@, arep)->Obj_0;
        lemma_obj_view_len(v->Obj_0@);
        assert forall|j: int| 0 <= j < v->Obj_0@.len()
            implies obj_view(v->Obj_0@)[j] == target[j] by {
            lemma_obj_view_index(v->Obj_0@, j);
        }
        assert(obj_view(v->Obj_0@) =~= target);
    }
    v
}

/// The parameters of a `resources/read`: the resource URI.
pub open spec fn spec_read_resource_params(uri: Seq<char>) -> JsonRep {
    JsonRep::Obj(seq![("uri"@, JsonRep::Str(uri))])
}

/// Builds `resources/read` parameters.
pub fn read_resource_params(uri: &str) -> (v: JsonValue)
    ensures
        v@ == spec_read_resource_params(uri@),
{
    let mut fields: Vec<(String, JsonValue)> = Vec::new();
    fields.push((String::from_str("uri"), JsonValue::Str(String::from_str(uri))));
    let v = JsonValue::Obj(fields);
    proof {
        let target = spec_read_resource_params(uri@)->Obj_0;
        lemma_obj_view_len(v->Obj_0@);
        assert forall|j: int| 0 <= j < v->Obj_0@.len()
            implies obj_view(v->Obj_0@)[j] == target[j] by {
            lemma_obj_view_index(v->Obj_0@, j);
        }
        assert(obj_view(v->Obj_0@) =~= target);
    }
    v
}

/// The parameters of a `prompts/get`: the prompt name and its arguments,
/// the empty object standing in for absent arguments.
pub open spec fn spec_get_prompt_params(name: Seq<char>, arguments: Option<JsonRep>) -> JsonRep {
    JsonRep::Obj(
        seq![("name"@, JsonRep::Str(name)), ("arguments"@, params_member(arguments))],
    )
}

/// Builds `prompts/get` parameters.
pub fn get_prompt_params(name: &str, arguments: Option<JsonValue>) -> (v: JsonValue)
    ensures
        v@ == spec_get_prompt_params(name@, opt_json_view(arguments)),
{
    let ghost arep = opt_json_view(arguments);
    let args_value = match arguments {
        Some(a) => a,
        None => JsonValue::empty_obj(),
    };
    let mut fields: Vec<(String, JsonValue)> = Vec::new();
    fields.push((String::from_str("name"), JsonValue::Str(String::from_str(name))));
    fields.push((String::from_str("arguments"), args_value));
    let v = JsonValue::Obj(fields);
    proof {
        let target = spec_get_prompt_params(name@, arep)->Obj_0;
        lemma_obj_view_len(v->Obj_0@);
        assert forall|j: int| 0 <= j < v->Obj_0@.len()
            implies obj_view(v->Obj_0@)[j] == target[j] by {
            lemma_obj_view_index(v->Obj_0@, j);
        }
        assert(obj_view(v->Obj_0@) =~= target);
    }
    v
}

/// Sends the `initialize` handshake and returns the server's reported
/// capabilities, whatever the transport answered.
pub fn initialize<C: Connector>(c: &C) -> Result<JsonValue, Error> {
    let request = JsonRpcRequest::new("initialize", Some(initialize_params()));
    let response = match c.send_request(&request) {
        Ok(resp) => resp,
        Err(e) => {
            return Err(e);
        },
    };
    response_into_result(response, "No result or error in response")
}

/// Lists the server's tools: sends `tools/list` and decodes the listing
/// out of whatever result came back.
pub fn list_tools<C: Connector>(c: &C) -> Result<Vec<Tool>, Error> {
    let request = JsonRpcRequest::new("tools/list", None);
    let response = match c.send_request(&request) {
        Ok(resp) => resp,
        Err(e) => {
            return Err(e);
        },
    };
    let result = match response_into_result(response, "No result in response") {
        Ok(v) => v,
        Err(e) => {
            return Err(e);
        },
    };
    parse_tools_result(&result)
}

/// Calls a tool by name: sends `tools/call` and decodes the tool result
/// out of whatever result came back.
pub fn call_tool<C: Connector>(c: &C, tool_name: &str, arguments: JsonValue) -> Result<
    ToolResult,
    Error,
> {
    let request = JsonRpcRequest::new("tools/call", Some(call_tool_params(tool_name, arguments)));
    let response = match c.send_request(&request) {
        Ok(resp) => resp,
        Err(e) => {
            return Err(e);
        },
    };
    let result = match response_into_result(response, "No result in response") {
        Ok(v) => v,
        Err(e) => {
            return Err(e);
        },
    };
    match tool_result_from_json(&result) {
        Some(t) => Ok(t),
        None => Err(Error::InvalidRequest(String::from_str("Invalid tool result"))),
    }
}

/// Lists the server's resources: sends `resources/list` and decodes the
/// listing out of whatever result came back.
pub fn list_resources<C: Connector>(c: &C) -> Result<Vec<Resource>, Error> {
    let request = JsonRpcRequest::new("resources/list", None);
    let response = match c.send_request(&request) {
        Ok(resp) => resp,
        Err(e) => {
            return Err(e);
        },
    };
    let result = match response_into_result(response, "No result in response") {
        Ok(v) => v,
        Err(e) => {
            return Err(e);
        },
    };
    parse_resources_result(&result)
}

/// Reads one resource by URI: sends `resources/read` and extracts the
/// text of the first returned entry.
pub fn read_resource<C: Connector>(c: &C, uri: &str) -> Result<String, Error> {
    let request = JsonRpcRequest::new("resources/read", Some(read_resource_params(uri)));
    let response = match c.send_request(&request) {
        Ok(resp) => resp,
        Err(e) => {
            return Err(e);
        },
    };
    let result = match response_into_result(response, "No result in response") {
        Ok(v) => v,
        Err(e) => {
            return Err(e);
        },
    };
    parse_read_resource_result(&result)
}

/// Lists the server's prompts: sends `prompts/list` and decodes the
/// listing out of whatever result came back.
pub fn list_prompts<C: Connector>(c: &C) -> Result<Vec<Prompt>, Error> {
    let request = JsonRpcRequest::new("prompts/list", None);
    let response = match c.send_request(&request) {
        Ok(resp) => resp,
        Err(e) => {
            return Err(e);
        },
    };
    let result = match response_into_result(response, "No result in response") {
        Ok(v) => v,
        Err(e) => {
            return Err(e);
        },
    };
    parse_prompts_result(&result)
}

/// Fetches one prompt by name: sends `prompts/get` and returns the raw
/// result tree.
pub fn get_prompt<C: Connector>(c: &C, name: &str, arguments: Option<JsonValue>) -> Result<
    JsonValue,
    Error,
> {
    let request = JsonRpcRequest::new(
        "prompts/get",
        Some(get_prompt_params(name, arguments)),
    );
    let response = match c.send_request(&request) {
        Ok(resp) => resp,
        Err(e) => {
            return Err(e);
        },
    };
    response_into_result(response, "No result in response")
}

} // verus!

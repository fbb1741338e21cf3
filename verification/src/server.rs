//! The server side: a name-keyed catalog of tools, resources and prompts,
//! one tool-execution capability, and the request dispatcher.
//!
//! Registration is keyed: a tool registered under a taken name replaces
//! that entry, so a listing holds each name exactly once —
//! [`lemma_listing_has_one_descriptor_per_name`] states it. Invoking an
//! unregistered tool name fails with `ToolNotFound` before the execute
//! capability is ever consulted.

use vstd::prelude::*;
use crate::json::{JsonValue, JsonRep, obj_view, lemma_obj_view_len, lemma_obj_view_index};
use crate::envelope::{JsonRpcRequest, JsonRpcResponse, JsonRpcError};
use crate::protocol::{
    Tool, ToolRep, Resource, ResourceRep, Prompt, PromptRep, ResultContent, ToolResult,
    ServerCapabilities, tools_view, resources_view, prompts_view, clone_tools, clone_resources,
    clone_prompts,
};
use crate::registry::{
    keyed_insert, unique_keys, contains_key, lookup_by_key, tool_key, resource_key, prompt_key,
    insert_tool_keyed, insert_resource_keyed, insert_prompt_keyed, find_tool, find_resource,
    find_prompt,
};
use crate::wire::{tools_to_json, resources_to_json, prompts_to_json, tool_result_to_json};
use crate::error::Error;

verus! {

/// The capability that executes a tool by name; servers are handed an
/// implementation of it and consult nothing else to run a tool.
pub trait ToolHandler {
    /// Executes the named tool on the given arguments.
    fn execute(&self, name: &str, arguments: JsonValue) -> Result<Vec<ResultContent>, Error>;
}

/// An optional override for resource listing and lookup.
pub trait ResourceHandler {
    /// Fetches one resource by URI.
    fn get(&self, uri: &str) -> Result<Resource, Error>;

    /// Lists every resource.
    fn list(&self) -> Result<Vec<Resource>, Error>;
}

/// An optional override for prompt listing and lookup.
pub trait PromptHandler {
    /// Fetches one prompt by name.
    fn get(&self, name: &str) -> Result<Prompt, Error>;

    /// Lists every prompt.
    fn list(&self) -> Result<Vec<Prompt>, Error>;
}

/// A placeholder for servers that override no resource behavior.
pub struct NoResourceHandler;

impl ResourceHandler for NoResourceHandler {
    fn get(&self, uri: &str) -> Result<Resource, Error> {
        Err(Error::ResourceNotFound(String::from_str(uri)))
    }

    fn list(&self) -> Result<Vec<Resource>, Error> {
        Ok(Vec::new())
    }
}

/// A placeholder for servers that override no prompt behavior.
pub struct NoPromptHandler;

impl PromptHandler for NoPromptHandler {
    fn get(&self, name: &str) -> Result<Prompt, Error> {
        Err(Error::ToolNotFound(String::from_str(name)))
    }

    fn list(&self) -> Result<Vec<Prompt>, Error> {
        Ok(Vec::new())
    }
}

/// How a server announces itself: name, version and capability flags.
pub struct ServerConfig {
    pub name: String,
    pub version: String,
    pub capabilities: ServerCapabilities,
}

impl Default for ServerConfig {
    /// The default identity with nothing announced.
    fn default() -> (r: Self)
        ensures
            r.name@ == "MCP Server"@,
            r.version@ == "1.0.0"@,
            r.capabilities == (ServerCapabilities { tools: None, resources: None, prompts: None }),
    {
        ServerConfig {
            name: String::from_str("MCP Server"),
            version: String::from_str("1.0.0"),
            capabilities: ServerCapabilities { tools: None, resources: None, prompts: None },
        }
    }
}

/// The model of a server: its identity, the three catalogs, and whether
/// the optional handlers are installed.
#[verifier::ext_equal]
pub struct ServerRep {
    pub name: Seq<char>,
    pub version: Seq<char>,
    pub capabilities: ServerCapabilities,
    pub tools: Seq<ToolRep>,
    pub resources: Seq<ResourceRep>,
    pub prompts: Seq<PromptRep>,
    pub has_resource_handler: bool,
    pub has_prompt_handler: bool,
}

/// A protocol server: registered catalogs and the execute capability.
pub struct McpServer<T: ToolHandler, R: ResourceHandler, P: PromptHandler> {
    /// The identity announced in the initialize handshake.
    pub config: ServerConfig,
    tools: Vec<Tool>,
    resources: Vec<Resource>,
    prompts: Vec<Prompt>,
    tool_handler: T,
    resource_handler: Option<R>,
    prompt_handler: Option<P>,
}

impl<T: ToolHandler, R: ResourceHandler, P: PromptHandler> View for McpServer<T, R, P> {
    type V = ServerRep;

    closed spec fn view(&self) -> ServerRep {
        ServerRep {
            name: self.config.name@,
            version: self.config.version@,
            capabilities: self.config.capabilities,
            tools: tools_view(self.tools@),
            resources: resources_view(self.resources@),
            prompts: prompts_view(self.prompts@),
            has_resource_handler: self.resource_handler is Some,
            has_prompt_handler: self.prompt_handler is Some,
        }
    }
}

impl<T: ToolHandler, R: ResourceHandler, P: PromptHandler> McpServer<T, R, P> {
    /// Every catalog holds its key at most once.
    pub open spec fn wf(&self) -> bool {
        &&& unique_keys(self@.tools, tool_key())
        &&& unique_keys(self@.resources, resource_key())
        &&& unique_keys(self@.prompts, prompt_key())
    }

    /// A fresh server with empty catalogs and no optional handlers.
    pub fn new(config: ServerConfig, tool_handler: T) -> (r: McpServer<T, R, P>)
        ensures
            r@.name == config.name@,
            r@.version == config.version@,
            r@.capabilities == config.capabilities,
            r@.tools == Seq::<ToolRep>::empty(),
            r@.resources == Seq::<ResourceRep>::empty(),
            r@.prompts == Seq::<PromptRep>::empty(),
            !r@.has_resource_handler,
            !r@.has_prompt_handler,
            r.wf(),
    {
        let r = McpServer {
            config,
            tools: Vec::new(),
            resources: Vec::new(),
            prompts: Vec::new(),
            tool_handler,
            resource_handler: None,
            prompt_handler: None,
        };
        proof {
            assert(r@.tools =~= Seq::<ToolRep>::empty());
            assert(r@.resources =~= Seq::<ResourceRep>::empty());
            assert(r@.prompts =~= Seq::<PromptRep>::empty());
        }
        r
    }

    /// Registers a tool under its name, replacing a same-named entry.
    pub fn register_tool(&mut self, tool: Tool)
        requires
            old(self).wf(),
        ensures
            final(self)@ == (ServerRep {
                tools: keyed_insert(old(self)@.tools, tool_key(), tool@),
                ..old(self)@
            }),
            contains_key(final(self)@.tools, tool_key(), tool@.name),
            final(self).wf(),
    {
        let ghost m = tools_view(self.tools@);
        let ghost trep = tool@;
        insert_tool_keyed(&mut self.tools, tool);
        proof {
            lemma_keyed_insert_has(m, tool_key(), trep);
            assert(self@ =~= ServerRep { tools: self@.tools, ..old(self)@ });
        }
    }

    /// Registers a resource under its URI, replacing a same-URI entry.
    pub fn register_resource(&mut self, resource: Resource)
        requires
            old(self).wf(),
        ensures
            final(self)@ == (ServerRep {
                resources: keyed_insert(old(self)@.resources, resource_key(), resource@),
                ..old(self)@
            }),
            final(self).wf(),
    {
        insert_resource_keyed(&mut self.resources, resource);
        proof {
            assert(self@ =~= ServerRep { resources: self@.resources, ..old(self)@ });
        }
    }

    /// Registers a prompt under its name, replacing a same-named entry.
    pub fn register_prompt(&mut self, prompt: Prompt)
        requires
            old(self).wf(),
        ensures
            final(self)@ == (ServerRep {
                prompts: keyed_insert(old(self)@.prompts, prompt_key(), prompt@),
                ..old(self)@
            }),
            final(self).wf(),
    {
        insert_prompt_keyed(&mut self.prompts, prompt);
        proof {
            assert(self@ =~= ServerRep { prompts: self@.prompts, ..old(self)@ });
        }
    }

    /// Installs the resource handler override.
    pub fn set_resource_handler(&mut self, handler: R)
        ensures
            final(self)@ == (ServerRep { has_resource_handler: true, ..old(self)@ }),
    {
        self.resource_handler = Some(handler);
        proof {
            assert(self@ =~= ServerRep { has_resource_handler: true, ..old(self)@ });
        }
    }

    /// Installs the prompt handler override.
    pub fn set_prompt_handler(&mut self, handler: P)
        ensures
            final(self)@ == (ServerRep { has_prompt_handler: true, ..old(self)@ }),
    {
        self.prompt_handler = Some(handler);
        proof {
            assert(self@ =~= ServerRep { has_prompt_handler: true, ..old(self)@ });
        }
    }

    /// Whether a tool is registered under the name.
    pub fn has_tool(&self, name: &str) -> (r: bool)
        ensures
            r == contains_key(self@.tools, tool_key(), name@),
    {
        match find_tool(&self.tools, name) {
            Some(t) => {
                proof {
                    lemma_lookup_some_contains(self@.tools, tool_key(), name@);
                }
                true
            },
            None => {
                proof {
                    lemma_lookup_none_not_contains(self@.tools, tool_key(), name@);
                }
                false
            },
        }
    }

    /// Answers the initialize handshake: protocol revision, the announced
    /// capabilities and the server identity.
    pub fn handle_initialize(&self) -> (r: JsonRpcResponse)
        ensures
            r@.jsonrpc == "2.0"@,
            r@.error is None,
            r@.result matches Some(rep) && crate::json::rep_get(rep, "protocolVersion"@) == Some(
                JsonRep::Str("2024-11-05"@),
            ),
            r@.result matches Some(rep) && (crate::json::rep_get(rep, "serverInfo"@)
                matches Some(info) && crate::json::rep_get(info, "name"@) == Some(
                JsonRep::Str(self@.name),
            ) && crate::json::rep_get(info, "version"@) == Some(JsonRep::Str(self@.version))),
    {
        let mut caps_fields: Vec<(String, JsonValue)> = Vec::new();
        match self.config.capabilities.tools {
            Some(tc) => {
                caps_fields.push((String::from_str("tools"), flag_obj("listChanged", tc.list_changed)));
            },
            None => {},
        }
        match self.config.capabilities.resources {
            Some(rc) => {
                let mut rfields: Vec<(String, JsonValue)> = Vec::new();
                match rc.subscribe {
                    Some(b) => {
                        rfields.push((String::from_str("subscribe"), JsonValue::Bool(b)));
                    },
                    None => {},
                }
                match rc.list_changed {
                    Some(b) => {
                        rfields.push((String::from_str("listChanged"), JsonValue::Bool(b)));
                    },
                    None => {},
                }
                caps_fields.push((String::from_str("resources"), JsonValue::Obj(rfields)));
            },
            None => {},
        }
        match self.config.capabilities.prompts {
            Some(pc) => {
                caps_fields.push((String::from_str("prompts"), flag_obj("listChanged", pc.list_changed)));
            },
            None => {},
        }
        let mut info_fields: Vec<(String, JsonValue)> = Vec::new();
        info_fields.push((String::from_str("name"), JsonValue::Str(self.config.name.clone())));
        info_fields.push((String::from_str("version"), JsonValue::Str(self.config.version.clone())));
        let mut fields: Vec<(String, JsonValue)> = Vec::new();
        fields.push((
            String::from_str("protocolVersion"),
            JsonValue::Str(String::from_str("2024-11-05")),
        ));
        fields.push((String::from_str("capabilities"), JsonValue::Obj(caps_fields)));
        fields.push((String::from_str("serverInfo"), JsonValue::Obj(info_fields)));
        let result = JsonValue::Obj(fields);
        proof {
            let frep = obj_view(result->Obj_0@);
            lemma_obj_view_len(result->Obj_0@);
            lemma_obj_view_index(result->Obj_0@, 0);
            lemma_obj_view_index(result->Obj_0@, 1);
            lemma_obj_view_index(result->Obj_0@, 2);
            reveal_strlit("protocolVersion");
            reveal_strlit("capabilities");
            reveal_strlit("serverInfo");
            assert("protocolVersion"@.len() == 15);
            assert("serverInfo"@.len() == 10);
            assert("capabilities"@.len() == 12);
            assert("protocolVersion"@ != "serverInfo"@);
            assert("protocolVersion"@ != "capabilities"@);
            let s3 = frep;
            let s2 = s3.drop_last();
            let s1 = s2.drop_last();
            assert(s3.last() == frep[2]);
            assert(s2 =~= seq![frep[0], frep[1]]);
            assert(s1 =~= seq![frep[0]]);
            assert(crate::json::obj_rep_get(s3, "protocolVersion"@) == crate::json::obj_rep_get(
                s2,
                "protocolVersion"@,
            ));
            assert(crate::json::obj_rep_get(s2, "protocolVersion"@) == crate::json::obj_rep_get(
                s1,
                "protocolVersion"@,
            ));
            assert(crate::json::obj_rep_get(s1, "protocolVersion"@) == Some(
                JsonRep::Str("2024-11-05"@),
            ));
            assert(crate::json::obj_rep_get(s3, "serverInfo"@) == Some(frep[2].1));
            let irep = obj_view(info_fields@);
            lemma_obj_view_len(info_fields@);
            lemma_obj_view_index(info_fields@, 0);
            lemma_obj_view_index(info_fields@, 1);
            reveal_strlit("name");
            reveal_strlit("version");
            assert("name"@.len() == 4);
            assert("version"@.len() == 7);
            assert("name"@ != "version"@);
            let i2 = irep;
            let i1 = i2.drop_last();
            assert(i1 =~= seq![irep[0]]);
            assert(crate::json::obj_rep_get(i2, "version"@) == Some(JsonRep::Str(
                self.config.version@,
            )));
            assert(crate::json::obj_rep_get(i2, "name"@) == crate::json::obj_rep_get(i1, "name"@));
            assert(crate::json::obj_rep_get(i1, "name"@) == Some(JsonRep::Str(self.config.name@)));
        }
        JsonRpcResponse {
            jsonrpc: String::from_str("2.0"),
            id: String::from_str("1"),
            result: Some(result),
            error: None,
        }
    }

    /// Lists every registered tool, in registration order.
    pub fn handle_tools_list(&self) -> (r: Result<Vec<Tool>, Error>)
        ensures
            r matches Ok(ts) && tools_view(ts@) == self@.tools,
    {
        Ok(clone_tools(&self.tools))
    }

    /// Invokes a registered tool through the execute capability. An
    /// unregistered name fails with `ToolNotFound` and never reaches the
    /// capability; a successful execution is wrapped with a fresh result
    /// id and no error flag.
    pub fn handle_tool_call(&self, name: &str, arguments: JsonValue) -> (r: Result<
        ToolResult,
        Error,
    >)
        ensures
            !contains_key(self@.tools, tool_key(), name@) ==> r is Err
                && r->Err_0 is ToolNotFound && r->Err_0->ToolNotFound_0@ == name@,
            r is Ok ==> (contains_key(self@.tools, tool_key(), name@) && (r->Ok_0@.id
                matches Some(id) && id.len() == 36) && r->Ok_0@.is_error is None),
    {
        if !self.has_tool(name) {
            return Err(Error::ToolNotFound(String::from_str(name)));
        }
        let content = match self.tool_handler.execute(name, arguments) {
            Ok(c) => c,
            Err(e) => {
                return Err(e);
            },
        };
        Ok(ToolResult { id: Some(crate::envelope::fresh_request_id()), content, is_error: None })
    }

    /// Lists resources: through the installed handler if any, otherwise
    /// from the registry in registration order.
    pub fn handle_resources_list(&self) -> (r: Result<Vec<Resource>, Error>)
        ensures
            !self@.has_resource_handler ==> (r matches Ok(rs) && resources_view(rs@)
                == self@.resources),
    {
        match &self.resource_handler {
            Some(handler) => handler.list(),
            None => Ok(clone_resources(&self.resources)),
        }
    }

    /// Reads a resource: through the installed handler if any, otherwise
    /// from the registry; either way the answer is the resource's URI. An
    /// unregistered URI fails with `ResourceNotFound`.
    pub fn handle_resource_read(&self, uri: &str) -> (r: Result<String, Error>)
        ensures
            !self@.has_resource_handler && contains_key(self@.resources, resource_key(), uri@)
                ==> (r matches Ok(s) && s@ == uri@),
            !self@.has_resource_handler && !contains_key(self@.resources, resource_key(), uri@)
                ==> r is Err && r->Err_0 is ResourceNotFound,
    {
        match &self.resource_handler {
            Some(handler) => match handler.get(uri) {
                Ok(resource) => Ok(resource.uri),
                Err(e) => Err(e),
            },
            None => match find_resource(&self.resources, uri) {
                Some(resource) => {
                    proof {
                        lemma_lookup_some_contains(self@.resources, resource_key(), uri@);
                        lemma_lookup_key_matches(self@.resources, resource_key(), uri@);
                    }
                    Ok(resource.uri.clone())
                },
                None => {
                    proof {
                        lemma_lookup_none_not_contains(self@.resources, resource_key(), uri@);
                    }
                    Err(Error::ResourceNotFound(String::from_str(uri)))
                },
            },
        }
    }

    /// Lists prompts: through the installed handler if any, otherwise
    /// from the registry in registration order.
    pub fn handle_prompts_list(&self) -> (r: Result<Vec<Prompt>, Error>)
        ensures
            !self@.has_prompt_handler ==> (r matches Ok(ps) && prompts_view(ps@)
                == self@.prompts),
    {
        match &self.prompt_handler {
            Some(handler) => handler.list(),
            None => Ok(clone_prompts(&self.prompts)),
        }
    }

    /// Fetches a prompt: through the installed handler if any, otherwise
    /// from the registry. An unregistered name fails with the same
    /// not-found error that tools use.
    pub fn handle_prompt_get(&self, name: &str) -> (r: Result<Prompt, Error>)
        ensures
            !self@.has_prompt_handler ==> match lookup_by_key(self@.prompts, prompt_key(), name@) {
                Some(p) => r matches Ok(found) && found@ == p,
                None => r is Err && r->Err_0 is ToolNotFound,
            },
    {
        match &self.prompt_handler {
            Some(handler) => handler.get(name),
            None => match find_prompt(&self.prompts, name) {
                Some(p) => Ok(p.clone()),
                None => Err(Error::ToolNotFound(String::from_str(name))),
            },
        }
    }

    /// Dispatches one request envelope by method name. The response
    /// always carries the request's id; an unknown method is answered
    /// with the method-not-found code, a `tools/call` without params or
    /// without a tool name with the invalid-params code, and a call to an
    /// unregistered tool with the tool-not-found code.
    pub fn handle_request(&self, request: JsonRpcRequest) -> (r: JsonRpcResponse)
        ensures
            r@.jsonrpc == "2.0"@,
            r@.id == request@.id,
            (r@.result is Some <==> r@.error is None),
            !(request@.method == "initialize"@ || request@.method == "tools/list"@
                || request@.method == "tools/call"@ || request@.method == "resources/list"@
                || request@.method == "prompts/list"@) ==> (r@.error matches Some(e) && e.code
                == -32601 && e.message == "Method not found: "@ + request@.method),
            request@.method == "tools/list"@ ==> (r@.result matches Some(rep)
                && crate::json::rep_get(rep, "tools"@) == Some(
                JsonRep::Arr(crate::wire::spec_tools_json(self@.tools)),
            )),
            request@.method == "tools/call"@ && request@.params is None ==> (r@.error
                matches Some(e) && e.code == -32602),
            request@.method == "tools/call"@ && (request@.params matches Some(p) && rep_get_str(
                p,
                "name"@,
            ) is None) ==> (r@.error matches Some(e) && e.code == -32602),
            request@.method == "tools/call"@ && (request@.params matches Some(p) && (rep_get_str(
                p,
                "name"@,
            ) matches Some(n) && !contains_key(self@.tools, tool_key(), n))) ==> (r@.error
                matches Some(e) && e.code == -32001),
            request@.method == "initialize"@ ==> (r@.result matches Some(rep)
                && crate::json::rep_get(rep, "protocolVersion"@) == Some(
                JsonRep::Str("2024-11-05"@),
            )),
            request@.method == "resources/list"@ && !self@.has_resource_handler ==> (r@.result
                matches Some(rep) && crate::json::rep_get(rep, "resources"@) == Some(
                JsonRep::Arr(crate::wire::spec_resources_json(self@.resources)),
            )),
            request@.method == "prompts/list"@ && !self@.has_prompt_handler ==> (r@.result
                matches Some(rep) && crate::json::rep_get(rep, "prompts"@) == Some(
                JsonRep::Arr(crate::wire::spec_prompts_json(self@.prompts)),
            )),
    {
        proof {
            reveal_strlit("initialize");
            reveal_strlit("tools/list");
            reveal_strlit("tools/call");
            reveal_strlit("resources/list");
            reveal_strlit("prompts/list");
            assert("initialize"@[0] != "tools/list"@[0]);
            assert("initialize"@ != "tools/list"@);
            assert("initialize"@[0] != "tools/call"@[0]);
            assert("initialize"@ != "tools/call"@);
            assert("tools/list"@[6] != "tools/call"@[6]);
            assert("tools/list"@ != "tools/call"@);
            assert("resources/list"@.len() != "tools/list"@.len());
            assert("resources/list"@ != "tools/list"@);
            assert("resources/list"@.len() != "tools/call"@.len());
            assert("resources/list"@ != "tools/call"@);
            assert("prompts/list"@.len() != "tools/list"@.len());
            assert("prompts/list"@ != "tools/list"@);
            assert("prompts/list"@.len() != "tools/call"@.len());
            assert("prompts/list"@ != "tools/call"@);
        }
        let method_initialize = String::from_str("initialize");
        let method_tools_list = String::from_str("tools/list");
        let method_tools_call = String::from_str("tools/call");
        let method_resources_list = String::from_str("resources/list");
        let method_prompts_list = String::from_str("prompts/list");
        if request.method == method_initialize {
            let announced = self.handle_initialize();
            return JsonRpcResponse {
                jsonrpc: String::from_str("2.0"),
                id: request.id,
                result: announced.result,
                error: None,
            };
        }
        if request.method == method_tools_list {
            let tools = match self.handle_tools_list() {
                Ok(ts) => ts,
                Err(e) => {
                    return error_response(request.id, e);
                },
            };
            let mut fields: Vec<(String, JsonValue)> = Vec::new();
            fields.push((String::from_str("tools"), tools_to_json(&tools)));
            let result = JsonValue::Obj(fields);
            proof {
                lemma_obj_view_len(result->Obj_0@);
                lemma_obj_view_index(result->Obj_0@, 0);
                let frep = obj_view(result->Obj_0@);
                assert(frep.last() == frep[0]);
            }
            return JsonRpcResponse {
                jsonrpc: String::from_str("2.0"),
                id: request.id,
                result: Some(result),
                error: None,
            };
        }
        if request.method == method_tools_call {
            let params = match request.params {
                Some(p) => p,
                None => {
                    return JsonRpcResponse {
                        jsonrpc: String::from_str("2.0"),
                        id: request.id,
                        result: None,
                        error: Some(
                            JsonRpcError {
                                code: -32602,
                                message: String::from_str("Missing params"),
                                data: None,
                            },
                        ),
                    };
                },
            };
            let name: String = match params.obj_get("name") {
                Some(n) => match n.as_str() {
                    Some(s) => s.clone(),
                    None => {
                        return JsonRpcResponse {
                            jsonrpc: String::from_str("2.0"),
                            id: request.id,
                            result: None,
                            error: Some(
                                JsonRpcError {
                                    code: -32602,
                                    message: String::from_str("Missing tool name"),
                                    data: None,
                                },
                            ),
                        };
                    },
                },
                None => {
                    return JsonRpcResponse {
                        jsonrpc: String::from_str("2.0"),
                        id: request.id,
                        result: None,
                        error: Some(
                            JsonRpcError {
                                code: -32602,
                                message: String::from_str("Missing tool name"),
                                data: None,
                            },
                        ),
                    };
                },
            };
            let arguments = match params.obj_get("arguments") {
                Some(a) => a.deep_copy(),
                None => JsonValue::empty_obj(),
            };
            match self.handle_tool_call(name.as_str(), arguments) {
                Ok(result) => {
                    return JsonRpcResponse {
                        jsonrpc: String::from_str("2.0"),
                        id: request.id,
                        result: Some(tool_result_to_json(&result)),
                        error: None,
                    };
                },
                Err(e) => {
                    return error_response(request.id, e);
                },
            }
        }
        if request.method == method_resources_list {
            match self.handle_resources_list() {
                Ok(resources) => {
                    let mut fields: Vec<(String, JsonValue)> = Vec::new();
                    fields.push((String::from_str("resources"), resources_to_json(&resources)));
                    let result = JsonValue::Obj(fields);
                    proof {
                        lemma_obj_view_len(result->Obj_0@);
                        lemma_obj_view_index(result->Obj_0@, 0);
                        let frep = obj_view(result->Obj_0@);
                        assert(frep.last() == frep[0]);
                    }
                    return JsonRpcResponse {
                        jsonrpc: String::from_str("2.0"),
                        id: request.id,
                        result: Some(result),
                        error: None,
                    };
                },
                Err(e) => {
                    return error_response(request.id, e);
                },
            }
        }
        if request.method == method_prompts_list {
            match self.handle_prompts_list() {
                Ok(prompts) => {
                    let mut fields: Vec<(String, JsonValue)> = Vec::new();
                    fields.push((String::from_str("prompts"), prompts_to_json(&prompts)));
                    let result = JsonValue::Obj(fields);
                    proof {
                        lemma_obj_view_len(result->Obj_0@);
                        lemma_obj_view_index(result->Obj_0@, 0);
                        let frep = obj_view(result->Obj_0@);
                        assert(frep.last() == frep[0]);
                    }
                    return JsonRpcResponse {
                        jsonrpc: String::from_str("2.0"),
                        id: request.id,
                        result: Some(result),
                        error: None,
                    };
                },
                Err(e) => {
                    return error_response(request.id, e);
                },
            }
        }
        let mut message = String::from_str("Method not found: ");
        message.append(request.method.as_str());
        JsonRpcResponse {
            jsonrpc: String::from_str("2.0"),
            id: request.id,
            result: None,
            error: Some(JsonRpcError { code: -32601, message, data: None }),
        }
    }
}

/// The string member of a tree, for stating what the dispatcher reads.
pub open spec fn rep_get_str(rep: JsonRep, key: Seq<char>) -> Option<Seq<char>> {
    match crate::json::rep_get(rep, key) {
        Some(JsonRep::Str(s)) => Some(s),
        _ => None,
    }
}

/// A one-member object carrying an optional boolean flag.
fn flag_obj(key: &str, value: Option<bool>) -> JsonValue {
    let mut fields: Vec<(String, JsonValue)> = Vec::new();
    match value {
        Some(b) => {
            fields.push((String::from_str(key), JsonValue::Bool(b)));
        },
        None => {},
    }
    JsonValue::Obj(fields)
}

/// An error response carrying the error's code and rendered message.
fn error_response(id: String, e: Error) -> (r: JsonRpcResponse)
    ensures
        r@.jsonrpc == "2.0"@,
        r@.id == id@,
        r@.error matches Some(erep) && erep.code == e.spec_error_code() as int,
        r@.result is None,
{
    let code = e.error_code();
    let message = e.message();
    JsonRpcResponse {
        jsonrpc: String::from_str("2.0"),
        id,
        result: None,
        error: Some(JsonRpcError { code, message, data: None }),
    }
}

/// `keyed_insert` always leaves an entry under the inserted key.
proof fn lemma_keyed_insert_has<A>(cache: Seq<A>, key: spec_fn(A) -> Seq<char>, a: A)
    ensures
        contains_key(keyed_insert(cache, key, a), key, key(a)),
    decreases cache.len(),
{
    let out = keyed_insert(cache, key, a);
    if cache.len() == 0 {
        assert(out[0] == a);
    } else if key(cache.first()) == key(a) {
        assert(out[0] == a);
    } else {
        lemma_keyed_insert_has(cache.drop_first(), key, a);
        let inner = keyed_insert(cache.drop_first(), key, a);
        let i = choose|i: int| 0 <= i < inner.len() && key(#[trigger] inner[i]) == key(a);
        assert(out[i + 1] == inner[i]);
    }
}

/// A successful lookup witnesses containment.
proof fn lemma_lookup_some_contains<A>(s: Seq<A>, key: spec_fn(A) -> Seq<char>, k: Seq<char>)
    requires
        lookup_by_key(s, key, k) is Some,
    ensures
        contains_key(s, key, k),
    decreases s.len(),
{
    if s.len() > 0 {
        if key(s.first()) == k {
            assert(s[0] == s.first());
        } else {
            lemma_lookup_some_contains(s.drop_first(), key, k);
            let i = choose|i: int|
                0 <= i < s.drop_first().len() && key(#[trigger] s.drop_first()[i]) == k;
            assert(s[i + 1] == s.drop_first()[i]);
        }
    }
}

/// A failed lookup rules containment out.
proof fn lemma_lookup_none_not_contains<A>(s: Seq<A>, key: spec_fn(A) -> Seq<char>, k: Seq<char>)
    requires
        lookup_by_key(s, key, k) is None,
    ensures
        !contains_key(s, key, k),
    decreases s.len(),
{
    if s.len() > 0 {
        lemma_lookup_none_not_contains(s.drop_first(), key, k);
        assert forall|i: int| 0 <= i < s.len() implies key(#[trigger] s[i]) != k by {
            if i > 0 {
                assert(s.drop_first()[i - 1] == s[i]);
            }
        }
    }
}

/// What a lookup finds carries the key it was found under.
proof fn lemma_lookup_key_matches<A>(s: Seq<A>, key: spec_fn(A) -> Seq<char>, k: Seq<char>)
    ensures
        lookup_by_key(s, key, k) matches Some(a) ==> key(a) == k,
    decreases s.len(),
{
    if s.len() > 0 && key(s.first()) != k {
        lemma_lookup_key_matches(s.drop_first(), key, k);
    }
}

/// In a well-formed catalog, a registered name is carried by exactly one
/// descriptor: some position holds it, and any two positions holding it
/// are the same position. Listing twice with no registration in between
/// reads the same catalog and so yields identical listings.
pub proof fn lemma_listing_has_one_descriptor_per_name(tools: Seq<ToolRep>, name: Seq<char>)
    requires
        unique_keys(tools, tool_key()),
        contains_key(tools, tool_key(), name),
    ensures
        exists|i: int| 0 <= i < tools.len() && (#[trigger] tools[i]).name == name,
        forall|i: int, j: int|
            (0 <= i < tools.len() && 0 <= j < tools.len() && (#[trigger] tools[i]).name == name
                && (#[trigger] tools[j]).name == name) ==> i == j,
{
    let w = choose|i: int| 0 <= i < tools.len() && tool_key()(#[trigger] tools[i]) == name;
    assert(tools[w].name == name);
    assert forall|i: int, j: int|
        (0 <= i < tools.len() && 0 <= j < tools.len() && (#[trigger] tools[i]).name == name && (
        #[trigger] tools[j]).name == name) implies i == j by {
        if i < j {
            assert(tool_key()(tools[i]) != tool_key()(tools[j]));
        }
        if j < i {
            assert(tool_key()(tools[i]) != tool_key()(tools[j]));
        }
    }
}

} // verus!

//! Capture state for debugging: timestamped copies of the requests and
//! responses that passed through, and the tool catalog on display.
//!
//! The web dashboard that serves this state lives outside the library;
//! here is only the state itself and its bookkeeping.

use vstd::prelude::*;
use crate::json::{JsonValue, JsonRep};
use crate::envelope::opt_json_view;
use crate::protocol::{Tool, ToolRep, tools_view, clone_tools, opt_str_view};

verus! {

/// Relies on `chrono::Local::now` and `DateTime::to_rfc3339`: the current
/// local time rendered in RFC 3339 form. The result depends on the clock;
/// nothing is assumed about it.
#[verifier::external_body]
fn now_rfc3339() -> String {
    chrono::Local::now().to_rfc3339()
}

/// One captured request: when it arrived, its method and its params.
pub struct InspectorRequest {
    pub timestamp: String,
    pub method: String,
    pub params: Option<JsonValue>,
}

/// The model of an [`InspectorRequest`].
#[verifier::ext_equal]
pub struct InspectorRequestRep {
    pub timestamp: Seq<char>,
    pub method: Seq<char>,
    pub params: Option<JsonRep>,
}

impl View for InspectorRequest {
    type V = InspectorRequestRep;

    open spec fn view(&self) -> InspectorRequestRep {
        InspectorRequestRep {
            timestamp: self.timestamp@,
            method: self.method@,
            params: opt_json_view(self.params),
        }
    }
}

/// One captured response: when it was sent, for which method, and what it
/// carried.
pub struct InspectorResponse {
    pub timestamp: String,
    pub request_method: String,
    pub result: Option<JsonValue>,
    pub error: Option<String>,
}

/// The model of an [`InspectorResponse`].
#[verifier::ext_equal]
pub struct InspectorResponseRep {
    pub timestamp: Seq<char>,
    pub request_method: Seq<char>,
    pub result: Option<JsonRep>,
    pub error: Option<Seq<char>>,
}

impl View for InspectorResponse {
    type V = InspectorResponseRep;

    open spec fn view(&self) -> InspectorResponseRep {
        InspectorResponseRep {
            timestamp: self.timestamp@,
            request_method: self.request_method@,
            result: opt_json_view(self.result),
            error: opt_str_view(self.error),
        }
    }
}

/// The models of a captured request list.
pub open spec fn requests_view(s: Seq<InspectorRequest>) -> Seq<InspectorRequestRep> {
    s.map_values(|r: InspectorRequest| r@)
}

/// The models of a captured response list.
pub open spec fn responses_view(s: Seq<InspectorResponse>) -> Seq<InspectorResponseRep> {
    s.map_values(|r: InspectorResponse| r@)
}

/// The model of the capture state.
#[verifier::ext_equal]
pub struct InspectorStateRep {
    pub server_name: Seq<char>,
    pub server_version: Seq<char>,
    pub captured_requests: Seq<InspectorRequestRep>,
    pub captured_responses: Seq<InspectorResponseRep>,
    pub tools: Seq<ToolRep>,
}

/// The capture state a dashboard reads: the server identity, everything
/// captured so far, and the tools on display.
pub struct InspectorState {
    server_name: String,
    server_version: String,
    captured_requests: Vec<InspectorRequest>,
    captured_responses: Vec<InspectorResponse>,
    tools: Vec<Tool>,
}

impl View for InspectorState {
    type V = InspectorStateRep;

    closed spec fn view(&self) -> InspectorStateRep {
        InspectorStateRep {
            server_name: self.server_name@,
            server_version: self.server_version@,
            captured_requests: requests_view(self.captured_requests@),
            captured_responses: responses_view(self.captured_responses@),
            tools: tools_view(self.tools@),
        }
    }
}

impl InspectorState {
    /// Fresh capture state: nothing captured, no tools on display.
    pub fn new(server_name: String, server_version: String) -> (r: InspectorState)
        ensures
            r@.server_name == server_name@,
            r@.server_version == server_version@,
            r@.captured_requests == Seq::<InspectorRequestRep>::empty(),
            r@.captured_responses == Seq::<InspectorResponseRep>::empty(),
            r@.tools == Seq::<ToolRep>::empty(),
    {
        let r = InspectorState {
            server_name,
            server_version,
            captured_requests: Vec::new(),
            captured_responses: Vec::new(),
            tools: Vec::new(),
        };
        proof {
            assert(r@.captured_requests =~= Seq::<InspectorRequestRep>::empty());
            assert(r@.captured_responses =~= Seq::<InspectorResponseRep>::empty());
            assert(r@.tools =~= Seq::<ToolRep>::empty());
        }
        r
    }

    /// Appends one response capture, stamped with the current time.
    pub fn capture_response(
        &mut self,
        method: String,
        result: Option<JsonValue>,
        error: Option<String>,
    )
        ensures
            final(self)@ == (InspectorStateRep {
                captured_responses: final(self)@.captured_responses,
                ..old(self)@
            }),
            final(self)@.captured_responses == old(self)@.captured_responses.push(
                final(self)@.captured_responses.last(),
            ),
            final(self)@.captured_responses.last().request_method == method@,
            final(self)@.captured_responses.last().result == opt_json_view(result),
            final(self)@.captured_responses.last().error == opt_str_view(error),
    {
        let now = now_rfc3339();
        let ghost ts = now@;
        let ghost mrep = method@;
        let ghost resrep = opt_json_view(result);
        let ghost errrep = opt_str_view(error);
        let response = InspectorResponse { timestamp: now, request_method: method, result, error };
        self.captured_responses.push(response);
        proof {
            assert(self@ =~= InspectorStateRep {
                captured_responses: old(self)@.captured_responses.push(
                    InspectorResponseRep {
                        timestamp: ts,
                        request_method: mrep,
                        result: resrep,
                        error: errrep,
                    },
                ),
                ..old(self)@
            });
        }
    }

    /// The announced server name.
    pub fn server_name(&self) -> (r: &String)
        ensures
            r@ == self@.server_name,
    {
        &self.server_name
    }

    /// The announced server version.
    pub fn server_version(&self) -> (r: &String)
        ensures
            r@ == self@.server_version,
    {
        &self.server_version
    }
}

/// The model of an inspector: its capture state.
pub struct Inspector {
    state: InspectorState,
}

impl View for Inspector {
    type V = InspectorStateRep;

    closed spec fn view(&self) -> InspectorStateRep {
        self.state@
    }
}

impl Inspector {
    /// A fresh inspector over fresh capture state.
    pub fn new(server_name: String, server_version: String) -> (r: Inspector)
        ensures
            r@.server_name == server_name@,
            r@.server_version == server_version@,
            r@.captured_requests == Seq::<InspectorRequestRep>::empty(),
            r@.captured_responses == Seq::<InspectorResponseRep>::empty(),
            r@.tools == Seq::<ToolRep>::empty(),
    {
        Inspector { state: InspectorState::new(server_name, server_version) }
    }

    /// Appends one request capture, stamped with the current time.
    pub fn capture_request(&mut self, method: String, params: Option<JsonValue>)
        ensures
            final(self)@ == (InspectorStateRep {
                captured_requests: final(self)@.captured_requests,
                ..old(self)@
            }),
            final(self)@.captured_requests == old(self)@.captured_requests.push(
                final(self)@.captured_requests.last(),
            ),
            final(self)@.captured_requests.last().method == method@,
            final(self)@.captured_requests.last().params == opt_json_view(params),
    {
        let now = now_rfc3339();
        let ghost ts = now@;
        let ghost mrep = method@;
        let ghost prep = opt_json_view(params);
        let request = InspectorRequest { timestamp: now, method, params };
        self.state.captured_requests.push(request);
        proof {
            assert(self@ =~= InspectorStateRep {
                captured_requests: old(self)@.captured_requests.push(
                    InspectorRequestRep { timestamp: ts, method: mrep, params: prep },
                ),
                ..old(self)@
            });
        }
    }

    /// Appends one response capture, stamped with the current time.
    pub fn capture_response(
        &mut self,
        method: String,
        result: Option<JsonValue>,
        error: Option<String>,
    )
        ensures
            final(self)@ == (InspectorStateRep {
                captured_responses: final(self)@.captured_responses,
                ..old(self)@
            }),
            final(self)@.captured_responses == old(self)@.captured_responses.push(
                final(self)@.captured_responses.last(),
            ),
            final(self)@.captured_responses.last().request_method == method@,
            final(self)@.captured_responses.last().result == opt_json_view(result),
            final(self)@.captured_responses.last().error == opt_str_view(error),
    {
        self.state.capture_response(method, result, error);
    }

    /// How many requests have been captured.
    pub fn request_count(&self) -> (r: usize)
        ensures
            r == self@.captured_requests.len(),
    {
        self.state.captured_requests.len()
    }

    /// How many responses have been captured.
    pub fn response_count(&self) -> (r: usize)
        ensures
            r == self@.captured_responses.len(),
    {
        self.state.captured_responses.len()
    }

    /// Replaces the tools on display wholesale.
    pub fn set_tools(&mut self, tools: Vec<Tool>)
        ensures
            final(self)@ == (InspectorStateRep { tools: tools_view(tools@), ..old(self)@ }),
    {
        self.state.tools = tools;
        proof {
            assert(self@ =~= InspectorStateRep { tools: self@.tools, ..old(self)@ });
        }
    }

    /// The announced server name.
    pub fn server_name(&self) -> (r: &String)
        ensures
            r@ == self@.server_name,
    {
        self.state.server_name()
    }

    /// A snapshot of the tools on display.
    pub fn tools(&self) -> (r: Vec<Tool>)
        ensures
            tools_view(r@) == self@.tools,
    {
        clone_tools(&self.state.tools)
    }
}

} // verus!

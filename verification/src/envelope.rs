//! JSON-RPC envelopes: requests, responses and their JSON tree forms.
//!
//! A request always serializes its `params` member: an absent `params`
//! becomes the empty object, the canonical rule for transports that require
//! object-shaped params. [`lemma_request_params_round_trip`] states the
//! round trip that rule guarantees.

use vstd::prelude::*;
use crate::json::{JsonValue, JsonRep, rep_get, obj_view, lemma_obj_view_len, lemma_obj_view_index};
use crate::error::Error;

verus! {

/// The protocol revision sent in the `initialize` handshake.
pub const MCP_VERSION: &'static str = "2025-11-05";

/// The model of a request envelope.
#[verifier::ext_equal]
pub struct RequestRep {
    pub jsonrpc: Seq<char>,
    pub id: Seq<char>,
    pub method: Seq<char>,
    pub params: Option<JsonRep>,
}

/// The model of an error object carried by a response.
#[verifier::ext_equal]
pub struct RpcErrorRep {
    pub code: int,
    pub message: Seq<char>,
    pub data: Option<JsonRep>,
}

/// The model of a response envelope.
#[verifier::ext_equal]
pub struct ResponseRep {
    pub jsonrpc: Seq<char>,
    pub id: Seq<char>,
    pub result: Option<JsonRep>,
    pub error: Option<RpcErrorRep>,
}

/// A JSON-RPC request envelope.
pub struct JsonRpcRequest {
    pub jsonrpc: String,
    pub id: String,
    pub method: String,
    pub params: Option<JsonValue>,
}

/// A JSON-RPC error object.
pub struct JsonRpcError {
    pub code: i64,
    pub message: String,
    pub data: Option<JsonValue>,
}

/// A JSON-RPC response envelope: a result, or an error object.
pub struct JsonRpcResponse {
    pub jsonrpc: String,
    pub id: String,
    pub result: Option<JsonValue>,
    pub error: Option<JsonRpcError>,
}

/// The model of an optional JSON tree.
pub open spec fn opt_json_view(o: Option<JsonValue>) -> Option<JsonRep> {
    match o {
        Some(v) => Some(v@),
        None => None,
    }
}

impl View for JsonRpcRequest {
    type V = RequestRep;

    open spec fn view(&self) -> RequestRep {
        RequestRep {
            jsonrpc: self.jsonrpc@,
            id: self.id@,
            method: self.method@,
            params: opt_json_view(self.params),
        }
    }
}

impl View for JsonRpcError {
    type V = RpcErrorRep;

    open spec fn view(&self) -> RpcErrorRep {
        RpcErrorRep { code: self.code as int, message: self.message@, data: opt_json_view(self.data) }
    }
}

impl View for JsonRpcResponse {
    type V = ResponseRep;

    open spec fn view(&self) -> ResponseRep {
        ResponseRep {
            jsonrpc: self.jsonrpc@,
            id: self.id@,
            result: opt_json_view(self.result),
            error: match self.error {
                Some(e) => Some(e@),
                None => None,
            },
        }
    }
}

/// Relies on `uuid::Uuid::new_v4` and its hyphenated rendering: a fresh
/// random identifier of exactly 36 characters. Nothing is assumed about
/// which identifier comes back.
#[verifier::external_body]
pub(crate) fn fresh_request_id() -> (r: String)
    ensures
        r@.len() == 36,
{
    uuid::Uuid::new_v4().to_string()
}

impl JsonRpcRequest {
    /// A fresh request: protocol tag `"2.0"`, a newly drawn 36-character id,
    /// and exactly the given method and params.
    pub fn new(method: &str, params: Option<JsonValue>) -> (r: JsonRpcRequest)
        ensures
            r.jsonrpc@ == "2.0"@,
            r.id@.len() == 36,
            r.method@ == method@,
            r@.params == opt_json_view(params),
    {
        JsonRpcRequest {
            jsonrpc: String::from_str("2.0"),
            id: fresh_request_id(),
            method: String::from_str(method),
            params,
        }
    }
}

/// The member that `params` contributes to the encoded object: the params
/// tree itself, or the empty object when there are none.
pub open spec fn params_member(p: Option<JsonRep>) -> JsonRep {
    match p {
        Some(v) => v,
        None => JsonRep::Obj(Seq::empty()),
    }
}

/// The JSON tree of an encoded request envelope.
pub open spec fn request_rep_json(r: RequestRep) -> JsonRep {
    JsonRep::Obj(
        seq![
            ("jsonrpc"@, JsonRep::Str(r.jsonrpc)),
            ("id"@, JsonRep::Str(r.id)),
            ("method"@, JsonRep::Str(r.method)),
            ("params"@, params_member(r.params)),
        ],
    )
}

/// Encodes a request as a JSON object. `params` is always present: absent
/// params encode as `{}`.
pub fn request_to_json(req: &JsonRpcRequest) -> (v: JsonValue)
    ensures
        v@ == request_rep_json(req@),
{
    let mut fields: Vec<(String, JsonValue)> = Vec::new();
    fields.push((String::from_str("jsonrpc"), JsonValue::Str(req.jsonrpc.clone())));
    fields.push((String::from_str("id"), JsonValue::Str(req.id.clone())));
    fields.push((String::from_str("method"), JsonValue::Str(req.method.clone())));
    let params_value = match &req.params {
        Some(p) => p.deep_copy(),
        None => JsonValue::empty_obj(),
    };
    fields.push((String::from_str("params"), params_value));
    let v = JsonValue::Obj(fields);
    proof {
        let target = request_rep_json(req@)->Obj_0;
        lemma_obj_view_len(v->Obj_0@);
        assert forall|j: int| 0 <= j < 4 implies obj_view(v->Obj_0@)[j] == target[j] by {
            lemma_obj_view_index(v->Obj_0@, j);
        }
        assert(obj_view(v->Obj_0@) =~= target);
    }
    v
}

/// The decoded request of a JSON tree: the three string members must be
/// present; `params` is whatever member stands there, if any.
pub open spec fn request_from_rep(rep: JsonRep) -> Option<RequestRep> {
    match (rep_get(rep, "jsonrpc"@), rep_get(rep, "id"@), rep_get(rep, "method"@)) {
        (Some(JsonRep::Str(j)), Some(JsonRep::Str(i)), Some(JsonRep::Str(m))) => Some(
            RequestRep { jsonrpc: j, id: i, method: m, params: rep_get(rep, "params"@) },
        ),
        _ => None,
    }
}

/// Decodes a request envelope from a JSON tree; exactly the trees that
/// [`request_from_rep`] accepts decode successfully.
pub fn request_from_json(v: &JsonValue) -> (r: Result<JsonRpcRequest, Error>)
    ensures
        match r {
            Ok(req) => request_from_rep(v@) == Some(req@),
            Err(e) => request_from_rep(v@) is None && e is InvalidRequest,
        },
{
    let jsonrpc = match v.obj_get("jsonrpc") {
        Some(j) => match j.as_str() {
            Some(s) => s.clone(),
            None => {
                return Err(Error::InvalidRequest(String::from_str("jsonrpc member is not a string")));
            },
        },
        None => {
            return Err(Error::InvalidRequest(String::from_str("missing jsonrpc member")));
        },
    };
    let id = match v.obj_get("id") {
        Some(j) => match j.as_str() {
            Some(s) => s.clone(),
            None => {
                return Err(Error::InvalidRequest(String::from_str("id member is not a string")));
            },
        },
        None => {
            return Err(Error::InvalidRequest(String::from_str("missing id member")));
        },
    };
    let method = match v.obj_get("method") {
        Some(j) => match j.as_str() {
            Some(s) => s.clone(),
            None => {
                return Err(Error::InvalidRequest(String::from_str("method member is not a string")));
            },
        },
        None => {
            return Err(Error::InvalidRequest(String::from_str("missing method member")));
        },
    };
    let params = match v.obj_get("params") {
        Some(p) => Some(p.deep_copy()),
        None => None,
    };
    Ok(JsonRpcRequest { jsonrpc, id, method, params })
}

/// The JSON tree of an encoded error object: `data` is omitted when absent.
pub open spec fn error_rep_json(e: RpcErrorRep) -> JsonRep {
    JsonRep::Obj(
        seq![("code"@, JsonRep::Int(e.code)), ("message"@, JsonRep::Str(e.message))] + match e.data {
            Some(d) => seq![("data"@, d)],
            None => Seq::empty(),
        },
    )
}

/// The JSON tree of an encoded response envelope: `result` and `error` are
/// omitted when absent.
pub open spec fn response_rep_json(r: ResponseRep) -> JsonRep {
    JsonRep::Obj(
        seq![("jsonrpc"@, JsonRep::Str(r.jsonrpc)), ("id"@, JsonRep::Str(r.id))] + match r.result {
            Some(v) => seq![("result"@, v)],
            None => Seq::empty(),
        } + match r.error {
            Some(e) => seq![("error"@, error_rep_json(e))],
            None => Seq::empty(),
        },
    )
}

/// Encodes a response as a JSON object, omitting absent members.
pub fn response_to_json(resp: &JsonRpcResponse) -> (v: JsonValue)
    ensures
        v@ == response_rep_json(resp@),
{
    let mut fields: Vec<(String, JsonValue)> = Vec::new();
    fields.push((String::from_str("jsonrpc"), JsonValue::Str(resp.jsonrpc.clone())));
    fields.push((String::from_str("id"), JsonValue::Str(resp.id.clone())));
    match &resp.result {
        Some(res) => {
            fields.push((String::from_str("result"), res.deep_copy()));
        },
        None => {},
    }
    match &resp.error {
        Some(err) => {
            let mut err_fields: Vec<(String, JsonValue)> = Vec::new();
            err_fields.push((String::from_str("code"), JsonValue::Int(err.code)));
            err_fields.push((String::from_str("message"), JsonValue::Str(err.message.clone())));
            match &err.data {
                Some(d) => {
                    err_fields.push((String::from_str("data"), d.deep_copy()));
                },
                None => {},
            }
            let err_value = JsonValue::Obj(err_fields);
            proof {
                let etarget = error_rep_json(err@)->Obj_0;
                lemma_obj_view_len(err_value->Obj_0@);
                assert forall|j: int| 0 <= j < err_value->Obj_0@.len()
                    implies obj_view(err_value->Obj_0@)[j] == etarget[j] by {
                    lemma_obj_view_index(err_value->Obj_0@, j);
                }
                assert(obj_view(err_value->Obj_0@) =~= etarget);
            }
            fields.push((String::from_str("error"), err_value));
        },
        None => {},
    }
    let v = JsonValue::Obj(fields);
    proof {
        let target = response_rep_json(resp@)->Obj_0;
        lemma_obj_view_len(v->Obj_0@);
        assert forall|j: int| 0 <= j < v->Obj_0@.len()
            implies obj_view(v->Obj_0@)[j] == target[j] by {
            lemma_obj_view_index(v->Obj_0@, j);
        }
        assert(obj_view(v->Obj_0@) =~= target);
    }
    v
}

/// The decoded error object of a JSON tree: `code` and `message` must be
/// present, `data` is whatever member stands there, if any.
pub open spec fn error_from_rep(rep: JsonRep) -> Option<RpcErrorRep> {
    match (rep_get(rep, "code"@), rep_get(rep, "message"@)) {
        (Some(JsonRep::Int(c)), Some(JsonRep::Str(m))) => Some(
            RpcErrorRep { code: c, message: m, data: rep_get(rep, "data"@) },
        ),
        _ => None,
    }
}

/// The decoded response of a JSON tree: the two string members must be
/// present; a present `error` member must itself decode.
pub open spec fn response_from_rep(rep: JsonRep) -> Option<ResponseRep> {
    match (rep_get(rep, "jsonrpc"@), rep_get(rep, "id"@)) {
        (Some(JsonRep::Str(j)), Some(JsonRep::Str(i))) => match rep_get(rep, "error"@) {
            Some(erep) => match error_from_rep(erep) {
                Some(e) => Some(
                    ResponseRep { jsonrpc: j, id: i, result: rep_get(rep, "result"@), error: Some(e) },
                ),
                None => None,
            },
            None => Some(
                ResponseRep { jsonrpc: j, id: i, result: rep_get(rep, "result"@), error: None },
            ),
        },
        _ => None,
    }
}

/// Decodes a response envelope from a JSON tree; exactly the trees that
/// [`response_from_rep`] accepts decode successfully.
pub fn response_from_json(v: &JsonValue) -> (r: Result<JsonRpcResponse, Error>)
    ensures
        match r {
            Ok(resp) => response_from_rep(v@) == Some(resp@),
            Err(e) => response_from_rep(v@) is None && e is SerializationError,
        },
{
    let jsonrpc = match v.obj_get("jsonrpc") {
        Some(j) => match j.as_str() {
            Some(s) => s.clone(),
            None => {
                return Err(
                    Error::SerializationError(String::from_str("jsonrpc member is not a string")),
                );
            },
        },
        None => {
            return Err(Error::SerializationError(String::from_str("missing jsonrpc member")));
        },
    };
    let id = match v.obj_get("id") {
        Some(j) => match j.as_str() {
            Some(s) => s.clone(),
            None => {
                return Err(Error::SerializationError(String::from_str("id member is not a string")));
            },
        },
        None => {
            return Err(Error::SerializationError(String::from_str("missing id member")));
        },
    };
    let error = match v.obj_get("error") {
        Some(erep) => {
            let code = match erep.obj_get("code") {
                Some(c) => match c.as_i64() {
                    Some(n) => n,
                    None => {
                        return Err(
                            Error::SerializationError(
                                String::from_str("error code is not an integer"),
                            ),
                        );
                    },
                },
                None => {
                    return Err(Error::SerializationError(String::from_str("missing error code")));
                },
            };
            let message = match erep.obj_get("message") {
                Some(m) => match m.as_str() {
                    Some(s) => s.clone(),
                    None => {
                        return Err(
                            Error::SerializationError(
                                String::from_str("error message is not a string"),
                            ),
                        );
                    },
                },
                None => {
                    return Err(
                        Error::SerializationError(String::from_str("missing error message")),
                    );
                },
            };
            let data = match erep.obj_get("data") {
                Some(d) => Some(d.deep_copy()),
                None => None,
            };
            Some(JsonRpcError { code, message, data })
        },
        None => None,
    };
    let result = match v.obj_get("result") {
        Some(res) => Some(res.deep_copy()),
        None => None,
    };
    Ok(JsonRpcResponse { jsonrpc, id, result, error })
}

/// Encoding a request always yields an object with a `params` member, and
/// decoding it back yields the other three members unchanged; a request
/// sent without params comes back with the empty object as its params,
/// never an absent member.
pub proof fn lemma_request_params_round_trip(r: RequestRep)
    ensures
        rep_get(request_rep_json(r), "params"@) == Some(params_member(r.params)),
        request_from_rep(request_rep_json(r)) == Some(
            RequestRep { params: Some(params_member(r.params)), ..r },
        ),
        r.params is None ==> request_from_rep(request_rep_json(r))
            == Some(RequestRep { params: Some(JsonRep::Obj(Seq::empty())), ..r }),
{
    reveal_strlit("jsonrpc");
    reveal_strlit("id");
    reveal_strlit("method");
    reveal_strlit("params");
    assert("jsonrpc"@.len() == 7);
    assert("id"@.len() == 2);
    assert("method"@.len() == 6);
    assert("params"@.len() == 6);
    assert("params"@ != "jsonrpc"@);
    assert("params"@ != "id"@);
    assert("params"@[0] == 'p' && "method"@[0] == 'm');
    assert("params"@ != "method"@);
    assert("method"@ != "jsonrpc"@);
    assert("method"@ != "id"@);
    assert("id"@ != "jsonrpc"@);
    let s4 = request_rep_json(r)->Obj_0;
    let s3 = s4.drop_last();
    let s2 = s3.drop_last();
    let s1 = s2.drop_last();
    assert(s3 =~= seq![
        ("jsonrpc"@, JsonRep::Str(r.jsonrpc)),
        ("id"@, JsonRep::Str(r.id)),
        ("method"@, JsonRep::Str(r.method)),
    ]);
    assert(s2 =~= seq![("jsonrpc"@, JsonRep::Str(r.jsonrpc)), ("id"@, JsonRep::Str(r.id))]);
    assert(s1 =~= seq![("jsonrpc"@, JsonRep::Str(r.jsonrpc))]);
    assert(crate::json::obj_rep_get(s4, "jsonrpc"@) == crate::json::obj_rep_get(s3, "jsonrpc"@));
    assert(crate::json::obj_rep_get(s3, "jsonrpc"@) == crate::json::obj_rep_get(s2, "jsonrpc"@));
    assert(crate::json::obj_rep_get(s2, "jsonrpc"@) == crate::json::obj_rep_get(s1, "jsonrpc"@));
    assert(crate::json::obj_rep_get(s1, "jsonrpc"@) == Some(JsonRep::Str(r.jsonrpc)));
    assert(crate::json::obj_rep_get(s4, "id"@) == crate::json::obj_rep_get(s3, "id"@));
    assert(crate::json::obj_rep_get(s3, "id"@) == crate::json::obj_rep_get(s2, "id"@));
    assert(crate::json::obj_rep_get(s2, "id"@) == Some(JsonRep::Str(r.id)));
    assert(crate::json::obj_rep_get(s4, "method"@) == crate::json::obj_rep_get(s3, "method"@));
    assert(crate::json::obj_rep_get(s3, "method"@) == Some(JsonRep::Str(r.method)));
    assert(rep_get(request_rep_json(r), "jsonrpc"@) == Some(JsonRep::Str(r.jsonrpc)));
    assert(rep_get(request_rep_json(r), "id"@) == Some(JsonRep::Str(r.id)));
    assert(rep_get(request_rep_json(r), "method"@) == Some(JsonRep::Str(r.method)));
}

} // verus!

//! Reading protocol payloads out of JSON trees: tool, resource and prompt
//! descriptors, tool results and resource contents, and the parameter
//! objects the client sends.
//!
//! Each parser has a spec twin over [`JsonRep`]; a payload decodes
//! successfully exactly when its twin accepts the tree.

use vstd::prelude::*;
use crate::json::{
    JsonValue, JsonRep, rep_get, arr_view, obj_view, lemma_arr_view_index, lemma_arr_view_len,
    lemma_obj_view_index, lemma_obj_view_len,
};
use crate::protocol::{
    Tool, ToolRep, ToolInputSchema, SchemaRep, Resource, ResourceRep, Prompt, PromptRep,
    PromptArgument, PromptArgumentRep, ResultContent, ResultContentRep, ToolResult, ToolResultRep,
    tools_view, resources_view, prompts_view, prompt_args_view, contents_view, strings_view,
    clone_members,
};
use crate::error::Error;

verus! {

/// Parses every element of a sequence with `f`; one failing element fails
/// the whole sequence, as a strict decoder would.
pub open spec fn parse_all<A>(items: Seq<JsonRep>, f: spec_fn(JsonRep) -> Option<A>) -> Option<
    Seq<A>,
>
    decreases items.len(),
{
    if items.len() == 0 {
        Some(Seq::empty())
    } else {
        match (parse_all(items.drop_last(), f), f(items.last())) {
            (Some(init), Some(a)) => Some(init.push(a)),
            _ => None,
        }
    }
}

/// A sequence with a failing element parses to `None`.
pub proof fn lemma_parse_all_fail<A>(items: Seq<JsonRep>, f: spec_fn(JsonRep) -> Option<A>, i: int)
    requires
        0 <= i < items.len(),
        f(items[i]) is None,
    ensures
        parse_all(items, f) is None,
    decreases items.len(),
{
    if i == items.len() - 1 {
        assert(items.last() == items[i]);
    } else {
        assert(items.drop_last()[i] == items[i]);
        lemma_parse_all_fail(items.drop_last(), f, i);
    }
}


/// Decodes every element of an array of strings; one failing element fails
/// the listing.
pub fn parse_string_items(items: &Vec<JsonValue>) -> (r: Option<Vec<String>>)
    ensures
        match r {
            Some(out) => parse_all(arr_view(items@), |x: JsonRep| spec_string_from(x)) == Some(
                strings_view(out@),
            ),
            None => parse_all(arr_view(items@), |x: JsonRep| spec_string_from(x)) is None,
        },
{
    let ghost irep = arr_view(items@);
    let ghost f = |x: JsonRep| spec_string_from(x);
    let mut out: Vec<String> = Vec::new();
    let mut i: usize = 0;
    proof {
        lemma_arr_view_len(items@);
        assert(irep.take(0) =~= Seq::<JsonRep>::empty());
    }
    while i < items.len()
        invariant
            i <= items.len(),
            irep == arr_view(items@),
            irep.len() == items@.len(),
            parse_all(irep.take(i as int), f) == Some(strings_view(out@)),
            f == (|x: JsonRep| spec_string_from(x)),
        decreases items@.len() - i,
    {
        proof {
            lemma_arr_view_index(items@, i as int);
        }
        match items[i].as_str() {
            Some(s) => {
                proof {
                    assert(irep.take(i as int + 1).drop_last() =~= irep.take(i as int));
                    assert(irep.take(i as int + 1).last() == irep[i as int]);
                    assert(strings_view(out@.push(*s)) =~= strings_view(out@).push(s@));
                }
                out.push(s.clone());
            },
            None => {
                proof {
                    lemma_parse_all_fail(irep, f, i as int);
                }
                return None;
            },
        }
        i = i + 1;
    }
    proof {
        assert(irep.take(items@.len() as int) =~= irep);
    }
    Some(out)
}

/// Decodes every element of an array of prompt arguments.
pub fn parse_prompt_arg_items(items: &Vec<JsonValue>) -> (r: Option<Vec<PromptArgument>>)
    ensures
        match r {
            Some(out) => parse_all(arr_view(items@), |x: JsonRep| spec_prompt_arg_from(x)) == Some(
                prompt_args_view(out@),
            ),
            None => parse_all(arr_view(items@), |x: JsonRep| spec_prompt_arg_from(x)) is None,
        },
{
    let ghost irep = arr_view(items@);
    let ghost f = |x: JsonRep| spec_prompt_arg_from(x);
    let mut out: Vec<PromptArgument> = Vec::new();
    let mut i: usize = 0;
    proof {
        lemma_arr_view_len(items@);
        assert(irep.take(0) =~= Seq::<JsonRep>::empty());
    }
    while i < items.len()
        invariant
            i <= items.len(),
            irep == arr_view(items@),
            irep.len() == items@.len(),
            parse_all(irep.take(i as int), f) == Some(prompt_args_view(out@)),
            f == (|x: JsonRep| spec_prompt_arg_from(x)),
        decreases items@.len() - i,
    {
        proof {
            lemma_arr_view_index(items@, i as int);
        }
        match prompt_arg_from_json(&items[i]) {
            Some(a) => {
                proof {
                    assert(irep.take(i as int + 1).drop_last() =~= irep.take(i as int));
                    assert(irep.take(i as int + 1).last() == irep[i as int]);
                    assert(prompt_args_view(out@.push(a)) =~= prompt_args_view(out@).push(a@));
                }
                out.push(a);
            },
            None => {
                proof {
                    lemma_parse_all_fail(irep, f, i as int);
                }
                return None;
            },
        }
        i = i + 1;
    }
    proof {
        assert(irep.take(items@.len() as int) =~= irep);
    }
    Some(out)
}

/// Decodes every element of an array of result contents.
pub fn parse_content_items(items: &Vec<JsonValue>) -> (r: Option<Vec<ResultContent>>)
    ensures
        match r {
            Some(out) => parse_all(arr_view(items@), |x: JsonRep| spec_content_from(x)) == Some(
                contents_view(out@),
            ),
            None => parse_all(arr_view(items@), |x: JsonRep| spec_content_from(x)) is None,
        },
{
    let ghost irep = arr_view(items@);
    let ghost f = |x: JsonRep| spec_content_from(x);
    let mut out: Vec<ResultContent> = Vec::new();
    let mut i: usize = 0;
    proof {
        lemma_arr_view_len(items@);
        assert(irep.take(0) =~= Seq::<JsonRep>::empty());
    }
    while i < items.len()
        invariant
            i <= items.len(),
            irep == arr_view(items@),
            irep.len() == items@.len(),
            parse_all(irep.take(i as int), f) == Some(contents_view(out@)),
            f == (|x: JsonRep| spec_content_from(x)),
        decreases items@.len() - i,
    {
        proof {
            lemma_arr_view_index(items@, i as int);
        }
        match content_from_json(&items[i]) {
            Some(c) => {
                proof {
                    assert(irep.take(i as int + 1).drop_last() =~= irep.take(i as int));
                    assert(irep.take(i as int + 1).last() == irep[i as int]);
                    assert(contents_view(out@.push(c)) =~= contents_view(out@).push(c@));
                }
                out.push(c);
            },
            None => {
                proof {
                    lemma_parse_all_fail(irep, f, i as int);
                }
                return None;
            },
        }
        i = i + 1;
    }
    proof {
        assert(irep.take(items@.len() as int) =~= irep);
    }
    Some(out)
}

/// Decodes every element of an array of tool descriptors.
pub fn parse_tool_items(items: &Vec<JsonValue>) -> (r: Option<Vec<Tool>>)
    ensures
        match r {
            Some(out) => parse_all(arr_view(items@), |x: JsonRep| spec_tool_from(x)) == Some(
                tools_view(out@),
            ),
            None => parse_all(arr_view(items@), |x: JsonRep| spec_tool_from(x)) is None,
        },
{
    let ghost irep = arr_view(items@);
    let ghost f = |x: JsonRep| spec_tool_from(x);
    let mut out: Vec<Tool> = Vec::new();
    let mut i: usize = 0;
    proof {
        lemma_arr_view_len(items@);
        assert(irep.take(0) =~= Seq::<JsonRep>::empty());
    }
    while i < items.len()
        invariant
            i <= items.len(),
            irep == arr_view(items@),
            irep.len() == items@.len(),
            parse_all(irep.take(i as int), f) == Some(tools_view(out@)),
            f == (|x: JsonRep| spec_tool_from(x)),
        decreases items@.len() - i,
    {
        proof {
            lemma_arr_view_index(items@, i as int);
        }
        match tool_from_json(&items[i]) {
            Some(t) => {
                proof {
                    assert(irep.take(i as int + 1).drop_last() =~= irep.take(i as int));
                    assert(irep.take(i as int + 1).last() == irep[i as int]);
                    assert(tools_view(out@.push(t)) =~= tools_view(out@).push(t@));
                }
                out.push(t);
            },
            None => {
                proof {
                    lemma_parse_all_fail(irep, f, i as int);
                }
                return None;
            },
        }
        i = i + 1;
    }
    proof {
        assert(irep.take(items@.len() as int) =~= irep);
    }
    Some(out)
}

/// Decodes every element of an array of resource descriptors.
pub fn parse_resource_items(items: &Vec<JsonValue>) -> (r: Option<Vec<Resource>>)
    ensures
        match r {
            Some(out) => parse_all(arr_view(items@), |x: JsonRep| spec_resource_from(x)) == Some(
                resources_view(out@),
            ),
            None => parse_all(arr_view(items@), |x: JsonRep| spec_resource_from(x)) is None,
        },
{
    let ghost irep = arr_view(items@);
    let ghost f = |x: JsonRep| spec_resource_from(x);
    let mut out: Vec<Resource> = Vec::new();
    let mut i: usize = 0;
    proof {
        lemma_arr_view_len(items@);
        assert(irep.take(0) =~= Seq::<JsonRep>::empty());
    }
    while i < items.len()
        invariant
            i <= items.len(),
            irep == arr_view(items@),
            irep.len() == items@.len(),
            parse_all(irep.take(i as int), f) == Some(resources_view(out@)),
            f == (|x: JsonRep| spec_resource_from(x)),
        decreases items@.len() - i,
    {
        proof {
            lemma_arr_view_index(items@, i as int);
        }
        match resource_from_json(&items[i]) {
            Some(res) => {
                proof {
                    assert(irep.take(i as int + 1).drop_last() =~= irep.take(i as int));
                    assert(irep.take(i as int + 1).last() == irep[i as int]);
                    assert(resources_view(out@.push(res)) =~= resources_view(out@).push(res@));
                }
                out.push(res);
            },
            None => {
                proof {
                    lemma_parse_all_fail(irep, f, i as int);
                }
                return None;
            },
        }
        i = i + 1;
    }
    proof {
        assert(irep.take(items@.len() as int) =~= irep);
    }
    Some(out)
}

/// Decodes every element of an array of prompt descriptors.
pub fn parse_prompt_items(items: &Vec<JsonValue>) -> (r: Option<Vec<Prompt>>)
    ensures
        match r {
            Some(out) => parse_all(arr_view(items@), |x: JsonRep| spec_prompt_from(x)) == Some(
                prompts_view(out@),
            ),
            None => parse_all(arr_view(items@), |x: JsonRep| spec_prompt_from(x)) is None,
        },
{
    let ghost irep = arr_view(items@);
    let ghost f = |x: JsonRep| spec_prompt_from(x);
    let mut out: Vec<Prompt> = Vec::new();
    let mut i: usize = 0;
    proof {
        lemma_arr_view_len(items@);
        assert(irep.take(0) =~= Seq::<JsonRep>::empty());
    }
    while i < items.len()
        invariant
            i <= items.len(),
            irep == arr_view(items@),
            irep.len() == items@.len(),
            parse_all(irep.take(i as int), f) == Some(prompts_view(out@)),
            f == (|x: JsonRep| spec_prompt_from(x)),
        decreases items@.len() - i,
    {
        proof {
            lemma_arr_view_index(items@, i as int);
        }
        match prompt_from_json(&items[i]) {
            Some(p) => {
                proof {
                    assert(irep.take(i as int + 1).drop_last() =~= irep.take(i as int));
                    assert(irep.take(i as int + 1).last() == irep[i as int]);
                    assert(prompts_view(out@.push(p)) =~= prompts_view(out@).push(p@));
                }
                out.push(p);
            },
            None => {
                proof {
                    lemma_parse_all_fail(irep, f, i as int);
                }
                return None;
            },
        }
        i = i + 1;
    }
    proof {
        assert(irep.take(items@.len() as int) =~= irep);
    }
    Some(out)
}

/// The tag, data member or URL of a string member: `None` when absent or
/// null, the string when present, no other shape accepted.
pub open spec fn opt_str_member(rep: JsonRep, key: Seq<char>) -> Option<Option<Seq<char>>> {
    match rep_get(rep, key) {
        None => Some(None),
        Some(JsonRep::Null) => Some(None),
        Some(JsonRep::Str(s)) => Some(Some(s)),
        Some(_) => None,
    }
}

/// An optional boolean member: `None` when absent or null.
pub open spec fn opt_bool_member(rep: JsonRep, key: Seq<char>) -> Option<Option<bool>> {
    match rep_get(rep, key) {
        None => Some(None),
        Some(JsonRep::Null) => Some(None),
        Some(JsonRep::Bool(b)) => Some(Some(b)),
        Some(_) => None,
    }
}

/// Reads an optional string member of an object.
pub fn get_opt_str_member(v: &JsonValue, key: &str) -> (r: Result<Option<String>, ()>)
    ensures
        match r {
            Ok(o) => opt_str_member(v@, key@) == Some(crate::protocol::opt_str_view(o)),
            Err(_) => opt_str_member(v@, key@) is None,
        },
{
    match v.obj_get(key) {
        None => Ok(None),
        Some(m) => match m {
            JsonValue::Null => Ok(None),
            JsonValue::Str(s) => Ok(Some(s.clone())),
            _ => Err(()),
        },
    }
}

/// Reads an optional boolean member of an object.
pub fn get_opt_bool_member(v: &JsonValue, key: &str) -> (r: Result<Option<bool>, ()>)
    ensures
        match r {
            Ok(o) => opt_bool_member(v@, key@) == Some(o),
            Err(_) => opt_bool_member(v@, key@) is None,
        },
{
    match v.obj_get(key) {
        None => Ok(None),
        Some(m) => match m {
            JsonValue::Null => Ok(None),
            JsonValue::Bool(b) => Ok(Some(*b)),
            _ => Err(()),
        },
    }
}

/// The decoded string of a plain string tree.
pub open spec fn spec_string_from(rep: JsonRep) -> Option<Seq<char>> {
    match rep {
        JsonRep::Str(s) => Some(s),
        _ => None,
    }
}

/// The decoded input schema of a JSON tree: a `type` tag, an object of
/// `properties`, and an optional list of `required` names.
pub open spec fn spec_schema_from(rep: JsonRep) -> Option<SchemaRep> {
    match (rep_get(rep, "type"@), rep_get(rep, "properties"@)) {
        (Some(JsonRep::Str(t)), Some(JsonRep::Obj(props))) => match rep_get(rep, "required"@) {
            None => Some(SchemaRep { schema_type: t, properties: props, required: None }),
            Some(JsonRep::Null) => Some(
                SchemaRep { schema_type: t, properties: props, required: None },
            ),
            Some(JsonRep::Arr(items)) => match parse_all(items, |x: JsonRep| spec_string_from(x)) {
                Some(names) => Some(
                    SchemaRep { schema_type: t, properties: props, required: Some(names) },
                ),
                None => None,
            },
            Some(_) => None,
        },
        _ => None,
    }
}

/// Decodes an input schema from a JSON tree.
pub fn schema_from_json(v: &JsonValue) -> (r: Option<ToolInputSchema>)
    ensures
        match r {
            Some(s) => spec_schema_from(v@) == Some(s@),
            None => spec_schema_from(v@) is None,
        },
{
    let schema_type = match v.obj_get("type") {
        Some(t) => match t.as_str() {
            Some(s) => s.clone(),
            None => {
                return None;
            },
        },
        None => {
            return None;
        },
    };
    let properties = match v.obj_get("properties") {
        Some(p) => match p {
            JsonValue::Obj(members) => clone_members(members),
            _ => {
                return None;
            },
        },
        None => {
            return None;
        },
    };
    let required = match v.obj_get("required") {
        None => None,
        Some(m) => match m {
            JsonValue::Null => None,
            JsonValue::Arr(items) => match parse_string_items(items) {
                Some(names) => Some(names),
                None => {
                    return None;
                },
            },
            _ => {
                return None;
            },
        },
    };
    Some(ToolInputSchema { schema_type, properties, required })
}

/// The decoded tool descriptor of a JSON tree: a `name`, an optional
/// `description` and an optional `input_schema`.
pub open spec fn spec_tool_from(rep: JsonRep) -> Option<ToolRep> {
    match rep_get(rep, "name"@) {
        Some(JsonRep::Str(n)) => match opt_str_member(rep, "description"@) {
            Some(d) => match rep_get(rep, "input_schema"@) {
                None => Some(ToolRep { name: n, description: d, input_schema: None }),
                Some(JsonRep::Null) => Some(
                    ToolRep { name: n, description: d, input_schema: None },
                ),
                Some(srep) => match spec_schema_from(srep) {
                    Some(s) => Some(ToolRep { name: n, description: d, input_schema: Some(s) }),
                    None => None,
                },
            },
            None => None,
        },
        _ => None,
    }
}

/// Decodes a tool descriptor from a JSON tree.
pub fn tool_from_json(v: &JsonValue) -> (r: Option<Tool>)
    ensures
        match r {
            Some(t) => spec_tool_from(v@) == Some(t@),
            None => spec_tool_from(v@) is None,
        },
{
    let name = match v.obj_get("name") {
        Some(n) => match n.as_str() {
            Some(s) => s.clone(),
            None => {
                return None;
            },
        },
        None => {
            return None;
        },
    };
    let description = match get_opt_str_member(v, "description") {
        Ok(d) => d,
        Err(_) => {
            return None;
        },
    };
    let input_schema = match v.obj_get("input_schema") {
        None => None,
        Some(m) => match m {
            JsonValue::Null => None,
            srep => match schema_from_json(srep) {
                Some(s) => Some(s),
                None => {
                    return None;
                },
            },
        },
    };
    Some(Tool { name, description, input_schema })
}

/// The decoded resource descriptor of a JSON tree: a `uri` and `name`,
/// an optional `description` and an optional `mimeType`.
pub open spec fn spec_resource_from(rep: JsonRep) -> Option<ResourceRep> {
    match (rep_get(rep, "uri"@), rep_get(rep, "name"@)) {
        (Some(JsonRep::Str(u)), Some(JsonRep::Str(n))) => match (
            opt_str_member(rep, "description"@),
            opt_str_member(rep, "mimeType"@),
        ) {
            (Some(d), Some(m)) => Some(
                ResourceRep { uri: u, name: n, description: d, mime_type: m },
            ),
            _ => None,
        },
        _ => None,
    }
}

/// Decodes a resource descriptor from a JSON tree.
pub fn resource_from_json(v: &JsonValue) -> (r: Option<Resource>)
    ensures
        match r {
            Some(res) => spec_resource_from(v@) == Some(res@),
            None => spec_resource_from(v@) is None,
        },
{
    let uri = match v.obj_get("uri") {
        Some(u) => match u.as_str() {
            Some(s) => s.clone(),
            None => {
                return None;
            },
        },
        None => {
            return None;
        },
    };
    let name = match v.obj_get("name") {
        Some(n) => match n.as_str() {
            Some(s) => s.clone(),
            None => {
                return None;
            },
        },
        None => {
            return None;
        },
    };
    let description = match get_opt_str_member(v, "description") {
        Ok(d) => d,
        Err(_) => {
            return None;
        },
    };
    let mime_type = match get_opt_str_member(v, "mimeType") {
        Ok(m) => m,
        Err(_) => {
            return None;
        },
    };
    Some(Resource { uri, name, description, mime_type })
}

/// The decoded prompt argument of a JSON tree.
pub open spec fn spec_prompt_arg_from(rep: JsonRep) -> Option<PromptArgumentRep> {
    match rep_get(rep, "name"@) {
        Some(JsonRep::Str(n)) => match (
            opt_str_member(rep, "description"@),
            opt_bool_member(rep, "required"@),
        ) {
            (Some(d), Some(req)) => Some(
                PromptArgumentRep { name: n, description: d, required: req },
            ),
            _ => None,
        },
        _ => None,
    }
}

/// Decodes a prompt argument from a JSON tree.
pub fn prompt_arg_from_json(v: &JsonValue) -> (r: Option<PromptArgument>)
    ensures
        match r {
            Some(a) => spec_prompt_arg_from(v@) == Some(a@),
            None => spec_prompt_arg_from(v@) is None,
        },
{
    let name = match v.obj_get("name") {
        Some(n) => match n.as_str() {
            Some(s) => s.clone(),
            None => {
                return None;
            },
        },
        None => {
            return None;
        },
    };
    let description = match get_opt_str_member(v, "description") {
        Ok(d) => d,
        Err(_) => {
            return None;
        },
    };
    let required = match get_opt_bool_member(v, "required") {
        Ok(r_) => r_,
        Err(_) => {
            return None;
        },
    };
    Some(PromptArgument { name, description, required })
}

/// The decoded prompt descriptor of a JSON tree: a `name`, an optional
/// `description` and an optional list of `arguments`.
pub open spec fn spec_prompt_from(rep: JsonRep) -> Option<PromptRep> {
    match rep_get(rep, "name"@) {
        Some(JsonRep::Str(n)) => match opt_str_member(rep, "description"@) {
            Some(d) => match rep_get(rep, "arguments"@) {
                None => Some(PromptRep { name: n, description: d, arguments: None }),
                Some(JsonRep::Null) => Some(PromptRep { name: n, description: d, arguments: None }),
                Some(JsonRep::Arr(items)) => match parse_all(
                    items,
                    |x: JsonRep| spec_prompt_arg_from(x),
                ) {
                    Some(args) => Some(
                        PromptRep { name: n, description: d, arguments: Some(args) },
                    ),
                    None => None,
                },
                Some(_) => None,
            },
            None => None,
        },
        _ => None,
    }
}

/// Decodes a prompt descriptor from a JSON tree.
pub fn prompt_from_json(v: &JsonValue) -> (r: Option<Prompt>)
    ensures
        match r {
            Some(p) => spec_prompt_from(v@) == Some(p@),
            None => spec_prompt_from(v@) is None,
        },
{
    let name = match v.obj_get("name") {
        Some(n) => match n.as_str() {
            Some(s) => s.clone(),
            None => {
                return None;
            },
        },
        None => {
            return None;
        },
    };
    let description = match get_opt_str_member(v, "description") {
        Ok(d) => d,
        Err(_) => {
            return None;
        },
    };
    let arguments = match v.obj_get("arguments") {
        None => None,
        Some(m) => match m {
            JsonValue::Null => None,
            JsonValue::Arr(items) => match parse_prompt_arg_items(items) {
                Some(args) => Some(args),
                None => {
                    return None;
                },
            },
            _ => {
                return None;
            },
        },
    };
    Some(Prompt { name, description, arguments })
}

/// The decoded result content of a JSON tree, by its `type` tag:
/// `text` carries a `text` member, `image` carries `data` and `mimeType`.
pub open spec fn spec_content_from(rep: JsonRep) -> Option<ResultContentRep> {
    match rep_get(rep, "type"@) {
        Some(JsonRep::Str(tag)) => if tag == "text"@ {
            match rep_get(rep, "text"@) {
                Some(JsonRep::Str(t)) => Some(ResultContentRep::Text { text: t }),
                _ => None,
            }
        } else if tag == "image"@ {
            match (rep_get(rep, "data"@), rep_get(rep, "mimeType"@)) {
                (Some(JsonRep::Str(d)), Some(JsonRep::Str(m))) => Some(
                    ResultContentRep::Image { data: d, mime_type: m },
                ),
                _ => None,
            }
        } else {
            None
        },
        _ => None,
    }
}

/// Decodes one result content block from a JSON tree.
pub fn content_from_json(v: &JsonValue) -> (r: Option<ResultContent>)
    ensures
        match r {
            Some(c) => spec_content_from(v@) == Some(c@),
            None => spec_content_from(v@) is None,
        },
{
    let tag = match v.obj_get("type") {
        Some(t) => match t.as_str() {
            Some(s) => s.clone(),
            None => {
                return None;
            },
        },
        None => {
            return None;
        },
    };
    if tag == String::from_str("text") {
        match v.obj_get("text") {
            Some(t) => match t.as_str() {
                Some(s) => Some(ResultContent::Text { text: s.clone() }),
                None => None,
            },
            None => None,
        }
    } else if tag == String::from_str("image") {
        let data = match v.obj_get("data") {
            Some(d) => match d.as_str() {
                Some(s) => s.clone(),
                None => {
                    return None;
                },
            },
            None => {
                return None;
            },
        };
        match v.obj_get("mimeType") {
            Some(m) => match m.as_str() {
                Some(s) => Some(ResultContent::Image { data, mime_type: s.clone() }),
                None => None,
            },
            None => None,
        }
    } else {
        None
    }
}

/// The decoded tool result of a JSON tree: an optional `id`, the list of
/// `content` blocks, and an optional `isError` flag.
pub open spec fn spec_tool_result_from(rep: JsonRep) -> Option<ToolResultRep> {
    match (opt_str_member(rep, "id"@), opt_bool_member(rep, "isError"@)) {
        (Some(id), Some(is_error)) => match rep_get(rep, "content"@) {
            Some(JsonRep::Arr(items)) => match parse_all(items, |x: JsonRep| spec_content_from(x)) {
                Some(cs) => Some(ToolResultRep { id, content: cs, is_error }),
                None => None,
            },
            _ => None,
        },
        _ => None,
    }
}

/// Decodes a tool result from a JSON tree.
pub fn tool_result_from_json(v: &JsonValue) -> (r: Option<ToolResult>)
    ensures
        match r {
            Some(t) => spec_tool_result_from(v@) == Some(t@),
            None => spec_tool_result_from(v@) is None,
        },
{
    let id = match get_opt_str_member(v, "id") {
        Ok(o) => o,
        Err(_) => {
            return None;
        },
    };
    let is_error = match get_opt_bool_member(v, "isError") {
        Ok(o) => o,
        Err(_) => {
            return None;
        },
    };
    let content = match v.obj_get("content") {
        Some(m) => match m {
            JsonValue::Arr(items) => match parse_content_items(items) {
                Some(cs) => cs,
                None => {
                    return None;
                },
            },
            _ => {
                return None;
            },
        },
        None => {
            return None;
        },
    };
    Some(ToolResult { id, content, is_error })
}

/// The decoded tool listing of a result tree: its `tools` member, each
/// element a tool descriptor.
pub open spec fn spec_tools_result(rep: JsonRep) -> Option<Seq<ToolRep>> {
    match rep_get(rep, "tools"@) {
        Some(JsonRep::Arr(items)) => parse_all(items, |x: JsonRep| spec_tool_from(x)),
        _ => None,
    }
}

/// Decodes the `tools/list` result: the `tools` member must be an array of
/// tool descriptors; anything else is an invalid listing.
pub fn parse_tools_result(v: &JsonValue) -> (r: Result<Vec<Tool>, Error>)
    ensures
        match r {
            Ok(tools) => spec_tools_result(v@) == Some(tools_view(tools@)),
            Err(e) => spec_tools_result(v@) is None && e is InvalidRequest,
        },
{
    match v.obj_get("tools") {
        Some(m) => match m {
            JsonValue::Arr(items) => match parse_tool_items(items) {
                Some(tools) => Ok(tools),
                None => Err(Error::InvalidRequest(String::from_str("Invalid tools response"))),
            },
            _ => Err(Error::InvalidRequest(String::from_str("Invalid tools response"))),
        },
        None => Err(Error::InvalidRequest(String::from_str("Invalid tools response"))),
    }
}

/// The decoded resource listing of a result tree.
pub open spec fn spec_resources_result(rep: JsonRep) -> Option<Seq<ResourceRep>> {
    match rep_get(rep, "resources"@) {
        Some(JsonRep::Arr(items)) => parse_all(items, |x: JsonRep| spec_resource_from(x)),
        _ => None,
    }
}

/// Decodes the `resources/list` result.
pub fn parse_resources_result(v: &JsonValue) -> (r: Result<Vec<Resource>, Error>)
    ensures
        match r {
            Ok(rs) => spec_resources_result(v@) == Some(resources_view(rs@)),
            Err(e) => spec_resources_result(v@) is None && e is InvalidRequest,
        },
{
    match v.obj_get("resources") {
        Some(m) => match m {
            JsonValue::Arr(items) => match parse_resource_items(items) {
                Some(rs) => Ok(rs),
                None => Err(
                    Error::InvalidRequest(String::from_str("Invalid resources response")),
                ),
            },
            _ => Err(Error::InvalidRequest(String::from_str("Invalid resources response"))),
        },
        None => Err(Error::InvalidRequest(String::from_str("Invalid resources response"))),
    }
}

/// The decoded prompt listing of a result tree.
pub open spec fn spec_prompts_result(rep: JsonRep) -> Option<Seq<PromptRep>> {
    match rep_get(rep, "prompts"@) {
        Some(JsonRep::Arr(items)) => parse_all(items, |x: JsonRep| spec_prompt_from(x)),
        _ => None,
    }
}

/// Decodes the `prompts/list` result.
pub fn parse_prompts_result(v: &JsonValue) -> (r: Result<Vec<Prompt>, Error>)
    ensures
        match r {
            Ok(ps) => spec_prompts_result(v@) == Some(prompts_view(ps@)),
            Err(e) => spec_prompts_result(v@) is None && e is InvalidRequest,
        },
{
    match v.obj_get("prompts") {
        Some(m) => match m {
            JsonValue::Arr(items) => match parse_prompt_items(items) {
                Some(ps) => Ok(ps),
                None => Err(Error::InvalidRequest(String::from_str("Invalid prompts response"))),
            },
            _ => Err(Error::InvalidRequest(String::from_str("Invalid prompts response"))),
        },
        None => Err(Error::InvalidRequest(String::from_str("Invalid prompts response"))),
    }
}

/// The text of the first entry of a `resources/read` result: the first
/// element of `contents` must carry a string `text` member.
pub open spec fn spec_read_resource_result(rep: JsonRep) -> Option<Seq<char>> {
    match rep_get(rep, "contents"@) {
        Some(JsonRep::Arr(items)) => if items.len() > 0 {
            match rep_get(items[0], "text"@) {
                Some(JsonRep::Str(t)) => Some(t),
                _ => None,
            }
        } else {
            None
        },
        _ => None,
    }
}

/// Decodes the `resources/read` result into the text of its first entry.
pub fn parse_read_resource_result(v: &JsonValue) -> (r: Result<String, Error>)
    ensures
        match r {
            Ok(s) => spec_read_resource_result(v@) == Some(s@),
            Err(e) => spec_read_resource_result(v@) is None && e is InvalidRequest,
        },
{
    match v.obj_get("contents") {
        Some(m) => match m {
            JsonValue::Arr(items) => {
                if items.len() > 0 {
                    proof {
                        lemma_arr_view_index(items@, 0);
                    }
                    match items[0].obj_get("text") {
                        Some(t) => match t.as_str() {
                            Some(s) => Ok(s.clone()),
                            None => Err(
                                Error::InvalidRequest(
                                    String::from_str("Invalid resource content"),
                                ),
                            ),
                        },
                        None => Err(
                            Error::InvalidRequest(String::from_str("Invalid resource content")),
                        ),
                    }
                } else {
                    Err(Error::InvalidRequest(String::from_str("Invalid resource content")))
                }
            },
            _ => Err(Error::InvalidRequest(String::from_str("Invalid resource content"))),
        },
        None => Err(Error::InvalidRequest(String::from_str("Invalid resource content"))),
    }
}

/// The JSON tree of an encoded input schema: `required` is omitted when
/// absent.
pub open spec fn spec_schema_json(s: SchemaRep) -> JsonRep {
    JsonRep::Obj(
        seq![("type"@, JsonRep::Str(s.schema_type)), ("properties"@, JsonRep::Obj(s.properties))]
            + match s.required {
            Some(names) => seq![
                ("required"@, JsonRep::Arr(names.map_values(|n: Seq<char>| JsonRep::Str(n)))),
            ],
            None => Seq::empty(),
        },
    )
}

/// Encodes an input schema as a JSON object.
pub fn schema_to_json(s: &ToolInputSchema) -> (v: JsonValue)
    ensures
        v@ == spec_schema_json(s@),
{
    let mut fields: Vec<(String, JsonValue)> = Vec::new();
    fields.push((String::from_str("type"), JsonValue::Str(s.schema_type.clone())));
    fields.push((String::from_str("properties"), JsonValue::Obj(clone_members(&s.properties))));
    match &s.required {
        Some(names) => {
            let mut items: Vec<JsonValue> = Vec::new();
            let mut i: usize = 0;
            while i < names.len()
                invariant
                    i <= names.len(),
                    items@.len() == i as int,
                    forall|j: int| 0 <= j < i as int ==> items@[j]@ == JsonRep::Str(
                        (#[trigger] names@[j])@,
                    ),
                decreases names@.len() - i,
            {
                items.push(JsonValue::Str(names[i].clone()));
                i = i + 1;
            }
            proof {
                lemma_arr_view_len(items@);
                assert forall|j: int| 0 <= j < items@.len() implies #[trigger] arr_view(items@)[j]
                    == strings_view(names@).map_values(|n: Seq<char>| JsonRep::Str(n))[j] by {
                    lemma_arr_view_index(items@, j);
                }
                assert(arr_view(items@) =~= strings_view(names@).map_values(
                    |n: Seq<char>| JsonRep::Str(n),
                ));
            }
            fields.push((String::from_str("required"), JsonValue::Arr(items)));
        },
        None => {},
    }
    let v = JsonValue::Obj(fields);
    proof {
        let target = spec_schema_json(s@)->Obj_0;
        lemma_obj_view_len(v->Obj_0@);
        assert forall|j: int| 0 <= j < v->Obj_0@.len() implies obj_view(v->Obj_0@)[j]
            == target[j] by {
            lemma_obj_view_index(v->Obj_0@, j);
        }
        assert(obj_view(v->Obj_0@) =~= target);
    }
    v
}

/// The JSON tree of an encoded tool descriptor: a missing description
/// encodes as null, a missing schema is omitted.
pub open spec fn spec_tool_json(t: ToolRep) -> JsonRep {
    JsonRep::Obj(
        seq![
            ("name"@, JsonRep::Str(t.name)),
            (
                "description"@,
                match t.description {
                    Some(d) => JsonRep::Str(d),
                    None => JsonRep::Null,
                },
            ),
        ] + match t.input_schema {
            Some(sch) => seq![("input_schema"@, spec_schema_json(sch))],
            None => Seq::empty(),
        },
    )
}

/// Encodes a tool descriptor as a JSON object.
pub fn tool_to_json(t: &Tool) -> (v: JsonValue)
    ensures
        v@ == spec_tool_json(t@),
{
    let mut fields: Vec<(String, JsonValue)> = Vec::new();
    fields.push((String::from_str("name"), JsonValue::Str(t.name.clone())));
    let description = match &t.description {
        Some(d) => JsonValue::Str(d.clone()),
        None => JsonValue::Null,
    };
    fields.push((String::from_str("description"), description));
    match &t.input_schema {
        Some(sch) => {
            fields.push((String::from_str("input_schema"), schema_to_json(sch)));
        },
        None => {},
    }
    let v = JsonValue::Obj(fields);
    proof {
        let target = spec_tool_json(t@)->Obj_0;
        lemma_obj_view_len(v->Obj_0@);
        assert forall|j: int| 0 <= j < v->Obj_0@.len() implies obj_view(v->Obj_0@)[j]
            == target[j] by {
            lemma_obj_view_index(v->Obj_0@, j);
        }
        assert(obj_view(v->Obj_0@) =~= target);
    }
    v
}

/// The JSON trees of a tool listing.
pub open spec fn spec_tools_json(ts: Seq<ToolRep>) -> Seq<JsonRep> {
    ts.map_values(|t: ToolRep| spec_tool_json(t))
}

/// Encodes a tool listing as a JSON array.
pub fn tools_to_json(ts: &Vec<Tool>) -> (v: JsonValue)
    ensures
        v@ == JsonRep::Arr(spec_tools_json(tools_view(ts@))),
{
    let mut items: Vec<JsonValue> = Vec::new();
    let mut i: usize = 0;
    while i < ts.len()
        invariant
            i <= ts.len(),
            items@.len() == i as int,
            forall|j: int| 0 <= j < i as int ==> items@[j]@ == spec_tool_json(
                (#[trigger] ts@[j])@,
            ),
        decreases ts@.len() - i,
    {
        items.push(tool_to_json(&ts[i]));
        i = i + 1;
    }
    proof {
        lemma_arr_view_len(items@);
        assert forall|j: int| 0 <= j < items@.len() implies #[trigger] arr_view(items@)[j]
            == spec_tools_json(tools_view(ts@))[j] by {
            lemma_arr_view_index(items@, j);
        }
        assert(arr_view(items@) =~= spec_tools_json(tools_view(ts@)));
    }
    JsonValue::Arr(items)
}

/// The JSON tree of one encoded result content block, tagged by `type`.
pub open spec fn spec_content_json(c: ResultContentRep) -> JsonRep {
    match c {
        ResultContentRep::Text { text } => JsonRep::Obj(
            seq![("type"@, JsonRep::Str("text"@)), ("text"@, JsonRep::Str(text))],
        ),
        ResultContentRep::Image { data, mime_type } => JsonRep::Obj(
            seq![
                ("type"@, JsonRep::Str("image"@)),
                ("data"@, JsonRep::Str(data)),
                ("mimeType"@, JsonRep::Str(mime_type)),
            ],
        ),
    }
}

/// Encodes one result content block.
pub fn content_to_json(c: &ResultContent) -> (v: JsonValue)
    ensures
        v@ == spec_content_json(c@),
{
    let mut fields: Vec<(String, JsonValue)> = Vec::new();
    match c {
        ResultContent::Text { text } => {
            fields.push((String::from_str("type"), JsonValue::Str(String::from_str("text"))));
            fields.push((String::from_str("text"), JsonValue::Str(text.clone())));
        },
        ResultContent::Image { data, mime_type } => {
            fields.push((String::from_str("type"), JsonValue::Str(String::from_str("image"))));
            fields.push((String::from_str("data"), JsonValue::Str(data.clone())));
            fields.push((String::from_str("mimeType"), JsonValue::Str(mime_type.clone())));
        },
    }
    let v = JsonValue::Obj(fields);
    proof {
        let target = spec_content_json(c@)->Obj_0;
        lemma_obj_view_len(v->Obj_0@);
        assert forall|j: int| 0 <= j < v->Obj_0@.len() implies obj_view(v->Obj_0@)[j]
            == target[j] by {
            lemma_obj_view_index(v->Obj_0@, j);
        }
        assert(obj_view(v->Obj_0@) =~= target);
    }
    v
}

/// The JSON tree of an encoded tool result: `id` and `isError` are
/// omitted when absent.
pub open spec fn spec_tool_result_json(t: ToolResultRep) -> JsonRep {
    JsonRep::Obj(
        match t.id {
            Some(id) => seq![("id"@, JsonRep::Str(id))],
            None => Seq::empty(),
        } + seq![
            ("content"@, JsonRep::Arr(t.content.map_values(|c: ResultContentRep| spec_content_json(c)))),
        ] + match t.is_error {
            Some(b) => seq![("isError"@, JsonRep::Bool(b))],
            None => Seq::empty(),
        },
    )
}

/// Encodes a tool result as a JSON object.
pub fn tool_result_to_json(t: &ToolResult) -> (v: JsonValue)
    ensures
        v@ == spec_tool_result_json(t@),
{
    let mut fields: Vec<(String, JsonValue)> = Vec::new();
    match &t.id {
        Some(id) => {
            fields.push((String::from_str("id"), JsonValue::Str(id.clone())));
        },
        None => {},
    }
    let mut items: Vec<JsonValue> = Vec::new();
    let mut i: usize = 0;
    while i < t.content.len()
        invariant
            i <= t.content.len(),
            items@.len() == i as int,
            forall|j: int| 0 <= j < i as int ==> items@[j]@ == spec_content_json(
                (#[trigger] t.content@[j])@,
            ),
        decreases t.content@.len() - i,
    {
        items.push(content_to_json(&t.content[i]));
        i = i + 1;
    }
    proof {
        lemma_arr_view_len(items@);
        assert forall|j: int| 0 <= j < items@.len() implies #[trigger] arr_view(items@)[j]
            == contents_view(t.content@).map_values(
            |c: ResultContentRep| spec_content_json(c),
        )[j] by {
            lemma_arr_view_index(items@, j);
        }
        assert(arr_view(items@) =~= contents_view(t.content@).map_values(
            |c: ResultContentRep| spec_content_json(c),
        ));
    }
    fields.push((String::from_str("content"), JsonValue::Arr(items)));
    match t.is_error {
        Some(b) => {
            fields.push((String::from_str("isError"), JsonValue::Bool(b)));
        },
        None => {},
    }
    let v = JsonValue::Obj(fields);
    proof {
        let target = spec_tool_result_json(t@)->Obj_0;
        lemma_obj_view_len(v->Obj_0@);
        assert forall|j: int| 0 <= j < v->Obj_0@.len() implies obj_view(v->Obj_0@)[j]
            == target[j] by {
            lemma_obj_view_index(v->Obj_0@, j);
        }
        assert(obj_view(v->Obj_0@) =~= target);
    }
    v
}

/// The JSON tree of an encoded resource descriptor: optional members are
/// omitted when absent.
pub open spec fn spec_resource_json(r: ResourceRep) -> JsonRep {
    JsonRep::Obj(
        seq![("uri"@, JsonRep::Str(r.uri)), ("name"@, JsonRep::Str(r.name))] + match r.description {
            Some(d) => seq![("description"@, JsonRep::Str(d))],
            None => Seq::empty(),
        } + match r.mime_type {
            Some(m) => seq![("mimeType"@, JsonRep::Str(m))],
            None => Seq::empty(),
        },
    )
}

/// Encodes a resource descriptor as a JSON object.
pub fn resource_to_json(r: &Resource) -> (v: JsonValue)
    ensures
        v@ == spec_resource_json(r@),
{
    let mut fields: Vec<(String, JsonValue)> = Vec::new();
    fields.push((String::from_str("uri"), JsonValue::Str(r.uri.clone())));
    fields.push((String::from_str("name"), JsonValue::Str(r.name.clone())));
    match &r.description {
        Some(d) => {
            fields.push((String::from_str("description"), JsonValue::Str(d.clone())));
        },
        None => {},
    }
    match &r.mime_type {
        Some(m) => {
            fields.push((String::from_str("mimeType"), JsonValue::Str(m.clone())));
        },
        None => {},
    }
    let v = JsonValue::Obj(fields);
    proof {
        let target = spec_resource_json(r@)->Obj_0;
        lemma_obj_view_len(v->Obj_0@);
        assert forall|j: int| 0 <= j < v->Obj_0@.len() implies obj_view(v->Obj_0@)[j]
            == target[j] by {
            lemma_obj_view_index(v->Obj_0@, j);
        }
        assert(obj_view(v->Obj_0@) =~= target);
    }
    v
}

/// The JSON trees of a resource listing.
pub open spec fn spec_resources_json(rs: Seq<ResourceRep>) -> Seq<JsonRep> {
    rs.map_values(|r: ResourceRep| spec_resource_json(r))
}

/// Encodes a resource listing as a JSON array.
pub fn resources_to_json(rs: &Vec<Resource>) -> (v: JsonValue)
    ensures
        v@ == JsonRep::Arr(spec_resources_json(resources_view(rs@))),
{
    let mut items: Vec<JsonValue> = Vec::new();
    let mut i: usize = 0;
    while i < rs.len()
        invariant
            i <= rs.len(),
            items@.len() == i as int,
            forall|j: int| 0 <= j < i as int ==> items@[j]@ == spec_resource_json(
                (#[trigger] rs@[j])@,
            ),
        decreases rs@.len() - i,
    {
        items.push(resource_to_json(&rs[i]));
        i = i + 1;
    }
    proof {
        lemma_arr_view_len(items@);
        assert forall|j: int| 0 <= j < items@.len() implies #[trigger] arr_view(items@)[j]
            == spec_resources_json(resources_view(rs@))[j] by {
            lemma_arr_view_index(items@, j);
        }
        assert(arr_view(items@) =~= spec_resources_json(resources_view(rs@)));
    }
    JsonValue::Arr(items)
}

/// The JSON tree of an encoded prompt argument.
pub open spec fn spec_prompt_arg_json(a: PromptArgumentRep) -> JsonRep {
    JsonRep::Obj(
        seq![("name"@, JsonRep::Str(a.name))] + match a.description {
            Some(d) => seq![("description"@, JsonRep::Str(d))],
            None => Seq::empty(),
        } + match a.required {
            Some(b) => seq![("required"@, JsonRep::Bool(b))],
            None => Seq::empty(),
        },
    )
}

/// Encodes a prompt argument as a JSON object.
pub fn prompt_arg_to_json(a: &PromptArgument) -> (v: JsonValue)
    ensures
        v@ == spec_prompt_arg_json(a@),
{
    let mut fields: Vec<(String, JsonValue)> = Vec::new();
    fields.push((String::from_str("name"), JsonValue::Str(a.name.clone())));
    match &a.description {
        Some(d) => {
            fields.push((String::from_str("description"), JsonValue::Str(d.clone())));
        },
        None => {},
    }
    match a.required {
        Some(b) => {
            fields.push((String::from_str("required"), JsonValue::Bool(b)));
        },
        None => {},
    }
    let v = JsonValue::Obj(fields);
    proof {
        let target = spec_prompt_arg_json(a@)->Obj_0;
        lemma_obj_view_len(v->Obj_0@);
        assert forall|j: int| 0 <= j < v->Obj_0@.len() implies obj_view(v->Obj_0@)[j]
            == target[j] by {
            lemma_obj_view_index(v->Obj_0@, j);
        }
        assert(obj_view(v->Obj_0@) =~= target);
    }
    v
}

/// The JSON tree of an encoded prompt descriptor: optional members are
/// omitted when absent.
pub open spec fn spec_prompt_json(p: PromptRep) -> JsonRep {
    JsonRep::Obj(
        seq![("name"@, JsonRep::Str(p.name))] + match p.description {
            Some(d) => seq![("description"@, JsonRep::Str(d))],
            None => Seq::empty(),
        } + match p.arguments {
            Some(args) => seq![
                ("arguments"@, JsonRep::Arr(args.map_values(|a: PromptArgumentRep| spec_prompt_arg_json(a)))),
            ],
            None => Seq::empty(),
        },
    )
}

/// Encodes a prompt descriptor as a JSON object.
pub fn prompt_to_json(p: &Prompt) -> (v: JsonValue)
    ensures
        v@ == spec_prompt_json(p@),
{
    let mut fields: Vec<(String, JsonValue)> = Vec::new();
    fields.push((String::from_str("name"), JsonValue::Str(p.name.clone())));
    match &p.description {
        Some(d) => {
            fields.push((String::from_str("description"), JsonValue::Str(d.clone())));
        },
        None => {},
    }
    match &p.arguments {
        Some(args) => {
            let mut items: Vec<JsonValue> = Vec::new();
            let mut i: usize = 0;
            while i < args.len()
                invariant
                    i <= args.len(),
                    items@.len() == i as int,
                    forall|j: int| 0 <= j < i as int ==> items@[j]@ == spec_prompt_arg_json(
                        (#[trigger] args@[j])@,
                    ),
                decreases args@.len() - i,
            {
                items.push(prompt_arg_to_json(&args[i]));
                i = i + 1;
            }
            proof {
                lemma_arr_view_len(items@);
                assert forall|j: int| 0 <= j < items@.len() implies #[trigger] arr_view(items@)[j]
                    == prompt_args_view(args@).map_values(
                    |a: PromptArgumentRep| spec_prompt_arg_json(a),
                )[j] by {
                    lemma_arr_view_index(items@, j);
                }
                assert(arr_view(items@) =~= prompt_args_view(args@).map_values(
                    |a: PromptArgumentRep| spec_prompt_arg_json(a),
                ));
            }
            fields.push((String::from_str("arguments"), JsonValue::Arr(items)));
        },
        None => {},
    }
    let v = JsonValue::Obj(fields);
    proof {
        let target = spec_prompt_json(p@)->Obj_0;
        lemma_obj_view_len(v->Obj_0@);
        assert forall|j: int| 0 <= j < v->Obj_0@.len() implies obj_view(v->Obj_0@)[j]
            == target[j] by {
            lemma_obj_view_index(v->Obj_0@, j);
        }
        assert(obj_view(v->Obj_0@) =~= target);
    }
    v
}

/// The JSON trees of a prompt listing.
pub open spec fn spec_prompts_json(ps: Seq<PromptRep>) -> Seq<JsonRep> {
    ps.map_values(|p: PromptRep| spec_prompt_json(p))
}

/// Encodes a prompt listing as a JSON array.
pub fn prompts_to_json(ps: &Vec<Prompt>) -> (v: JsonValue)
    ensures
        v@ == JsonRep::Arr(spec_prompts_json(prompts_view(ps@))),
{
    let mut items: Vec<JsonValue> = Vec::new();
    let mut i: usize = 0;
    while i < ps.len()
        invariant
            i <= ps.len(),
            items@.len() == i as int,
            forall|j: int| 0 <= j < i as int ==> items@[j]@ == spec_prompt_json(
                (#[trigger] ps@[j])@,
            ),
        decreases ps@.len() - i,
    {
        items.push(prompt_to_json(&ps[i]));
        i = i + 1;
    }
    proof {
        lemma_arr_view_len(items@);
        assert forall|j: int| 0 <= j < items@.len() implies #[trigger] arr_view(items@)[j]
            == spec_prompts_json(prompts_view(ps@))[j] by {
            lemma_arr_view_index(items@, j);
        }
        assert(arr_view(items@) =~= spec_prompts_json(prompts_view(ps@)));
    }
    JsonValue::Arr(items)
}

} // verus!

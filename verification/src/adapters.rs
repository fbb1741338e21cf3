//! Vendor wire-format translation.
//!
//! Two adapter shapes exist. The thin shape makes one vendor call per
//! agent iteration and hands control back at once; its translation both
//! ways lives here, the network call does not. The self-looping shape
//! runs its own bounded loop, executing the vendor's function calls
//! itself and returning only a final text answer; its per-round decision
//! — call tools or finish — is [`openai_step`], and the outer loop never
//! observes the inner tool calls.

use vstd::prelude::*;
use vstd::string::StringExecFns;
use crate::json::{
    JsonValue, JsonRep, rep_get, arr_view, obj_view, lemma_arr_view_index, lemma_arr_view_len,
};
use crate::protocol::{
    Message, MessageRep, Role, ContentBlock, BlockRep, ResultContent, ResultContentRep, Tool,
    ToolRep, blocks_view, msgs_view, contents_view, strings_view, clone_members, clone_strings,
    opt_str_view,
};
use crate::agent::{LLMResponse, StopReason};
use crate::error::Error;

verus! {

/// The pieces a separator-join glues together.
pub open spec fn join_with(parts: Seq<Seq<char>>, sep: Seq<char>) -> Seq<char>
    decreases parts.len(),
{
    if parts.len() == 0 {
        Seq::empty()
    } else if parts.len() == 1 {
        parts[0]
    } else {
        join_with(parts.drop_last(), sep) + sep + parts.last()
    }
}


/// Joining after appending one more part appends the separator and the
/// part, or is just the part when nothing came before.
pub proof fn lemma_join_push(parts: Seq<Seq<char>>, p: Seq<char>, sep: Seq<char>)
    ensures
        join_with(parts.push(p), sep) == if parts.len() == 0 {
            p
        } else {
            join_with(parts, sep) + sep + p
        },
{
    let w = parts.push(p);
    assert(w.drop_last() =~= parts);
    assert(w.last() == p);
    if parts.len() == 0 {
        assert(w[0] == p);
    }
}

/// The texts inside a tool result, in order, images skipped.
pub open spec fn texts_of(contents: Seq<ResultContentRep>) -> Seq<Seq<char>>
    decreases contents.len(),
{
    if contents.len() == 0 {
        Seq::empty()
    } else {
        match contents.last() {
            ResultContentRep::Text { text } => texts_of(contents.drop_last()).push(text),
            _ => texts_of(contents.drop_last()),
        }
    }
}

/// Joins the texts of a tool result with single spaces.
fn joined_result_texts(content: &Vec<ResultContent>) -> (r: String)
    ensures
        r@ == join_with(texts_of(contents_view(content@)), " "@),
{
    let ghost crep = contents_view(content@);
    let mut out = String::new();
    let mut first = true;
    let mut i: usize = 0;
    proof {
        assert(crep.take(0) =~= Seq::<ResultContentRep>::empty());
    }
    while i < content.len()
        invariant
            i <= content.len(),
            crep == contents_view(content@),
            crep.len() == content@.len(),
            out@ == join_with(texts_of(crep.take(i as int)), " "@),
            first == (texts_of(crep.take(i as int)).len() == 0),
        decreases content@.len() - i,
    {
        proof {
            assert(crep.take(i as int + 1).drop_last() =~= crep.take(i as int));
            assert(crep.take(i as int + 1).last() == crep[i as int]);
        }
        match &content[i] {
            ResultContent::Text { text } => {
                if !first {
                    out.append(" ");
                }
                out.append(text.as_str());
                first = false;
                proof {
                    let parts = texts_of(crep.take(i as int));
                    assert(texts_of(crep.take(i as int + 1)) == parts.push(text@));
                    lemma_join_push(parts, text@, " "@);
                    assert(out@ =~= join_with(texts_of(crep.take(i as int + 1)), " "@));
                }
            },
            _ => {},
        }
        i = i + 1;
    }
    proof {
        assert(crep.take(content@.len() as int) =~= crep);
    }
    out
}

/// The text one content block contributes to the flattened vendor
/// message: plain text verbatim, a tool result in its bracketed form,
/// nothing for the other kinds.
pub open spec fn spec_block_part(b: BlockRep) -> Option<Seq<char>> {
    match b {
        BlockRep::Text { text } => Some(text),
        BlockRep::ToolResult { tool_use_id, content, is_error } => Some(
            if is_error == Some(true) {
                "[Tool "@ + tool_use_id + " error: "@ + join_with(texts_of(content), " "@) + "]"@
            } else {
                "[Tool "@ + tool_use_id + " result: "@ + join_with(texts_of(content), " "@) + "]"@
            },
        ),
        _ => None,
    }
}

/// The parts a message's blocks contribute, in order.
pub open spec fn block_parts(content: Seq<BlockRep>) -> Seq<Seq<char>>
    decreases content.len(),
{
    if content.len() == 0 {
        Seq::empty()
    } else {
        match spec_block_part(content.last()) {
            Some(p) => block_parts(content.drop_last()).push(p),
            None => block_parts(content.drop_last()),
        }
    }
}

/// The flattened text of one message: its parts joined with line breaks.
/// No textual content is dropped: every text block contributes verbatim.
pub open spec fn spec_flat_content(content: Seq<BlockRep>) -> Seq<char> {
    join_with(block_parts(content), "\n"@)
}

/// Flattens one message's blocks into the vendor's single text content.
fn flat_content_of(content: &Vec<ContentBlock>) -> (r: String)
    ensures
        r@ == spec_flat_content(blocks_view(content@)),
{
    let ghost brep = blocks_view(content@);
    let mut out = String::new();
    let mut first = true;
    let mut i: usize = 0;
    proof {
        assert(brep.take(0) =~= Seq::<BlockRep>::empty());
    }
    while i < content.len()
        invariant
            i <= content.len(),
            brep == blocks_view(content@),
            brep.len() == content@.len(),
            out@ == join_with(block_parts(brep.take(i as int)), "\n"@),
            first == (block_parts(brep.take(i as int)).len() == 0),
        decreases content@.len() - i,
    {
        proof {
            assert(brep.take(i as int + 1).drop_last() =~= brep.take(i as int));
            assert(brep.take(i as int + 1).last() == brep[i as int]);
        }
        match &content[i] {
            ContentBlock::Text { text } => {
                if !first {
                    out.append("\n");
                }
                out.append(text.as_str());
                first = false;
                proof {
                    let parts = block_parts(brep.take(i as int));
                    assert(block_parts(brep.take(i as int + 1)) == parts.push(text@));
                    lemma_join_push(parts, text@, "\n"@);
                    assert(out@ =~= join_with(block_parts(brep.take(i as int + 1)), "\n"@));
                }
            },
            ContentBlock::ToolResult { tool_use_id, content: rc, is_error } => {
                if !first {
                    out.append("\n");
                }
                let mut part = String::from_str("[Tool ");
                part.append(tool_use_id.as_str());
                let flagged = match is_error {
                    Some(true) => true,
                    _ => false,
                };
                if flagged {
                    part.append(" error: ");
                } else {
                    part.append(" result: ");
                }
                let joined = joined_result_texts(rc);
                part.append(joined.as_str());
                part.append("]");
                proof {
                    assert(spec_block_part(brep[i as int]) matches Some(bp) && part@ =~= bp);
                }
                out.append(part.as_str());
                first = false;
                proof {
                    let parts = block_parts(brep.take(i as int));
                    assert(block_parts(brep.take(i as int + 1)) == parts.push(part@));
                    lemma_join_push(parts, part@, "\n"@);
                    assert(out@ =~= join_with(block_parts(brep.take(i as int + 1)), "\n"@));
                }
            },
            _ => {},
        }
        i = i + 1;
    }
    proof {
        assert(brep.take(content@.len() as int) =~= brep);
    }
    out
}

/// One message in the vendor's request schema: a role tag and one flat
/// text content.
pub struct AnthropicMessage {
    pub role: String,
    pub content: String,
}

/// The model of an [`AnthropicMessage`].
#[verifier::ext_equal]
pub struct AnthropicMessageRep {
    pub role: Seq<char>,
    pub content: Seq<char>,
}

impl View for AnthropicMessage {
    type V = AnthropicMessageRep;

    open spec fn view(&self) -> AnthropicMessageRep {
        AnthropicMessageRep { role: self.role@, content: self.content@ }
    }
}

/// The vendor's role tag.
pub open spec fn spec_role_tag(role: Role) -> Seq<char> {
    match role {
        Role::User => "user"@,
        Role::Assistant => "assistant"@,
    }
}

/// The vendor messages a conversation translates to: each message
/// flattened to one text, messages with no textual content left out.
pub open spec fn spec_anthropic_messages(msgs: Seq<MessageRep>) -> Seq<AnthropicMessageRep>
    decreases msgs.len(),
{
    if msgs.len() == 0 {
        Seq::empty()
    } else {
        let m = msgs.last();
        let flat = spec_flat_content(m.content);
        if flat.len() == 0 {
            spec_anthropic_messages(msgs.drop_last())
        } else {
            spec_anthropic_messages(msgs.drop_last()).push(
                AnthropicMessageRep { role: spec_role_tag(m.role), content: flat },
            )
        }
    }
}

/// The models of a vendor message list.
pub open spec fn anthropic_messages_view(s: Seq<AnthropicMessage>) -> Seq<AnthropicMessageRep> {
    s.map_values(|m: AnthropicMessage| m@)
}

/// Translates a conversation into the vendor's message schema: each
/// message's textual content is flattened and kept verbatim; messages
/// that flatten to nothing are left out.
pub fn anthropic_messages(messages: &Vec<Message>) -> (r: Vec<AnthropicMessage>)
    ensures
        anthropic_messages_view(r@) == spec_anthropic_messages(msgs_view(messages@)),
{
    let ghost mrep = msgs_view(messages@);
    let mut out: Vec<AnthropicMessage> = Vec::new();
    let mut i: usize = 0;
    proof {
        assert(mrep.take(0) =~= Seq::<MessageRep>::empty());
        assert(anthropic_messages_view(out@) =~= spec_anthropic_messages(mrep.take(0)));
    }
    while i < messages.len()
        invariant
            i <= messages.len(),
            mrep == msgs_view(messages@),
            mrep.len() == messages@.len(),
            anthropic_messages_view(out@) == spec_anthropic_messages(mrep.take(i as int)),
        decreases messages@.len() - i,
    {
        proof {
            assert(mrep.take(i as int + 1).drop_last() =~= mrep.take(i as int));
            assert(mrep.take(i as int + 1).last() == mrep[i as int]);
        }
        let message = &messages[i];
        let content = flat_content_of(&message.content);
        if content.unicode_len() > 0 {
            let role = match message.role {
                Role::User => String::from_str("user"),
                Role::Assistant => String::from_str("assistant"),
            };
            let translated = AnthropicMessage { role, content };
            out.push(translated);
            proof {
                assert(anthropic_messages_view(out@) =~= spec_anthropic_messages(
                    mrep.take(i as int),
                ).push(out@.last()@));
            }
        }
        i = i + 1;
    }
    proof {
        assert(mrep.take(messages@.len() as int) =~= mrep);
    }
    out
}

/// A tool's input schema in the vendor's request schema.
pub struct AnthropicToolInput {
    pub type_field: String,
    pub properties: Vec<(String, JsonValue)>,
    pub required: Option<Vec<String>>,
}

/// The model of an [`AnthropicToolInput`].
#[verifier::ext_equal]
pub struct AnthropicToolInputRep {
    pub type_field: Seq<char>,
    pub properties: Seq<(Seq<char>, JsonRep)>,
    pub required: Option<Seq<Seq<char>>>,
}

impl View for AnthropicToolInput {
    type V = AnthropicToolInputRep;

    open spec fn view(&self) -> AnthropicToolInputRep {
        AnthropicToolInputRep {
            type_field: self.type_field@,
            properties: obj_view(self.properties@),
            required: match self.required {
                Some(rs) => Some(strings_view(rs@)),
                None => None,
            },
        }
    }
}

/// A tool definition in the vendor's request schema.
pub struct AnthropicTool {
    pub name: String,
    pub description: String,
    pub input_schema: AnthropicToolInput,
}

/// The model of an [`AnthropicTool`].
#[verifier::ext_equal]
pub struct AnthropicToolRep {
    pub name: Seq<char>,
    pub description: Seq<char>,
    pub input_schema: AnthropicToolInputRep,
}

impl View for AnthropicTool {
    type V = AnthropicToolRep;

    open spec fn view(&self) -> AnthropicToolRep {
        AnthropicToolRep {
            name: self.name@,
            description: self.description@,
            input_schema: self.input_schema@,
        }
    }
}

/// The vendor definition one tool descriptor translates to, field for
/// field: a missing description becomes the empty string, a missing
/// schema the bare `object` shape.
pub open spec fn spec_anthropic_tool(t: ToolRep) -> AnthropicToolRep {
    AnthropicToolRep {
        name: t.name,
        description: match t.description {
            Some(d) => d,
            None => Seq::empty(),
        },
        input_schema: match t.input_schema {
            Some(s) => AnthropicToolInputRep {
                type_field: s.schema_type,
                properties: s.properties,
                required: s.required,
            },
            None => AnthropicToolInputRep {
                type_field: "object"@,
                properties: Seq::empty(),
                required: None,
            },
        },
    }
}

/// The models of a vendor tool list.
pub open spec fn anthropic_tools_view(s: Seq<AnthropicTool>) -> Seq<AnthropicToolRep> {
    s.map_values(|t: AnthropicTool| t@)
}

/// Translates the tool catalog into the vendor's tool-definition schema,
/// one to one and in order.
pub fn anthropic_tools(tools: &Vec<Tool>) -> (r: Vec<AnthropicTool>)
    ensures
        anthropic_tools_view(r@) == crate::protocol::tools_view(tools@).map_values(
            |t: ToolRep| spec_anthropic_tool(t),
        ),
{
    let ghost trep = crate::protocol::tools_view(tools@);
    let mut out: Vec<AnthropicTool> = Vec::new();
    let mut i: usize = 0;
    while i < tools.len()
        invariant
            i <= tools.len(),
            trep == crate::protocol::tools_view(tools@),
            trep.len() == tools@.len(),
            out@.len() == i as int,
            forall|j: int| 0 <= j < i as int ==> (#[trigger] out@[j])@ == spec_anthropic_tool(
                trep[j],
            ),
        decreases tools@.len() - i,
    {
        let t = &tools[i];
        let description = match &t.description {
            Some(d) => d.clone(),
            None => String::new(),
        };
        let input_schema = match &t.input_schema {
            Some(s) => AnthropicToolInput {
                type_field: s.schema_type.clone(),
                properties: clone_members(&s.properties),
                required: match &s.required {
                    Some(rs) => Some(clone_strings(rs)),
                    None => None,
                },
            },
            None => AnthropicToolInput {
                type_field: String::from_str("object"),
                properties: Vec::new(),
                required: None,
            },
        };
        proof {
            assert(obj_view(Seq::<(String, JsonValue)>::empty()) =~= Seq::<
                (Seq<char>, JsonRep),
            >::empty());
        }
        out.push(AnthropicTool { name: t.name.clone(), description, input_schema });
        i = i + 1;
    }
    proof {
        assert(anthropic_tools_view(out@) =~= trep.map_values(|t: ToolRep| spec_anthropic_tool(t)));
    }
    out
}

/// The stop reason a vendor tag maps to: `tool_use` and `max_tokens` have
/// their own reasons, everything else ends the turn.
pub open spec fn spec_stop_reason(tag: Seq<char>) -> StopReason {
    if tag == "tool_use"@ {
        StopReason::ToolUse
    } else if tag == "max_tokens"@ {
        StopReason::MaxTokens
    } else {
        StopReason::EndTurn
    }
}

/// Maps the vendor's stop tag to a stop reason.
pub fn stop_reason_from_tag(tag: &str) -> (r: StopReason)
    ensures
        r == spec_stop_reason(tag@),
{
    let owned = String::from_str(tag);
    if owned == String::from_str("tool_use") {
        StopReason::ToolUse
    } else if owned == String::from_str("max_tokens") {
        StopReason::MaxTokens
    } else {
        StopReason::EndTurn
    }
}

/// The decoded content block of one vendor response item: `text` carries
/// a text member, `tool_use` an id, a name and an input tree; any other
/// shape fails the response.
pub open spec fn spec_anthropic_block_from(rep: JsonRep) -> Option<BlockRep> {
    match rep_get(rep, "type"@) {
        Some(JsonRep::Str(tag)) => if tag == "text"@ {
            match rep_get(rep, "text"@) {
                Some(JsonRep::Str(t)) => Some(BlockRep::Text { text: t }),
                _ => None,
            }
        } else if tag == "tool_use"@ {
            match (rep_get(rep, "id"@), rep_get(rep, "name"@), rep_get(rep, "input"@)) {
                (Some(JsonRep::Str(id)), Some(JsonRep::Str(name)), Some(input)) => Some(
                    BlockRep::ToolUse { id, name, input },
                ),
                _ => None,
            }
        } else {
            None
        },
        _ => None,
    }
}

/// Decodes one vendor response content block.
pub fn anthropic_block_from_json(v: &JsonValue) -> (r: Option<ContentBlock>)
    ensures
        match r {
            Some(b) => spec_anthropic_block_from(v@) == Some(b@),
            None => spec_anthropic_block_from(v@) is None,
        },
{
    let tag = match v.obj_get("type") {
        Some(t) => match t.as_str() {
            Some(s) => s.clone(),
            None => {
                return None;
            },
        },
        None => {
            return None;
        },
    };
    if tag == String::from_str("text") {
        match v.obj_get("text") {
            Some(t) => match t.as_str() {
                Some(s) => Some(ContentBlock::Text { text: s.clone() }),
                None => None,
            },
            None => None,
        }
    } else if tag == String::from_str("tool_use") {
        let id = match v.obj_get("id") {
            Some(m) => match m.as_str() {
                Some(s) => s.clone(),
                None => {
                    return None;
                },
            },
            None => {
                return None;
            },
        };
        let name = match v.obj_get("name") {
            Some(m) => match m.as_str() {
                Some(s) => s.clone(),
                None => {
                    return None;
                },
            },
            None => {
                return None;
            },
        };
        match v.obj_get("input") {
            Some(input) => Some(ContentBlock::ToolUse { id, name, input: input.deep_copy() }),
            None => None,
        }
    } else {
        None
    }
}

/// Decodes every block of a vendor response content array.
pub fn anthropic_blocks_from(items: &Vec<JsonValue>) -> (r: Option<Vec<ContentBlock>>)
    ensures
        match r {
            Some(out) => crate::wire::parse_all(
                arr_view(items@),
                |x: JsonRep| spec_anthropic_block_from(x),
            ) == Some(blocks_view(out@)),
            None => crate::wire::parse_all(
                arr_view(items@),
                |x: JsonRep| spec_anthropic_block_from(x),
            ) is None,
        },
{
    let ghost irep = arr_view(items@);
    let ghost f = |x: JsonRep| spec_anthropic_block_from(x);
    let mut out: Vec<ContentBlock> = Vec::new();
    let mut i: usize = 0;
    proof {
        lemma_arr_view_len(items@);
        assert(irep.take(0) =~= Seq::<JsonRep>::empty());
    }
    while i < items.len()
        invariant
            i <= items.len(),
            irep == arr_view(items@),
            irep.len() == items@.len(),
            crate::wire::parse_all(irep.take(i as int), f) == Some(blocks_view(out@)),
            f == (|x: JsonRep| spec_anthropic_block_from(x)),
        decreases items@.len() - i,
    {
        proof {
            lemma_arr_view_index(items@, i as int);
        }
        match anthropic_block_from_json(&items[i]) {
            Some(b) => {
                proof {
                    assert(irep.take(i as int + 1).drop_last() =~= irep.take(i as int));
                    assert(irep.take(i as int + 1).last() == irep[i as int]);
                    assert(blocks_view(out@.push(b)) =~= blocks_view(out@).push(b@));
                }
                out.push(b);
            },
            None => {
                proof {
                    crate::wire::lemma_parse_all_fail(irep, f, i as int);
                }
                return None;
            },
        }
        i = i + 1;
    }
    proof {
        assert(irep.take(items@.len() as int) =~= irep);
    }
    Some(out)
}

/// The decoded turn of a vendor response tree: its `content` array of
/// blocks and the stop reason its `stop_reason` tag maps to.
pub open spec fn spec_anthropic_response(rep: JsonRep) -> Option<(Seq<BlockRep>, StopReason)> {
    match (rep_get(rep, "content"@), rep_get(rep, "stop_reason"@)) {
        (Some(JsonRep::Arr(items)), Some(JsonRep::Str(tag))) => match crate::wire::parse_all(
            items,
            |x: JsonRep| spec_anthropic_block_from(x),
        ) {
            Some(blocks) => Some((blocks, spec_stop_reason(tag))),
            None => None,
        },
        _ => None,
    }
}

/// Decodes one vendor response into a turn; exactly the trees that
/// [`spec_anthropic_response`] accepts decode successfully, anything else
/// is an internal error.
pub fn parse_anthropic_response(v: &JsonValue) -> (r: Result<LLMResponse, Error>)
    ensures
        match r {
            Ok(resp) => spec_anthropic_response(v@) == Some(
                (blocks_view(resp.content@), resp.stop_reason),
            ),
            Err(e) => spec_anthropic_response(v@) is None && e is InternalError,
        },
{
    let content = match v.obj_get("content") {
        Some(m) => match m {
            JsonValue::Arr(items) => match anthropic_blocks_from(items) {
                Some(blocks) => blocks,
                None => {
                    return Err(
                        Error::InternalError(
                            String::from_str("Failed to parse Anthropic response"),
                        ),
                    );
                },
            },
            _ => {
                return Err(
                    Error::InternalError(String::from_str("Failed to parse Anthropic response")),
                );
            },
        },
        None => {
            return Err(
                Error::InternalError(String::from_str("Failed to parse Anthropic response")),
            );
        },
    };
    let tag = match v.obj_get("stop_reason") {
        Some(m) => match m.as_str() {
            Some(s) => s.clone(),
            None => {
                return Err(
                    Error::InternalError(String::from_str("Failed to parse Anthropic response")),
                );
            },
        },
        None => {
            return Err(
                Error::InternalError(String::from_str("Failed to parse Anthropic response")),
            );
        },
    };
    let stop_reason = stop_reason_from_tag(tag.as_str());
    Ok(LLMResponse { content, stop_reason })
}

/// One function call the vendor's response requested: the tool name, the
/// arguments still as a JSON-encoded string, and the correlation id.
pub struct FunctionCall {
    pub name: String,
    pub arguments_str: String,
    pub call_id: String,
}

/// The model of a [`FunctionCall`].
#[verifier::ext_equal]
pub struct FunctionCallRep {
    pub name: Seq<char>,
    pub arguments_str: Seq<char>,
    pub call_id: Seq<char>,
}

impl View for FunctionCall {
    type V = FunctionCallRep;

    open spec fn view(&self) -> FunctionCallRep {
        FunctionCallRep {
            name: self.name@,
            arguments_str: self.arguments_str@,
            call_id: self.call_id@,
        }
    }
}

/// The models of a function call list.
pub open spec fn calls_view(s: Seq<FunctionCall>) -> Seq<FunctionCallRep> {
    s.map_values(|c: FunctionCall| c@)
}

/// The function call one output item carries: its `type` tag must be
/// `function_call` and `name`, `arguments` and `call_id` must all be
/// strings; any other item carries none.
pub open spec fn spec_function_call_from(rep: JsonRep) -> Option<FunctionCallRep> {
    if crate::server::rep_get_str(rep, "type"@) == Some("function_call"@) {
        match (
            crate::server::rep_get_str(rep, "name"@),
            crate::server::rep_get_str(rep, "arguments"@),
            crate::server::rep_get_str(rep, "call_id"@),
        ) {
            (Some(n), Some(a), Some(c)) => Some(
                FunctionCallRep { name: n, arguments_str: a, call_id: c },
            ),
            _ => None,
        }
    } else {
        None
    }
}

/// Every function call the response output carries, in order; items that
/// carry none are skipped silently.
pub open spec fn function_calls_of(items: Seq<JsonRep>) -> Seq<FunctionCallRep>
    decreases items.len(),
{
    if items.len() == 0 {
        Seq::empty()
    } else {
        match spec_function_call_from(items.last()) {
            Some(c) => function_calls_of(items.drop_last()).push(c),
            None => function_calls_of(items.drop_last()),
        }
    }
}

/// Collects the function calls of a response output, in order, skipping
/// every item that carries none.
pub fn extract_function_calls(output: &Vec<JsonValue>) -> (r: Vec<FunctionCall>)
    ensures
        calls_view(r@) == function_calls_of(arr_view(output@)),
{
    let ghost irep = arr_view(output@);
    let mut out: Vec<FunctionCall> = Vec::new();
    let mut i: usize = 0;
    proof {
        lemma_arr_view_len(output@);
        assert(irep.take(0) =~= Seq::<JsonRep>::empty());
        assert(calls_view(out@) =~= function_calls_of(irep.take(0)));
    }
    while i < output.len()
        invariant
            i <= output.len(),
            irep == arr_view(output@),
            irep.len() == output@.len(),
            calls_view(out@) == function_calls_of(irep.take(i as int)),
        decreases output@.len() - i,
    {
        proof {
            lemma_arr_view_index(output@, i as int);
            assert(irep.take(i as int + 1).drop_last() =~= irep.take(i as int));
            assert(irep.take(i as int + 1).last() == irep[i as int]);
        }
        let item = &output[i];
        let tag = match item.obj_get("type") {
            Some(t) => match t.as_str() {
                Some(s) => Some(s.clone()),
                None => None,
            },
            None => None,
        };
        let is_call = match &tag {
            Some(t) => *t == String::from_str("function_call"),
            None => false,
        };
        if is_call {
            let name = match item.obj_get("name") {
                Some(m) => match m.as_str() {
                    Some(s) => Some(s.clone()),
                    None => None,
                },
                None => None,
            };
            let arguments_str = match item.obj_get("arguments") {
                Some(m) => match m.as_str() {
                    Some(s) => Some(s.clone()),
                    None => None,
                },
                None => None,
            };
            let call_id = match item.obj_get("call_id") {
                Some(m) => match m.as_str() {
                    Some(s) => Some(s.clone()),
                    None => None,
                },
                None => None,
            };
            match (name, arguments_str, call_id) {
                (Some(n), Some(a), Some(c)) => {
                    out.push(FunctionCall { name: n, arguments_str: a, call_id: c });
                    proof {
                        assert(calls_view(out@) =~= function_calls_of(irep.take(i as int)).push(
                            out@.last()@,
                        ));
                    }
                },
                _ => {},
            }
        }
        i = i + 1;
    }
    proof {
        assert(irep.take(output@.len() as int) =~= irep);
    }
    out
}

/// How one output item extends the accumulated answer text: a `text`
/// item appends its text verbatim; a `message` item appends each of its
/// `output_text` entries, each separated from a non-empty accumulator by
/// a line break; any other item leaves the text alone.
pub open spec fn spec_message_texts(cs: Seq<JsonRep>, j: int, acc: Seq<char>) -> Seq<char>
    decreases cs.len() - j,
{
    if j < 0 || j >= cs.len() {
        acc
    } else {
        let acc2 = if crate::server::rep_get_str(cs[j], "type"@) == Some("output_text"@) {
            match rep_get(cs[j], "text"@) {
                Some(JsonRep::Str(t)) => if acc.len() > 0 {
                    acc + "\n"@ + t
                } else {
                    acc + t
                },
                _ => acc,
            }
        } else {
            acc
        };
        spec_message_texts(cs, j + 1, acc2)
    }
}

/// The step one output item contributes to the accumulated text.
pub open spec fn spec_text_step(acc: Seq<char>, item: JsonRep) -> Seq<char> {
    if crate::server::rep_get_str(item, "type"@) == Some("text"@) {
        match rep_get(item, "text"@) {
            Some(JsonRep::Str(t)) => acc + t,
            _ => acc,
        }
    } else if crate::server::rep_get_str(item, "type"@) == Some("message"@) {
        match rep_get(item, "content"@) {
            Some(JsonRep::Arr(cs)) => spec_message_texts(cs, 0, acc),
            _ => acc,
        }
    } else {
        acc
    }
}

/// The answer text of a response output, from item `i` on, starting from
/// the accumulated text `acc`.
pub open spec fn spec_extract_text(items: Seq<JsonRep>, i: int, acc: Seq<char>) -> Seq<char>
    decreases items.len() - i,
{
    if i < 0 || i >= items.len() {
        acc
    } else {
        spec_extract_text(items, i + 1, spec_text_step(acc, items[i]))
    }
}

/// Collects the answer text of a response output: `text` items verbatim,
/// the `output_text` entries of `message` items separated by line breaks.
pub fn extract_text(output: &Vec<JsonValue>) -> (r: String)
    ensures
        r@ == spec_extract_text(arr_view(output@), 0, Seq::empty()),
{
    let ghost irep = arr_view(output@);
    let mut text = String::new();
    let mut i: usize = 0;
    proof {
        lemma_arr_view_len(output@);
    }
    while i < output.len()
        invariant
            i <= output.len(),
            irep == arr_view(output@),
            irep.len() == output@.len(),
            spec_extract_text(irep, i as int, text@) == spec_extract_text(
                irep,
                0,
                Seq::empty(),
            ),
        decreases output@.len() - i,
    {
        proof {
            lemma_arr_view_index(output@, i as int);
        }
        let ghost before = text@;
        let item = &output[i];
        let tag = match item.obj_get("type") {
            Some(t) => match t.as_str() {
                Some(s) => Some(s.clone()),
                None => None,
            },
            None => None,
        };
        let is_text = match &tag {
            Some(t) => *t == String::from_str("text"),
            None => false,
        };
        let is_message = match &tag {
            Some(t) => *t == String::from_str("message"),
            None => false,
        };
        if is_text {
            match item.obj_get("text") {
                Some(t) => match t.as_str() {
                    Some(piece) => {
                        text.append(piece.as_str());
                    },
                    None => {},
                },
                None => {},
            }
        } else if is_message {
            match item.obj_get("content") {
                Some(m) => match m {
                    JsonValue::Arr(cs) => {
                        let ghost csrep = arr_view(cs@);
                        let ghost entry = text@;
                        let mut j: usize = 0;
                        proof {
                            lemma_arr_view_len(cs@);
                        }
                        while j < cs.len()
                            invariant
                                j <= cs.len(),
                                csrep == arr_view(cs@),
                                csrep.len() == cs@.len(),
                                spec_message_texts(csrep, j as int, text@) == spec_message_texts(
                                    csrep,
                                    0,
                                    entry,
                                ),
                            decreases cs@.len() - j,
                        {
                            proof {
                                lemma_arr_view_index(cs@, j as int);
                            }
                            let centry = &cs[j];
                            let ctag = match centry.obj_get("type") {
                                Some(t) => match t.as_str() {
                                    Some(cs_) => Some(cs_.clone()),
                                    None => None,
                                },
                                None => None,
                            };
                            let is_output_text = match &ctag {
                                Some(t) => *t == String::from_str("output_text"),
                                None => false,
                            };
                            if is_output_text {
                                match centry.obj_get("text") {
                                    Some(t) => match t.as_str() {
                                        Some(piece) => {
                                            if text.unicode_len() > 0 {
                                                text.append("\n");
                                            }
                                            text.append(piece.as_str());
                                        },
                                        None => {},
                                    },
                                    None => {},
                                }
                            }
                            j = j + 1;
                        }
                        proof {
                            assert(spec_message_texts(csrep, cs@.len() as int, text@) == text@);
                        }
                    },
                    _ => {},
                },
                None => {},
            }
        }
        proof {
            assert(text@ == spec_text_step(before, irep[i as int]));
        }
        i = i + 1;
    }
    proof {
        assert(spec_extract_text(irep, output@.len() as int, text@) == text@);
    }
    text
}

/// What the self-looping adapter does next after one vendor round: run
/// the requested function calls, or finish with the answer text — the
/// placeholder line when the response carried no text at all.
pub enum OpenAIStep {
    CallTools(Vec<FunctionCall>),
    Finish(String),
}

/// Decides the next move after one vendor round: any requested function
/// calls are executed; otherwise the accumulated answer text — or the
/// placeholder when there is none — ends the loop.
pub fn openai_step(output: &Vec<JsonValue>) -> (r: OpenAIStep)
    ensures
        function_calls_of(arr_view(output@)).len() > 0 ==> (r matches OpenAIStep::CallTools(calls)
            && calls_view(calls@) == function_calls_of(arr_view(output@))),
        function_calls_of(arr_view(output@)).len() == 0 ==> (r matches OpenAIStep::Finish(text) && (
        spec_extract_text(arr_view(output@), 0, Seq::empty()).len() > 0 ==> text@
            == spec_extract_text(arr_view(output@), 0, Seq::empty())) && (spec_extract_text(
            arr_view(output@),
            0,
            Seq::empty(),
        ).len() == 0 ==> text@ == "No response generated."@)),
{
    let calls = extract_function_calls(output);
    if calls.len() > 0 {
        OpenAIStep::CallTools(calls)
    } else {
        let text = extract_text(output);
        if text.unicode_len() > 0 {
            OpenAIStep::Finish(text)
        } else {
            OpenAIStep::Finish(String::from_str("No response generated."))
        }
    }
}

/// The lines a batch of tool results appends to the conversation input:
/// one line per result, naming the call id and its text.
pub open spec fn results_block(entries: Seq<(Seq<char>, Seq<char>)>) -> Seq<char>
    decreases entries.len(),
{
    if entries.len() == 0 {
        Seq::empty()
    } else {
        results_block(entries.drop_last()) + "- Call ID "@ + entries.last().0 + ": "@
            + entries.last().1 + "\n"@
    }
}

/// Appends a batch of `(call id, result text)` pairs to the conversation
/// input, under the results heading, one line per result.
pub fn append_tool_results(input: String, results: &Vec<(String, String)>) -> (r: String)
    ensures
        r@ == input@ + "\n\nTool execution results:\n"@ + results_block(
            crate::config::string_pairs_view(results@),
        ),
{
    let ghost rrep = crate::config::string_pairs_view(results@);
    let mut out = input;
    out.append("\n\nTool execution results:\n");
    let mut i: usize = 0;
    proof {
        assert(rrep.take(0) =~= Seq::<(Seq<char>, Seq<char>)>::empty());
        assert(out@ =~= input@ + "\n\nTool execution results:\n"@ + results_block(rrep.take(0)));
    }
    while i < results.len()
        invariant
            i <= results.len(),
            rrep == crate::config::string_pairs_view(results@),
            rrep.len() == results@.len(),
            out@ == input@ + "\n\nTool execution results:\n"@ + results_block(rrep.take(i as int)),
        decreases results@.len() - i,
    {
        proof {
            assert(rrep.take(i as int + 1).drop_last() =~= rrep.take(i as int));
            assert(rrep.take(i as int + 1).last() == rrep[i as int]);
        }
        out.append("- Call ID ");
        out.append(results[i].0.as_str());
        out.append(": ");
        out.append(results[i].1.as_str());
        out.append("\n");
        proof {
            assert(out@ =~= input@ + "\n\nTool execution results:\n"@ + results_block(
                rrep.take(i as int + 1),
            ));
        }
        i = i + 1;
    }
    proof {
        assert(rrep.take(results@.len() as int) =~= rrep);
    }
    out
}

/// The plain text parts of one message: its text blocks only.
pub open spec fn message_text_parts(content: Seq<BlockRep>) -> Seq<Seq<char>>
    decreases content.len(),
{
    if content.len() == 0 {
        Seq::empty()
    } else {
        match content.last() {
            BlockRep::Text { text } => message_text_parts(content.drop_last()).push(text),
            _ => message_text_parts(content.drop_last()),
        }
    }
}

/// Joins one message's text blocks with line breaks.
fn text_only_content(content: &Vec<ContentBlock>) -> (r: String)
    ensures
        r@ == join_with(message_text_parts(blocks_view(content@)), "\n"@),
{
    let ghost brep = blocks_view(content@);
    let mut out = String::new();
    let mut first = true;
    let mut i: usize = 0;
    proof {
        assert(brep.take(0) =~= Seq::<BlockRep>::empty());
    }
    while i < content.len()
        invariant
            i <= content.len(),
            brep == blocks_view(content@),
            brep.len() == content@.len(),
            out@ == join_with(message_text_parts(brep.take(i as int)), "\n"@),
            first == (message_text_parts(brep.take(i as int)).len() == 0),
        decreases content@.len() - i,
    {
        proof {
            assert(brep.take(i as int + 1).drop_last() =~= brep.take(i as int));
            assert(brep.take(i as int + 1).last() == brep[i as int]);
        }
        match &content[i] {
            ContentBlock::Text { text } => {
                if !first {
                    out.append("\n");
                }
                out.append(text.as_str());
                first = false;
                proof {
                    let parts = message_text_parts(brep.take(i as int));
                    assert(message_text_parts(brep.take(i as int + 1)) == parts.push(text@));
                    lemma_join_push(parts, text@, "\n"@);
                    assert(out@ =~= join_with(
                        message_text_parts(brep.take(i as int + 1)),
                        "\n"@,
                    ));
                }
            },
            _ => {},
        }
        i = i + 1;
    }
    proof {
        assert(brep.take(content@.len() as int) =~= brep);
    }
    out
}

/// The single input string a conversation flattens to: every message's
/// text blocks joined with line breaks, the messages themselves joined
/// with blank lines.
pub open spec fn spec_flatten_input(msgs: Seq<MessageRep>) -> Seq<char> {
    join_with(
        msgs.map_values(|m: MessageRep| join_with(message_text_parts(m.content), "\n"@)),
        "\n\n"@,
    )
}

/// Flattens a conversation into the vendor's single input string.
pub fn flatten_input(messages: &Vec<Message>) -> (r: String)
    ensures
        r@ == spec_flatten_input(msgs_view(messages@)),
{
    let ghost mrep = msgs_view(messages@);
    let ghost per = |m: MessageRep| join_with(message_text_parts(m.content), "\n"@);
    let mut out = String::new();
    let mut i: usize = 0;
    proof {
        assert(mrep.take(0).map_values(per) =~= Seq::<Seq<char>>::empty());
    }
    while i < messages.len()
        invariant
            i <= messages.len(),
            mrep == msgs_view(messages@),
            mrep.len() == messages@.len(),
            out@ == join_with(mrep.take(i as int).map_values(per), "\n\n"@),
            per == (|m: MessageRep| join_with(message_text_parts(m.content), "\n"@)),
        decreases messages@.len() - i,
    {
        if i > 0 {
            out.append("\n\n");
        }
        let piece = text_only_content(&messages[i].content);
        out.append(piece.as_str());
        proof {
            let parts = mrep.take(i as int).map_values(per);
            assert(parts.len() == i as int);
            assert(mrep.take(i as int + 1).map_values(per) =~= parts.push(per(mrep[i as int])));
            assert(piece@ == per(mrep[i as int]));
            lemma_join_push(parts, piece@, "\n\n"@);
            assert(out@ =~= join_with(mrep.take(i as int + 1).map_values(per), "\n\n"@));
        }
        i = i + 1;
    }
    proof {
        assert(mrep.take(messages@.len() as int) =~= mrep);
    }
    out
}

/// Whether `p` occurs inside `s` as a contiguous run.
pub open spec fn has_substring(s: Seq<char>, p: Seq<char>) -> bool {
    exists|k: int| 0 <= k <= s.len() - p.len() && #[trigger] s.subrange(k, k + p.len()) == p
}

/// Searches a string for a substring.
pub fn contains_sub(s: &str, pat: &str) -> (b: bool)
    ensures
        b == has_substring(s@, pat@),
{
    let n = s.unicode_len();
    let m = pat.unicode_len();
    if m > n {
        return false;
    }
    let mut k: usize = 0;
    while k <= n - m
        invariant
            n == s@.len(),
            m == pat@.len(),
            m <= n,
            k <= n - m + 1,
            forall|q: int| 0 <= q < k as int ==> #[trigger] s@.subrange(q, q + m as int) != pat@,
        decreases n - m - k + 1,
    {
        let mut j: usize = 0;
        let mut matches_here = true;
        while j < m && matches_here
            invariant
                n == s@.len(),
                m == pat@.len(),
                k + m <= n,
                j <= m,
                matches_here ==> forall|q: int| 0 <= q < j as int ==> s@[k as int + q] == pat@[q],
                !matches_here ==> j < m && s@[k as int + j as int] != pat@[j as int],
            decreases m - j + if matches_here { 1int } else { 0int },
        {
            if s.get_char(k + j) != pat.get_char(j) {
                matches_here = false;
            } else {
                j = j + 1;
            }
        }
        if matches_here {
            proof {
                assert(s@.subrange(k as int, k as int + m as int) =~= pat@);
            }
            return true;
        }
        proof {
            assert(s@.subrange(k as int, k as int + m as int)[j as int] == s@[k as int + j as int]);
            assert(s@.subrange(k as int, k as int + m as int) != pat@);
        }
        k = k + 1;
    }
    proof {
        assert forall|q: int| 0 <= q <= s@.len() - pat@.len() implies #[trigger] s@.subrange(
            q,
            q + pat@.len() as int,
        ) != pat@ by {}
    }
    false
}

/// Relies on `str::to_lowercase`: the lowered form of a string, a
/// function of its characters alone.
pub uninterp spec fn lower_of(s: Seq<char>) -> Seq<char>;

/// Relies on `str::to_lowercase`: lowers a string.
#[verifier::external_body]
pub fn lowercase(s: &str) -> (r: String)
    ensures
        r@ == lower_of(s@),
{
    s.to_lowercase()
}

/// A tool's parameter schema in the vendor's request schema.
pub struct OpenAIToolParameters {
    pub type_field: String,
    pub properties: Vec<(String, JsonValue)>,
    pub required: Option<Vec<String>>,
}

/// The model of an [`OpenAIToolParameters`].
#[verifier::ext_equal]
pub struct OpenAIToolParametersRep {
    pub type_field: Seq<char>,
    pub properties: Seq<(Seq<char>, JsonRep)>,
    pub required: Option<Seq<Seq<char>>>,
}

impl View for OpenAIToolParameters {
    type V = OpenAIToolParametersRep;

    open spec fn view(&self) -> OpenAIToolParametersRep {
        OpenAIToolParametersRep {
            type_field: self.type_field@,
            properties: obj_view(self.properties@),
            required: match self.required {
                Some(rs) => Some(strings_view(rs@)),
                None => None,
            },
        }
    }
}

/// A tool definition in the vendor's request schema.
pub struct OpenAITool {
    pub type_field: String,
    pub name: String,
    pub description: Option<String>,
    pub parameters: Option<OpenAIToolParameters>,
}

/// The model of an [`OpenAITool`].
#[verifier::ext_equal]
pub struct OpenAIToolRep {
    pub type_field: Seq<char>,
    pub name: Seq<char>,
    pub description: Option<Seq<char>>,
    pub parameters: Option<OpenAIToolParametersRep>,
}

impl View for OpenAITool {
    type V = OpenAIToolRep;

    open spec fn view(&self) -> OpenAIToolRep {
        OpenAIToolRep {
            type_field: self.type_field@,
            name: self.name@,
            description: opt_str_view(self.description),
            parameters: match self.parameters {
                Some(ps) => Some(ps@),
                None => None,
            },
        }
    }
}

/// A string-typed schema property carrying a description.
pub open spec fn spec_string_prop(desc: Seq<char>) -> JsonRep {
    JsonRep::Obj(
        seq![("type"@, JsonRep::Str("string"@)), ("description"@, JsonRep::Str(desc))],
    )
}

/// Builds a string-typed schema property.
fn string_prop(desc: &str) -> (v: JsonValue)
    ensures
        v@ == spec_string_prop(desc@),
{
    let mut fields: Vec<(String, JsonValue)> = Vec::new();
    fields.push((String::from_str("type"), JsonValue::Str(String::from_str("string"))));
    fields.push((String::from_str("description"), JsonValue::Str(String::from_str(desc))));
    let v = JsonValue::Obj(fields);
    proof {
        let target = spec_string_prop(desc@)->Obj_0;
        crate::json::lemma_obj_view_len(v->Obj_0@);
        assert forall|j: int| 0 <= j < v->Obj_0@.len() implies obj_view(v->Obj_0@)[j]
            == target[j] by {
            crate::json::lemma_obj_view_index(v->Obj_0@, j);
        }
        assert(obj_view(v->Obj_0@) =~= target);
    }
    v
}

/// An object-typed schema property carrying a description.
pub open spec fn spec_object_prop(desc: Seq<char>) -> JsonRep {
    JsonRep::Obj(
        seq![("type"@, JsonRep::Str("object"@)), ("description"@, JsonRep::Str(desc))],
    )
}

/// Builds an object-typed schema property.
fn object_prop(desc: &str) -> (v: JsonValue)
    ensures
        v@ == spec_object_prop(desc@),
{
    let mut fields: Vec<(String, JsonValue)> = Vec::new();
    fields.push((String::from_str("type"), JsonValue::Str(String::from_str("object"))));
    fields.push((String::from_str("description"), JsonValue::Str(String::from_str(desc))));
    let v = JsonValue::Obj(fields);
    proof {
        let target = spec_object_prop(desc@)->Obj_0;
        crate::json::lemma_obj_view_len(v->Obj_0@);
        assert forall|j: int| 0 <= j < v->Obj_0@.len() implies obj_view(v->Obj_0@)[j]
            == target[j] by {
            crate::json::lemma_obj_view_index(v->Obj_0@, j);
        }
        assert(obj_view(v->Obj_0@) =~= target);
    }
    v
}

/// The parameters guessed for a tool that ships no schema, from its name
/// and its lowered description: common browsing parameters keyed by
/// telltale words, and one generic object parameter when nothing fits.
pub open spec fn spec_inferred_params(name: Seq<char>, desc_lower: Seq<char>) -> OpenAIToolParametersRep {
    let want_url = has_substring(name, "navigate"@) || has_substring(desc_lower, "url"@);
    let want_text = has_substring(desc_lower, "text"@) || has_substring(desc_lower, "click"@);
    let want_key = has_substring(desc_lower, "key"@) || has_substring(desc_lower, "press"@);
    let want_selector = has_substring(desc_lower, "selector"@) || has_substring(
        desc_lower,
        "element"@,
    );
    let p0 = Seq::<(Seq<char>, JsonRep)>::empty();
    let p1 = if want_url {
        p0.push(("url"@, spec_string_prop("The URL to navigate to"@)))
    } else {
        p0
    };
    let p2 = if want_text {
        p1.push(("text"@, spec_string_prop("The text to search for or interact with"@)))
    } else {
        p1
    };
    let p3 = if want_key {
        p2.push(("key"@, spec_string_prop("The key to press"@)))
    } else {
        p2
    };
    let p4 = if want_selector {
        p3.push(("selector"@, spec_string_prop("CSS selector for the element"@)))
    } else {
        p3
    };
    let props = if p4.len() == 0 {
        p4.push(("params"@, spec_object_prop("Parameters for this tool"@)))
    } else {
        p4
    };
    let r0 = Seq::<Seq<char>>::empty();
    let r1 = if want_url {
        r0.push("url"@)
    } else {
        r0
    };
    let r2 = if want_text {
        r1.push("text"@)
    } else {
        r1
    };
    let r3 = if want_key {
        r2.push("key"@)
    } else {
        r2
    };
    let r4 = if want_selector {
        r3.push("selector"@)
    } else {
        r3
    };
    OpenAIToolParametersRep {
        type_field: "object"@,
        properties: props,
        required: if r4.len() == 0 {
            None
        } else {
            Some(r4)
        },
    }
}

/// Guesses parameters for a tool that ships no schema.
fn infer_parameters(name: &str, desc_lower: &str) -> (r: OpenAIToolParameters)
    ensures
        r@ == spec_inferred_params(name@, desc_lower@),
{
    let want_url = contains_sub(name, "navigate") || contains_sub(desc_lower, "url");
    let want_text = contains_sub(desc_lower, "text") || contains_sub(desc_lower, "click");
    let want_key = contains_sub(desc_lower, "key") || contains_sub(desc_lower, "press");
    let want_selector = contains_sub(desc_lower, "selector") || contains_sub(
        desc_lower,
        "element",
    );
    let mut properties: Vec<(String, JsonValue)> = Vec::new();
    let mut required: Vec<String> = Vec::new();
    if want_url {
        properties.push((String::from_str("url"), string_prop("The URL to navigate to")));
        required.push(String::from_str("url"));
    }
    if want_text {
        properties.push((
            String::from_str("text"),
            string_prop("The text to search for or interact with"),
        ));
        required.push(String::from_str("text"));
    }
    if want_key {
        properties.push((String::from_str("key"), string_prop("The key to press")));
        required.push(String::from_str("key"));
    }
    if want_selector {
        properties.push((
            String::from_str("selector"),
            string_prop("CSS selector for the element"),
        ));
        required.push(String::from_str("selector"));
    }
    if properties.len() == 0 {
        properties.push((
            String::from_str("params"),
            object_prop("Parameters for this tool"),
        ));
    }
    let required_out = if required.len() == 0 {
        None
    } else {
        Some(required)
    };
    let r = OpenAIToolParameters {
        type_field: String::from_str("object"),
        properties,
        required: required_out,
    };
    proof {
        let target = spec_inferred_params(name@, desc_lower@);
        crate::json::lemma_obj_view_len(r.properties@);
        assert forall|j: int| 0 <= j < r.properties@.len() implies obj_view(r.properties@)[j]
            == target.properties[j] by {
            crate::json::lemma_obj_view_index(r.properties@, j);
        }
        assert(obj_view(r.properties@) =~= target.properties);
        match &r.required {
            Some(rs) => {
                assert(strings_view(rs@) =~= target.required->0);
            },
            None => {},
        }
        assert(r@ =~= target);
    }
    r
}

/// The vendor definition one tool descriptor translates to: its shipped
/// schema when it has one, the guessed parameters otherwise.
pub open spec fn spec_openai_tool(t: ToolRep) -> OpenAIToolRep {
    OpenAIToolRep {
        type_field: "function"@,
        name: t.name,
        description: t.description,
        parameters: Some(
            match t.input_schema {
                Some(sch) => OpenAIToolParametersRep {
                    type_field: sch.schema_type,
                    properties: sch.properties,
                    required: sch.required,
                },
                None => spec_inferred_params(
                    t.name,
                    lower_of(
                        match t.description {
                            Some(d) => d,
                            None => Seq::empty(),
                        },
                    ),
                ),
            },
        ),
    }
}

/// The models of a vendor tool list.
pub open spec fn openai_tools_view(s: Seq<OpenAITool>) -> Seq<OpenAIToolRep> {
    s.map_values(|t: OpenAITool| t@)
}

/// Translates the tool catalog into the vendor's tool-definition schema,
/// one to one and in order, guessing parameters for tools without one.
pub fn openai_tools(tools: &Vec<Tool>) -> (r: Vec<OpenAITool>)
    ensures
        openai_tools_view(r@) == crate::protocol::tools_view(tools@).map_values(
            |t: ToolRep| spec_openai_tool(t),
        ),
{
    let ghost trep = crate::protocol::tools_view(tools@);
    let mut out: Vec<OpenAITool> = Vec::new();
    let mut i: usize = 0;
    while i < tools.len()
        invariant
            i <= tools.len(),
            trep == crate::protocol::tools_view(tools@),
            trep.len() == tools@.len(),
            out@.len() == i as int,
            forall|j: int| 0 <= j < i as int ==> (#[trigger] out@[j])@ == spec_openai_tool(trep[j]),
        decreases tools@.len() - i,
    {
        let t = &tools[i];
        let parameters = match &t.input_schema {
            Some(sch) => OpenAIToolParameters {
                type_field: sch.schema_type.clone(),
                properties: clone_members(&sch.properties),
                required: match &sch.required {
                    Some(rs) => Some(clone_strings(rs)),
                    None => None,
                },
            },
            None => {
                let desc = match &t.description {
                    Some(d) => d.clone(),
                    None => String::new(),
                };
                let lowered = lowercase(desc.as_str());
                infer_parameters(t.name.as_str(), lowered.as_str())
            },
        };
        out.push(
            OpenAITool {
                type_field: String::from_str("function"),
                name: t.name.clone(),
                description: match &t.description {
                    Some(d) => Some(d.clone()),
                    None => None,
                },
                parameters: Some(parameters),
            },
        );
        i = i + 1;
    }
    proof {
        assert(openai_tools_view(out@) =~= trep.map_values(|t: ToolRep| spec_openai_tool(t)));
    }
    out
}

} // verus!

//! Protocol data model: tool, resource and prompt descriptors,
//! conversation messages and content blocks, and capability flags.
//!
//! Every type carries a mathematical model over `Seq` and `int`; snapshot
//! copies preserve the model exactly, which is what the cache and
//! conversation contracts are stated over.

use vstd::prelude::*;
use crate::json::{JsonValue, JsonRep, obj_view, lemma_obj_view_len, lemma_obj_view_index};

verus! {

/// Who speaks a message.
#[derive(Debug, Clone, Copy, PartialEq, Eq, Structural)]
pub enum Role {
    User,
    Assistant,
}

/// A piece of content inside a tool result.
pub enum ResultContent {
    Text { text: String },
    Image { data: String, mime_type: String },
}

/// The model of a [`ResultContent`].
#[verifier::ext_equal]
pub enum ResultContentRep {
    Text { text: Seq<char> },
    Image { data: Seq<char>, mime_type: Seq<char> },
}

impl View for ResultContent {
    type V = ResultContentRep;

    open spec fn view(&self) -> ResultContentRep {
        match self {
            ResultContent::Text { text } => ResultContentRep::Text { text: text@ },
            ResultContent::Image { data, mime_type } => ResultContentRep::Image {
                data: data@,
                mime_type: mime_type@,
            },
        }
    }
}

impl Clone for ResultContent {
    /// Copies preserve the model.
    fn clone(&self) -> (r: Self)
        ensures
            r@ == self@,
    {
        match self {
            ResultContent::Text { text } => ResultContent::Text { text: text.clone() },
            ResultContent::Image { data, mime_type } => ResultContent::Image {
                data: data.clone(),
                mime_type: mime_type.clone(),
            },
        }
    }
}

/// Where an image comes from.
pub enum ImageSource {
    Base64 { data: String, media_type: String },
    Url { url: String },
}

/// The model of an [`ImageSource`].
#[verifier::ext_equal]
pub enum ImageSourceRep {
    Base64 { data: Seq<char>, media_type: Seq<char> },
    Url { url: Seq<char> },
}

impl View for ImageSource {
    type V = ImageSourceRep;

    open spec fn view(&self) -> ImageSourceRep {
        match self {
            ImageSource::Base64 { data, media_type } => ImageSourceRep::Base64 {
                data: data@,
                media_type: media_type@,
            },
            ImageSource::Url { url } => ImageSourceRep::Url { url: url@ },
        }
    }
}

impl Clone for ImageSource {
    /// Copies preserve the model.
    fn clone(&self) -> (r: Self)
        ensures
            r@ == self@,
    {
        match self {
            ImageSource::Base64 { data, media_type } => ImageSource::Base64 {
                data: data.clone(),
                media_type: media_type.clone(),
            },
            ImageSource::Url { url } => ImageSource::Url { url: url.clone() },
        }
    }
}

/// The models of a sequence of result contents.
pub open spec fn contents_view(s: Seq<ResultContent>) -> Seq<ResultContentRep> {
    s.map_values(|c: ResultContent| c@)
}

/// A snapshot copy of result contents, model preserved.
pub fn clone_contents(v: &Vec<ResultContent>) -> (r: Vec<ResultContent>)
    ensures
        contents_view(r@) == contents_view(v@),
{
    let mut out: Vec<ResultContent> = Vec::new();
    let mut i: usize = 0;
    while i < v.len()
        invariant
            i <= v.len(),
            out@.len() == i as int,
            forall|j: int| 0 <= j < i as int ==> out@[j]@ == #[trigger] v@[j]@,
        decreases v@.len() - i,
    {
        out.push(v[i].clone());
        i = i + 1;
    }
    proof {
        assert(contents_view(out@) =~= contents_view(v@));
    }
    out
}

/// One block of a conversation message: plain text, a tool invocation
/// request, the correlated result of an earlier request, or an image.
pub enum ContentBlock {
    Text { text: String },
    ToolUse { id: String, name: String, input: JsonValue },
    ToolResult { tool_use_id: String, content: Vec<ResultContent>, is_error: Option<bool> },
    Image { source: ImageSource },
}

/// The model of a [`ContentBlock`].
#[verifier::ext_equal]
pub enum BlockRep {
    Text { text: Seq<char> },
    ToolUse { id: Seq<char>, name: Seq<char>, input: JsonRep },
    ToolResult { tool_use_id: Seq<char>, content: Seq<ResultContentRep>, is_error: Option<bool> },
    Image { source: ImageSourceRep },
}

impl View for ContentBlock {
    type V = BlockRep;

    open spec fn view(&self) -> BlockRep {
        match self {
            ContentBlock::Text { text } => BlockRep::Text { text: text@ },
            ContentBlock::ToolUse { id, name, input } => BlockRep::ToolUse {
                id: id@,
                name: name@,
                input: input@,
            },
            ContentBlock::ToolResult { tool_use_id, content, is_error } => BlockRep::ToolResult {
                tool_use_id: tool_use_id@,
                content: contents_view(content@),
                is_error: *is_error,
            },
            ContentBlock::Image { source } => BlockRep::Image { source: source@ },
        }
    }
}

impl Clone for ContentBlock {
    /// Copies preserve the model.
    fn clone(&self) -> (r: Self)
        ensures
            r@ == self@,
    {
        match self {
            ContentBlock::Text { text } => ContentBlock::Text { text: text.clone() },
            ContentBlock::ToolUse { id, name, input } => ContentBlock::ToolUse {
                id: id.clone(),
                name: name.clone(),
                input: input.deep_copy(),
            },
            ContentBlock::ToolResult { tool_use_id, content, is_error } => ContentBlock::ToolResult {
                tool_use_id: tool_use_id.clone(),
                content: clone_contents(content),
                is_error: *is_error,
            },
            ContentBlock::Image { source } => ContentBlock::Image { source: source.clone() },
        }
    }
}

/// The models of a sequence of content blocks.
pub open spec fn blocks_view(s: Seq<ContentBlock>) -> Seq<BlockRep> {
    s.map_values(|b: ContentBlock| b@)
}

/// A snapshot copy of content blocks, model preserved.
pub fn clone_blocks(v: &Vec<ContentBlock>) -> (r: Vec<ContentBlock>)
    ensures
        blocks_view(r@) == blocks_view(v@),
{
    let mut out: Vec<ContentBlock> = Vec::new();
    let mut i: usize = 0;
    while i < v.len()
        invariant
            i <= v.len(),
            out@.len() == i as int,
            forall|j: int| 0 <= j < i as int ==> out@[j]@ == #[trigger] v@[j]@,
        decreases v@.len() - i,
    {
        out.push(v[i].clone());
        i = i + 1;
    }
    proof {
        assert(blocks_view(out@) =~= blocks_view(v@));
    }
    out
}

/// A conversation message: a role and its ordered content blocks.
pub struct Message {
    pub role: Role,
    pub content: Vec<ContentBlock>,
}

/// The model of a [`Message`].
#[verifier::ext_equal]
pub struct MessageRep {
    pub role: Role,
    pub content: Seq<BlockRep>,
}

impl View for Message {
    type V = MessageRep;

    open spec fn view(&self) -> MessageRep {
        MessageRep { role: self.role, content: blocks_view(self.content@) }
    }
}

impl Clone for Message {
    /// Copies preserve the model.
    fn clone(&self) -> (r: Self)
        ensures
            r@ == self@,
    {
        Message { role: self.role, content: clone_blocks(&self.content) }
    }
}

/// The models of a sequence of messages.
pub open spec fn msgs_view(s: Seq<Message>) -> Seq<MessageRep> {
    s.map_values(|m: Message| m@)
}

/// A snapshot copy of a message sequence, model preserved.
pub fn clone_messages(v: &Vec<Message>) -> (r: Vec<Message>)
    ensures
        msgs_view(r@) == msgs_view(v@),
{
    let mut out: Vec<Message> = Vec::new();
    let mut i: usize = 0;
    while i < v.len()
        invariant
            i <= v.len(),
            out@.len() == i as int,
            forall|j: int| 0 <= j < i as int ==> out@[j]@ == #[trigger] v@[j]@,
        decreases v@.len() - i,
    {
        out.push(v[i].clone());
        i = i + 1;
    }
    proof {
        assert(msgs_view(out@) =~= msgs_view(v@));
    }
    out
}

/// The model of a message holding one text block.
pub open spec fn text_message_rep(role: Role, text: Seq<char>) -> MessageRep {
    MessageRep { role, content: seq![BlockRep::Text { text }] }
}

impl Message {
    /// A user message holding exactly one text block.
    pub fn user(text: &str) -> (r: Message)
        ensures
            r@ == text_message_rep(Role::User, text@),
    {
        let content = vec![ContentBlock::Text { text: String::from_str(text) }];
        let r = Message { role: Role::User, content };
        proof {
            assert(r@.content =~= seq![BlockRep::Text { text: text@ }]);
        }
        r
    }

    /// An assistant message holding exactly one text block.
    pub fn assistant(text: &str) -> (r: Message)
        ensures
            r@ == text_message_rep(Role::Assistant, text@),
    {
        let content = vec![ContentBlock::Text { text: String::from_str(text) }];
        let r = Message { role: Role::Assistant, content };
        proof {
            assert(r@.content =~= seq![BlockRep::Text { text: text@ }]);
        }
        r
    }
}

/// The model of an optional string.
pub open spec fn opt_str_view(o: Option<String>) -> Option<Seq<char>> {
    match o {
        Some(s) => Some(s@),
        None => None,
    }
}

/// A snapshot copy of an optional string, model preserved.
pub fn clone_opt_string(o: &Option<String>) -> (r: Option<String>)
    ensures
        opt_str_view(r) == opt_str_view(*o),
{
    match o {
        Some(s) => Some(s.clone()),
        None => None,
    }
}

/// The models of a sequence of strings.
pub open spec fn strings_view(s: Seq<String>) -> Seq<Seq<char>> {
    s.map_values(|x: String| x@)
}

/// A snapshot copy of a string list, model preserved.
pub fn clone_strings(v: &Vec<String>) -> (r: Vec<String>)
    ensures
        strings_view(r@) == strings_view(v@),
{
    let mut out: Vec<String> = Vec::new();
    let mut i: usize = 0;
    while i < v.len()
        invariant
            i <= v.len(),
            out@.len() == i as int,
            forall|j: int| 0 <= j < i as int ==> out@[j]@ == #[trigger] v@[j]@,
        decreases v@.len() - i,
    {
        out.push(v[i].clone());
        i = i + 1;
    }
    proof {
        assert(strings_view(out@) =~= strings_view(v@));
    }
    out
}

/// A snapshot copy of JSON object members, model preserved.
pub fn clone_members(v: &Vec<(String, JsonValue)>) -> (r: Vec<(String, JsonValue)>)
    ensures
        obj_view(r@) == obj_view(v@),
{
    let mut out: Vec<(String, JsonValue)> = Vec::new();
    let mut i: usize = 0;
    while i < v.len()
        invariant
            i <= v.len(),
            out@.len() == i as int,
            forall|j: int| 0 <= j < i as int ==> out@[j].0@ == #[trigger] v@[j].0@
                && out@[j].1@ == v@[j].1@,
        decreases v@.len() - i,
    {
        let pair = &v[i];
        out.push((pair.0.clone(), pair.1.deep_copy()));
        i = i + 1;
    }
    proof {
        lemma_obj_view_len(out@);
        lemma_obj_view_len(v@);
        assert forall|j: int| 0 <= j < out@.len()
            implies #[trigger] obj_view(out@)[j] == obj_view(v@)[j] by {
            lemma_obj_view_index(out@, j);
            lemma_obj_view_index(v@, j);
        }
        assert(obj_view(out@) =~= obj_view(v@));
    }
    out
}

/// The JSON-schema shape a tool expects as input: a type tag, named
/// properties and the list of required property names.
pub struct ToolInputSchema {
    pub schema_type: String,
    pub properties: Vec<(String, JsonValue)>,
    pub required: Option<Vec<String>>,
}

/// The model of a [`ToolInputSchema`].
#[verifier::ext_equal]
pub struct SchemaRep {
    pub schema_type: Seq<char>,
    pub properties: Seq<(Seq<char>, JsonRep)>,
    pub required: Option<Seq<Seq<char>>>,
}

impl View for ToolInputSchema {
    type V = SchemaRep;

    open spec fn view(&self) -> SchemaRep {
        SchemaRep {
            schema_type: self.schema_type@,
            properties: obj_view(self.properties@),
            required: match self.required {
                Some(rs) => Some(strings_view(rs@)),
                None => None,
            },
        }
    }
}

impl Clone for ToolInputSchema {
    /// Copies preserve the model.
    fn clone(&self) -> (r: Self)
        ensures
            r@ == self@,
    {
        ToolInputSchema {
            schema_type: self.schema_type.clone(),
            properties: clone_members(&self.properties),
            required: match &self.required {
                Some(rs) => Some(clone_strings(rs)),
                None => None,
            },
        }
    }
}

/// A tool descriptor: its unique name, a description and its input schema.
pub struct Tool {
    pub name: String,
    pub description: Option<String>,
    pub input_schema: Option<ToolInputSchema>,
}

/// The model of a [`Tool`].
#[verifier::ext_equal]
pub struct ToolRep {
    pub name: Seq<char>,
    pub description: Option<Seq<char>>,
    pub input_schema: Option<SchemaRep>,
}

impl View for Tool {
    type V = ToolRep;

    open spec fn view(&self) -> ToolRep {
        ToolRep {
            name: self.name@,
            description: opt_str_view(self.description),
            input_schema: match self.input_schema {
                Some(s) => Some(s@),
                None => None,
            },
        }
    }
}

impl Clone for Tool {
    /// Copies preserve the model.
    fn clone(&self) -> (r: Self)
        ensures
            r@ == self@,
    {
        Tool {
            name: self.name.clone(),
            description: clone_opt_string(&self.description),
            input_schema: match &self.input_schema {
                Some(s) => Some(s.clone()),
                None => None,
            },
        }
    }
}

/// The models of a sequence of tools.
pub open spec fn tools_view(s: Seq<Tool>) -> Seq<ToolRep> {
    s.map_values(|t: Tool| t@)
}

/// A snapshot copy of a tool list, model preserved.
pub fn clone_tools(v: &Vec<Tool>) -> (r: Vec<Tool>)
    ensures
        tools_view(r@) == tools_view(v@),
{
    let mut out: Vec<Tool> = Vec::new();
    let mut i: usize = 0;
    while i < v.len()
        invariant
            i <= v.len(),
            out@.len() == i as int,
            forall|j: int| 0 <= j < i as int ==> out@[j]@ == #[trigger] v@[j]@,
        decreases v@.len() - i,
    {
        out.push(v[i].clone());
        i = i + 1;
    }
    proof {
        assert(tools_view(out@) =~= tools_view(v@));
    }
    out
}

/// One requested tool invocation: correlation id, tool name, arguments.
pub struct ToolCall {
    pub id: String,
    pub name: String,
    pub arguments: JsonValue,
}

/// The model of a [`ToolCall`].
#[verifier::ext_equal]
pub struct ToolCallRep {
    pub id: Seq<char>,
    pub name: Seq<char>,
    pub arguments: JsonRep,
}

impl View for ToolCall {
    type V = ToolCallRep;

    open spec fn view(&self) -> ToolCallRep {
        ToolCallRep { id: self.id@, name: self.name@, arguments: self.arguments@ }
    }
}

/// What a tool execution returned: content blocks and an error flag.
pub struct ToolResult {
    pub id: Option<String>,
    pub content: Vec<ResultContent>,
    pub is_error: Option<bool>,
}

/// The model of a [`ToolResult`].
#[verifier::ext_equal]
pub struct ToolResultRep {
    pub id: Option<Seq<char>>,
    pub content: Seq<ResultContentRep>,
    pub is_error: Option<bool>,
}

impl View for ToolResult {
    type V = ToolResultRep;

    open spec fn view(&self) -> ToolResultRep {
        ToolResultRep {
            id: opt_str_view(self.id),
            content: contents_view(self.content@),
            is_error: self.is_error,
        }
    }
}

impl Clone for ToolResult {
    /// Copies preserve the model.
    fn clone(&self) -> (r: Self)
        ensures
            r@ == self@,
    {
        ToolResult {
            id: clone_opt_string(&self.id),
            content: clone_contents(&self.content),
            is_error: self.is_error,
        }
    }
}

/// A resource catalog entry, keyed by its URI.
pub struct Resource {
    pub uri: String,
    pub name: String,
    pub description: Option<String>,
    pub mime_type: Option<String>,
}

/// The model of a [`Resource`].
#[verifier::ext_equal]
pub struct ResourceRep {
    pub uri: Seq<char>,
    pub name: Seq<char>,
    pub description: Option<Seq<char>>,
    pub mime_type: Option<Seq<char>>,
}

impl View for Resource {
    type V = ResourceRep;

    open spec fn view(&self) -> ResourceRep {
        ResourceRep {
            uri: self.uri@,
            name: self.name@,
            description: opt_str_view(self.description),
            mime_type: opt_str_view(self.mime_type),
        }
    }
}

impl Clone for Resource {
    /// Copies preserve the model.
    fn clone(&self) -> (r: Self)
        ensures
            r@ == self@,
    {
        Resource {
            uri: self.uri.clone(),
            name: self.name.clone(),
            description: clone_opt_string(&self.description),
            mime_type: clone_opt_string(&self.mime_type),
        }
    }
}

/// The models of a sequence of resources.
pub open spec fn resources_view(s: Seq<Resource>) -> Seq<ResourceRep> {
    s.map_values(|r: Resource| r@)
}

/// A snapshot copy of a resource list, model preserved.
pub fn clone_resources(v: &Vec<Resource>) -> (r: Vec<Resource>)
    ensures
        resources_view(r@) == resources_view(v@),
{
    let mut out: Vec<Resource> = Vec::new();
    let mut i: usize = 0;
    while i < v.len()
        invariant
            i <= v.len(),
            out@.len() == i as int,
            forall|j: int| 0 <= j < i as int ==> out@[j]@ == #[trigger] v@[j]@,
        decreases v@.len() - i,
    {
        out.push(v[i].clone());
        i = i + 1;
    }
    proof {
        assert(resources_view(out@) =~= resources_view(v@));
    }
    out
}

/// An argument a prompt template accepts.
pub struct PromptArgument {
    pub name: String,
    pub description: Option<String>,
    pub required: Option<bool>,
}

/// The model of a [`PromptArgument`].
#[verifier::ext_equal]
pub struct PromptArgumentRep {
    pub name: Seq<char>,
    pub description: Option<Seq<char>>,
    pub required: Option<bool>,
}

impl View for PromptArgument {
    type V = PromptArgumentRep;

    open spec fn view(&self) -> PromptArgumentRep {
        PromptArgumentRep {
            name: self.name@,
            description: opt_str_view(self.description),
            required: self.required,
        }
    }
}

impl Clone for PromptArgument {
    /// Copies preserve the model.
    fn clone(&self) -> (r: Self)
        ensures
            r@ == self@,
    {
        PromptArgument {
            name: self.name.clone(),
            description: clone_opt_string(&self.description),
            required: self.required,
        }
    }
}

/// The models of a sequence of prompt arguments.
pub open spec fn prompt_args_view(s: Seq<PromptArgument>) -> Seq<PromptArgumentRep> {
    s.map_values(|a: PromptArgument| a@)
}

/// A prompt catalog entry, keyed by its name.
pub struct Prompt {
    pub name: String,
    pub description: Option<String>,
    pub arguments: Option<Vec<PromptArgument>>,
}

/// The model of a [`Prompt`].
#[verifier::ext_equal]
pub struct PromptRep {
    pub name: Seq<char>,
    pub description: Option<Seq<char>>,
    pub arguments: Option<Seq<PromptArgumentRep>>,
}

impl View for Prompt {
    type V = PromptRep;

    open spec fn view(&self) -> PromptRep {
        PromptRep {
            name: self.name@,
            description: opt_str_view(self.description),
            arguments: match self.arguments {
                Some(args) => Some(prompt_args_view(args@)),
                None => None,
            },
        }
    }
}

/// A snapshot copy of a prompt argument list, model preserved.
pub fn clone_prompt_args(v: &Vec<PromptArgument>) -> (r: Vec<PromptArgument>)
    ensures
        prompt_args_view(r@) == prompt_args_view(v@),
{
    let mut out: Vec<PromptArgument> = Vec::new();
    let mut i: usize = 0;
    while i < v.len()
        invariant
            i <= v.len(),
            out@.len() == i as int,
            forall|j: int| 0 <= j < i as int ==> out@[j]@ == #[trigger] v@[j]@,
        decreases v@.len() - i,
    {
        out.push(v[i].clone());
        i = i + 1;
    }
    proof {
        assert(prompt_args_view(out@) =~= prompt_args_view(v@));
    }
    out
}

impl Clone for Prompt {
    /// Copies preserve the model.
    fn clone(&self) -> (r: Self)
        ensures
            r@ == self@,
    {
        Prompt {
            name: self.name.clone(),
            description: clone_opt_string(&self.description),
            arguments: match &self.arguments {
                Some(args) => Some(clone_prompt_args(args)),
                None => None,
            },
        }
    }
}

/// The models of a sequence of prompts.
pub open spec fn prompts_view(s: Seq<Prompt>) -> Seq<PromptRep> {
    s.map_values(|p: Prompt| p@)
}

/// A snapshot copy of a prompt list, model preserved.
pub fn clone_prompts(v: &Vec<Prompt>) -> (r: Vec<Prompt>)
    ensures
        prompts_view(r@) == prompts_view(v@),
{
    let mut out: Vec<Prompt> = Vec::new();
    let mut i: usize = 0;
    while i < v.len()
        invariant
            i <= v.len(),
            out@.len() == i as int,
            forall|j: int| 0 <= j < i as int ==> out@[j]@ == #[trigger] v@[j]@,
        decreases v@.len() - i,
    {
        out.push(v[i].clone());
        i = i + 1;
    }
    proof {
        assert(prompts_view(out@) =~= prompts_view(v@));
    }
    out
}

/// Whether a server announces tool listing changes.
#[derive(Debug, Clone, Copy, PartialEq, Eq, Structural)]
pub struct ToolsCapability {
    pub list_changed: Option<bool>,
}

/// Whether a server supports resource subscriptions and change notices.
#[derive(Debug, Clone, Copy, PartialEq, Eq, Structural)]
pub struct ResourcesCapability {
    pub subscribe: Option<bool>,
    pub list_changed: Option<bool>,
}

/// Whether a server announces prompt listing changes.
#[derive(Debug, Clone, Copy, PartialEq, Eq, Structural)]
pub struct PromptsCapability {
    pub list_changed: Option<bool>,
}

/// What a server offers: tools, resources and prompts, each optional.
#[derive(Debug, Clone, Copy, PartialEq, Eq, Structural)]
pub struct ServerCapabilities {
    pub tools: Option<ToolsCapability>,
    pub resources: Option<ResourcesCapability>,
    pub prompts: Option<PromptsCapability>,
}

impl Default for ServerCapabilities {
    /// The empty capability set: nothing announced.
    fn default() -> (r: Self)
        ensures
            r.tools is None && r.resources is None && r.prompts is None,
    {
        ServerCapabilities { tools: None, resources: None, prompts: None }
    }
}

} // verus!

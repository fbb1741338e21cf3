//! The agent loop: alternating model turns and tool executions until the
//! model stops requesting tools or the iteration budget runs out.
//!
//! Each iteration fetches the filtered tool catalog, asks the provider for
//! one turn, executes every requested tool in order, and appends the
//! exchange to the conversation. A turn with no tool request, or one whose
//! stop reason signals end-of-turn, finishes the run; exhausting the
//! budget without finishing is always a fatal error. [`run_result`] is
//! the model of those decisions; [`lemma_first_turn_without_tools_finishes`]
//! and [`lemma_always_requesting_tools_exhausts_budget`] state how runs
//! end.

use vstd::prelude::*;
use vstd::string::StringExecFns;
use crate::client::McpClient;
use crate::connectors::Connector;
use crate::protocol::{
    Message, MessageRep, Role, ContentBlock, BlockRep, ResultContent, Tool, ToolRep, blocks_view,
    msgs_view, strings_view, text_message_rep, clone_messages, clone_blocks, clone_strings,
    tools_view,
};
use crate::error::Error;

verus! {

/// What a provider answers with: one turn of content blocks and the
/// reason generation stopped.
pub struct LLMResponse {
    pub content: Vec<ContentBlock>,
    pub stop_reason: StopReason,
}

/// Why the model stopped generating.
#[derive(Debug, Clone, Copy, PartialEq, Eq, Structural)]
pub enum StopReason {
    EndTurn,
    ToolUse,
    MaxTokens,
}

/// The lifecycle of one run.
#[derive(Debug, Clone, Copy, PartialEq, Eq, Structural)]
pub enum AgentState {
    Ready,
    Running,
    WaitingForToolResult,
    Done,
    Error,
}

/// A lifecycle notification of the event-emitting run variant.
#[derive(Debug, Clone)]
pub enum AgentEvent {
    Started,
    LlmCall { iteration: usize },
    TextChunk { text: String },
    ToolCallStarted { tool_name: String },
    ToolCallCompleted { tool_name: String, result: String },
    ToolCallFailed { tool_name: String, error: String },
    IterationComplete { iteration: usize },
    Finished { response: String },
    Failed { error: String },
}

/// The run budget. `max_tokens` is carried as configured but never acted
/// upon by the loop itself.
pub struct AgentConfig {
    pub max_iterations: usize,
    pub max_tokens: Option<usize>,
}

impl Default for AgentConfig {
    /// Ten iterations, no token bound.
    fn default() -> (r: Self)
        ensures
            r.max_iterations == 10 && r.max_tokens is None,
    {
        AgentConfig { max_iterations: 10, max_tokens: None }
    }
}

/// The provider of model turns; implementations translate the
/// conversation and tool catalog to a vendor's wire format and back.
pub trait LLMProvider {
    /// Produces one turn from the conversation and the available tools.
    fn call(&self, messages: &Vec<Message>, tools: Vec<Tool>) -> Result<LLMResponse, Error>;
}

/// Whether a turn's content requests any tool invocation.
pub open spec fn turn_has_tool_use(content: Seq<BlockRep>) -> bool {
    exists|i: int| 0 <= i < content.len() && content[i] is ToolUse
}

/// The model of one turn: its content blocks and stop reason.
#[verifier::ext_equal]
pub struct TurnRep {
    pub content: Seq<BlockRep>,
    pub stop_reason: StopReason,
}

/// Whether a turn finishes the run: it requests no tool, or its stop
/// reason signals end-of-turn.
pub open spec fn turn_finishes(t: TurnRep) -> bool {
    !turn_has_tool_use(t.content) || t.stop_reason == StopReason::EndTurn
}


/// Extending a prefix by one block requests a tool exactly when the
/// prefix already did or the new block is a tool invocation request.
proof fn lemma_tool_use_step(s: Seq<BlockRep>, b: int)
    requires
        0 <= b < s.len(),
    ensures
        turn_has_tool_use(s.take(b + 1)) == (turn_has_tool_use(s.take(b)) || s[b] is ToolUse),
{
    if turn_has_tool_use(s.take(b)) {
        let i = choose|i: int| 0 <= i < s.take(b).len() && (#[trigger] s.take(b)[i]) is ToolUse;
        assert(s.take(b + 1)[i] is ToolUse);
    }
    if s[b] is ToolUse {
        assert(s.take(b + 1)[b] is ToolUse);
    }
    if turn_has_tool_use(s.take(b + 1)) {
        let i = choose|i: int| 0 <= i < s.take(b + 1).len() && (#[trigger] s.take(b + 1)[i]) is ToolUse;
        if i < b {
            assert(s.take(b)[i] is ToolUse);
        }
    }
}


/// The correlation ids of a turn's tool invocation requests, in order.
pub open spec fn tool_use_ids(content: Seq<BlockRep>) -> Seq<Seq<char>>
    decreases content.len(),
{
    if content.len() == 0 {
        Seq::empty()
    } else {
        match content.last() {
            BlockRep::ToolUse { id, .. } => tool_use_ids(content.drop_last()).push(id),
            _ => tool_use_ids(content.drop_last()),
        }
    }
}

/// One block extends the request ids exactly when it is a request.
proof fn lemma_tool_use_ids_step(s: Seq<BlockRep>, b: int)
    requires
        0 <= b < s.len(),
    ensures
        tool_use_ids(s.take(b + 1)) == match s[b] {
            BlockRep::ToolUse { id, .. } => tool_use_ids(s.take(b)).push(id),
            _ => tool_use_ids(s.take(b)),
        },
{
    assert(s.take(b + 1).drop_last() =~= s.take(b));
    assert(s.take(b + 1).last() == s[b]);
}

/// A turn requests a tool exactly when it carries a correlation id.
proof fn lemma_tool_use_ids_nonempty(content: Seq<BlockRep>)
    ensures
        turn_has_tool_use(content) == (tool_use_ids(content).len() > 0),
    decreases content.len(),
{
    if content.len() == 0 {
        assert(!turn_has_tool_use(content));
    } else {
        lemma_tool_use_ids_nonempty(content.drop_last());
        assert(content.take(content.len() as int) =~= content);
        assert(content.take(content.len() - 1) =~= content.drop_last());
        lemma_tool_use_step(content, content.len() - 1);
        lemma_tool_use_ids_step(content, content.len() - 1);
    }
}

/// The ids of a prefix stand at the front of the whole turn's ids.
proof fn lemma_tool_use_ids_prefix(s: Seq<BlockRep>, b: int)
    requires
        0 <= b <= s.len(),
    ensures
        tool_use_ids(s.take(b)).is_prefix_of(tool_use_ids(s)),
    decreases s.len() - b,
{
    if b == s.len() {
        assert(s.take(b) =~= s);
        assert(tool_use_ids(s).is_prefix_of(tool_use_ids(s))) by {
            assert(tool_use_ids(s).subrange(0, tool_use_ids(s).len() as int) =~= tool_use_ids(s));
        }
    } else {
        lemma_tool_use_ids_step(s, b);
        lemma_tool_use_ids_prefix(s, b + 1);
        let short = tool_use_ids(s.take(b));
        let longer = tool_use_ids(s.take(b + 1));
        let whole = tool_use_ids(s);
        assert(short.is_prefix_of(longer)) by {
            assert(longer.subrange(0, short.len() as int) =~= short);
        }
        assert(short.is_prefix_of(whole)) by {
            assert(whole.subrange(0, short.len() as int) =~= short);
        }
    }
}

/// The text a turn contributes to the answer: its text blocks
/// concatenated in block order, nothing else.
pub open spec fn turn_text(content: Seq<BlockRep>) -> Seq<char>
    decreases content.len(),
{
    if content.len() == 0 {
        Seq::empty()
    } else {
        turn_text(content.drop_last()) + match content.last() {
            BlockRep::Text { text } => text,
            _ => Seq::empty(),
        }
    }
}

/// One block extends the turn's text exactly by its own text, if any.
proof fn lemma_turn_text_step(s: Seq<BlockRep>, b: int)
    requires
        0 <= b < s.len(),
    ensures
        turn_text(s.take(b + 1)) == turn_text(s.take(b)) + match s[b] {
            BlockRep::Text { text } => text,
            _ => Seq::empty(),
        },
{
    assert(s.take(b + 1).drop_last() =~= s.take(b));
    assert(s.take(b + 1).last() == s[b]);
}

/// The answer a run accumulates: every turn's text, in turn order.
pub open spec fn turns_text(turns: Seq<TurnRep>) -> Seq<char>
    decreases turns.len(),
{
    if turns.len() == 0 {
        Seq::empty()
    } else {
        turns_text(turns.drop_last()) + turn_text(turns.last().content)
    }
}

/// One appended tool-result message: a User message holding exactly one
/// result block correlated to the request id.
pub open spec fn is_correlated_result(m: MessageRep, id: Seq<char>) -> bool {
    &&& m.role == Role::User
    &&& m.content.len() == 1
    &&& (m.content[0] matches BlockRep::ToolResult { tool_use_id, .. } && tool_use_id == id)
}

/// The messages one fully processed turn appends: exactly one Assistant
/// message holding all of the turn's blocks — added once, even when
/// several tools are requested — followed by one correlated tool-result
/// User message per request, in request order. A turn with no request
/// appends the Assistant message alone.
pub open spec fn turn_delta_ok(content: Seq<BlockRep>, delta: Seq<MessageRep>) -> bool {
    let ids = tool_use_ids(content);
    &&& delta.len() == 1 + ids.len()
    &&& delta[0] == (MessageRep { role: Role::Assistant, content })
    &&& forall|i: int| 0 <= i < ids.len() ==> is_correlated_result(#[trigger] delta[i + 1], ids[i])
}

/// The messages an aborted turn leaves behind: the Assistant message and
/// one correlated result per call that succeeded before the failure; the
/// failed call and everything after it append nothing.
pub open spec fn turn_delta_prefix(content: Seq<BlockRep>, delta: Seq<MessageRep>) -> bool {
    let ids = tool_use_ids(content);
    &&& 1 <= delta.len() <= ids.len()
    &&& delta[0] == (MessageRep { role: Role::Assistant, content })
    &&& forall|i: int| 0 <= i < delta.len() - 1 ==> is_correlated_result(
        #[trigger] delta[i + 1],
        ids[i],
    )
}

/// The conversation a sequence of fully processed turns appends: each
/// turn's messages, in turn order.
pub open spec fn turns_messages_ok(turns: Seq<TurnRep>, msgs: Seq<MessageRep>) -> bool
    decreases turns.len(),
{
    if turns.len() == 0 {
        msgs.len() == 0
    } else {
        exists|k: int|
            0 <= k <= msgs.len() && turns_messages_ok(turns.drop_last(), #[trigger] msgs.take(k))
                && turn_delta_ok(turns.last().content, msgs.skip(k))
    }
}

/// The conversation an aborted run appends: every turn fully processed,
/// or all but the last with the last cut short at a failed call.
pub open spec fn turns_messages_aborted(turns: Seq<TurnRep>, msgs: Seq<MessageRep>) -> bool {
    turns_messages_ok(turns, msgs) || (turns.len() >= 1 && exists|k: int|
        0 <= k <= msgs.len() && turns_messages_ok(turns.drop_last(), #[trigger] msgs.take(k))
            && turn_delta_prefix(turns.last().content, msgs.skip(k)))
}

/// A run whose last turn finishes — every earlier one requesting more —
/// ends `Done` after exactly that many provider calls.
pub proof fn lemma_run_result_finishes(turns: Seq<TurnRep>, budget: nat)
    requires
        1 <= turns.len() <= budget,
        forall|j: int| 0 <= j < turns.len() - 1 ==> !turn_finishes(#[trigger] turns[j]),
        turn_finishes(turns.last()),
    ensures
        run_result(turns, budget) == (AgentState::Done, turns.len() as nat),
    decreases turns.len(),
{
    if turns.len() == 1 {
        assert(turns.first() == turns.last());
    } else {
        assert(!turn_finishes(turns[0]));
        assert(turns[0] == turns.first());
        assert forall|j: int| 0 <= j < turns.drop_first().len() - 1 implies !turn_finishes(
            #[trigger] turns.drop_first()[j],
        ) by {
            assert(turns.drop_first()[j] == turns[j + 1]);
        }
        assert(turns.drop_first().last() == turns.last());
        lemma_run_result_finishes(turns.drop_first(), (budget - 1) as nat);
    }
}

/// The loop's decisions, modeled over the turns a provider would answer
/// with: the state a run ends in and the number of provider calls it
/// makes, given an iteration budget.
pub open spec fn run_result(turns: Seq<TurnRep>, budget: nat) -> (AgentState, nat)
    decreases budget,
{
    if budget == 0 || turns.len() == 0 {
        (AgentState::Error, 0nat)
    } else if turn_finishes(turns.first()) {
        (AgentState::Done, 1nat)
    } else {
        let rest = run_result(turns.drop_first(), (budget - 1) as nat);
        (rest.0, (rest.1 + 1) as nat)
    }
}

/// A run whose first turn contains no tool invocation request terminates
/// after exactly one provider call, in state `Done`.
pub proof fn lemma_first_turn_without_tools_finishes(turns: Seq<TurnRep>, budget: nat)
    requires
        budget >= 1,
        turns.len() >= 1,
        !turn_has_tool_use(turns.first().content),
    ensures
        run_result(turns, budget) == (AgentState::Done, 1nat),
{
}

/// A run whose turns always request a tool and never signal end-of-turn
/// ends in state `Error` after exactly `budget` provider calls — never
/// `budget + 1`.
pub proof fn lemma_always_requesting_tools_exhausts_budget(turns: Seq<TurnRep>, budget: nat)
    requires
        turns.len() >= budget,
        forall|i: int| 0 <= i < budget ==> !turn_finishes(#[trigger] turns[i]),
    ensures
        run_result(turns, budget) == (AgentState::Error, budget),
    decreases budget,
{
    if budget > 0 {
        assert(!turn_finishes(turns[0]));
        assert forall|i: int| 0 <= i < budget - 1 implies !turn_finishes(
            #[trigger] turns.drop_first()[i],
        ) by {
            assert(turns.drop_first()[i] == turns[i + 1]);
        }
        lemma_always_requesting_tools_exhausts_budget(turns.drop_first(), (budget - 1) as nat);
    }
}


/// The model of a lifecycle notification.
#[verifier::ext_equal]
pub enum EventRep {
    Started,
    LlmCall { iteration: int },
    TextChunk { text: Seq<char> },
    ToolCallStarted { tool_name: Seq<char> },
    ToolCallCompleted { tool_name: Seq<char>, result: Seq<char> },
    ToolCallFailed { tool_name: Seq<char>, error: Seq<char> },
    IterationComplete { iteration: int },
    Finished { response: Seq<char> },
    Failed { error: Seq<char> },
}

impl View for AgentEvent {
    type V = EventRep;

    open spec fn view(&self) -> EventRep {
        match self {
            AgentEvent::Started => EventRep::Started,
            AgentEvent::LlmCall { iteration } => EventRep::LlmCall {
                iteration: *iteration as int,
            },
            AgentEvent::TextChunk { text } => EventRep::TextChunk { text: text@ },
            AgentEvent::ToolCallStarted { tool_name } => EventRep::ToolCallStarted {
                tool_name: tool_name@,
            },
            AgentEvent::ToolCallCompleted { tool_name, result } => EventRep::ToolCallCompleted {
                tool_name: tool_name@,
                result: result@,
            },
            AgentEvent::ToolCallFailed { tool_name, error } => EventRep::ToolCallFailed {
                tool_name: tool_name@,
                error: error@,
            },
            AgentEvent::IterationComplete { iteration } => EventRep::IterationComplete {
                iteration: *iteration as int,
            },
            AgentEvent::Finished { response } => EventRep::Finished { response: response@ },
            AgentEvent::Failed { error } => EventRep::Failed { error: error@ },
        }
    }
}

/// The models of an event sink.
pub open spec fn events_view(s: Seq<AgentEvent>) -> Seq<EventRep> {
    s.map_values(|e: AgentEvent| e@)
}

/// The notifications one content block emits: its text chunk, or the
/// start of its tool call followed by that call's completion or failure;
/// any other block emits nothing.
pub open spec fn block_events_ok(b: BlockRep, evs: Seq<EventRep>) -> bool {
    match b {
        BlockRep::Text { text } => evs.len() == 1 && evs[0] == (EventRep::TextChunk { text }),
        BlockRep::ToolUse { name, .. } => evs.len() == 2 && evs[0] == (EventRep::ToolCallStarted {
            tool_name: name,
        }) && ((evs[1] matches EventRep::ToolCallCompleted { tool_name, .. } && tool_name == name)
            || (evs[1] matches EventRep::ToolCallFailed { tool_name, .. } && tool_name == name)),
        _ => evs.len() == 0,
    }
}

/// The notifications a turn's blocks emit, in block order.
pub open spec fn blocks_events_ok(content: Seq<BlockRep>, evs: Seq<EventRep>) -> bool
    decreases content.len(),
{
    if content.len() == 0 {
        evs.len() == 0
    } else {
        exists|k: int|
            0 <= k <= evs.len() && blocks_events_ok(content.drop_last(), #[trigger] evs.take(k))
                && block_events_ok(content.last(), evs.skip(k))
    }
}

/// The notifications one iteration emits: its provider-call notice
/// first, its blocks' notifications in order, and its completion notice
/// last.
pub open spec fn turn_events_ok(content: Seq<BlockRep>, iteration: int, evs: Seq<EventRep>) -> bool {
    &&& evs.len() >= 2
    &&& evs[0] == (EventRep::LlmCall { iteration })
    &&& evs.last() == (EventRep::IterationComplete { iteration })
    &&& blocks_events_ok(content, evs.subrange(1, evs.len() - 1))
}

/// The notifications a run's processed turns emit: each turn's segment in
/// order, iteration numbers counting from one.
pub open spec fn turns_events_ok(turns: Seq<TurnRep>, evs: Seq<EventRep>) -> bool
    decreases turns.len(),
{
    if turns.len() == 0 {
        evs.len() == 0
    } else {
        exists|k: int|
            0 <= k <= evs.len() && turns_events_ok(turns.drop_last(), #[trigger] evs.take(k))
                && turn_events_ok(turns.last().content, turns.len() as int, evs.skip(k))
    }
}

/// The model of an agent: its lifecycle state, the conversation so far,
/// the optional system prompt, the disallow list and the budget.
#[verifier::ext_equal]
pub struct AgentRep {
    pub state: AgentState,
    pub conversation: Seq<MessageRep>,
    pub system_prompt: Option<Seq<char>>,
    pub disallowed_tools: Seq<Seq<char>>,
    pub max_iterations: usize,
}

/// An agent: a client for tool execution, a provider for turns, and the
/// conversation it exclusively owns.
pub struct Agent<L: LLMProvider, C: Connector> {
    client: McpClient<C>,
    llm: L,
    config: AgentConfig,
    state: AgentState,
    conversation: Vec<Message>,
    system_prompt: Option<String>,
    disallowed_tools: Vec<String>,
    turns: Ghost<Seq<TurnRep>>,
    aborted: Ghost<bool>,
}

impl<L: LLMProvider, C: Connector> View for Agent<L, C> {
    type V = AgentRep;

    closed spec fn view(&self) -> AgentRep {
        AgentRep {
            state: self.state,
            conversation: msgs_view(self.conversation@),
            system_prompt: crate::protocol::opt_str_view(self.system_prompt),
            disallowed_tools: strings_view(self.disallowed_tools@),
            max_iterations: self.config.max_iterations,
        }
    }
}

/// The tools that remain after dropping every disallowed name, in order.
pub open spec fn allowed_tools(tools: Seq<ToolRep>, disallowed: Seq<Seq<char>>) -> Seq<ToolRep>
    decreases tools.len(),
{
    if tools.len() == 0 {
        Seq::empty()
    } else if disallowed.contains(tools.last().name) {
        allowed_tools(tools.drop_last(), disallowed)
    } else {
        allowed_tools(tools.drop_last(), disallowed).push(tools.last())
    }
}

/// Whether a string list holds the given string.
fn contains_string(v: &Vec<String>, s: &String) -> (r: bool)
    ensures
        r == strings_view(v@).contains(s@),
{
    let mut i: usize = 0;
    while i < v.len()
        invariant
            i <= v.len(),
            forall|k: int| 0 <= k < i as int ==> (#[trigger] v@[k])@ != s@,
        decreases v@.len() - i,
    {
        if v[i] == *s {
            proof {
                assert(strings_view(v@)[i as int] == s@);
            }
            return true;
        }
        i = i + 1;
    }
    proof {
        assert forall|k: int| 0 <= k < strings_view(v@).len() implies #[trigger] strings_view(v@)[k]
            != s@ by {
            assert(strings_view(v@)[k] == v@[k]@);
        }
    }
    false
}

impl<L: LLMProvider, C: Connector> Agent<L, C> {
    /// A fresh agent: ready, with an empty conversation, no system prompt
    /// and nothing disallowed.
    pub fn new(client: McpClient<C>, llm: L, config: AgentConfig) -> (r: Agent<L, C>)
        ensures
            r@.state == AgentState::Ready,
            r@.conversation == Seq::<MessageRep>::empty(),
            r@.system_prompt is None,
            r@.disallowed_tools == Seq::<Seq<char>>::empty(),
            r@.max_iterations == config.max_iterations,
    {
        let r = Agent {
            client,
            llm,
            config,
            state: AgentState::Ready,
            conversation: Vec::new(),
            system_prompt: None,
            disallowed_tools: Vec::new(),
            turns: Ghost(Seq::empty()),
            aborted: Ghost(false),
        };
        proof {
            assert(r@.conversation =~= Seq::<MessageRep>::empty());
            assert(r@.disallowed_tools =~= Seq::<Seq<char>>::empty());
        }
        r
    }

    /// The current lifecycle state.
    pub fn state(&self) -> (r: AgentState)
        ensures
            r == self@.state,
    {
        self.state
    }

    /// A snapshot of the conversation so far.
    pub fn conversation(&self) -> (r: Vec<Message>)
        ensures
            msgs_view(r@) == self@.conversation,
    {
        clone_messages(&self.conversation)
    }

    /// Forgets the conversation; the next run starts fresh.
    pub fn clear_conversation(&mut self)
        ensures
            final(self)@ == (AgentRep {
                conversation: Seq::<MessageRep>::empty(),
                ..old(self)@
            }),
    {
        self.conversation = Vec::new();
        proof {
            assert(self@ =~= AgentRep { conversation: Seq::<MessageRep>::empty(), ..old(self)@ });
        }
    }

    /// Sets the system prompt handed to the provider.
    pub fn set_system_prompt(&mut self, prompt: String)
        ensures
            final(self)@ == (AgentRep { system_prompt: Some(prompt@), ..old(self)@ }),
    {
        self.system_prompt = Some(prompt);
        proof {
            assert(self@ =~= AgentRep { system_prompt: self@.system_prompt, ..old(self)@ });
        }
    }

    /// The current system prompt, if any.
    pub fn get_system_prompt(&self) -> (r: Option<&str>)
        ensures
            match r {
                Some(s) => self@.system_prompt == Some(s@),
                None => self@.system_prompt is None,
            },
    {
        match &self.system_prompt {
            Some(s) => Some(s.as_str()),
            None => None,
        }
    }

    /// Clears the system prompt; the provider falls back to its default.
    pub fn clear_system_prompt(&mut self)
        ensures
            final(self)@ == (AgentRep { system_prompt: None, ..old(self)@ }),
    {
        self.system_prompt = None;
        proof {
            assert(self@ =~= AgentRep { system_prompt: None, ..old(self)@ });
        }
    }

    /// Replaces the disallow list wholesale.
    pub fn set_disallowed_tools(&mut self, tools: Vec<String>)
        ensures
            final(self)@ == (AgentRep { disallowed_tools: strings_view(tools@), ..old(self)@ }),
    {
        self.disallowed_tools = tools;
        proof {
            assert(self@ =~= AgentRep {
                disallowed_tools: self@.disallowed_tools,
                ..old(self)@
            });
        }
    }

    /// A snapshot of the disallow list.
    pub fn get_disallowed_tools(&self) -> (r: Vec<String>)
        ensures
            strings_view(r@) == self@.disallowed_tools,
    {
        clone_strings(&self.disallowed_tools)
    }

    /// Adds one name to the disallow list, once: a name already on the
    /// list is not added again.
    pub fn disallow_tool(&mut self, tool_name: String)
        ensures
            old(self)@.disallowed_tools.contains(tool_name@) ==> final(self)@ == old(self)@,
            !old(self)@.disallowed_tools.contains(tool_name@) ==> final(self)@ == (AgentRep {
                disallowed_tools: old(self)@.disallowed_tools.push(tool_name@),
                ..old(self)@
            }),
            final(self)@.disallowed_tools.contains(tool_name@),
    {
        if !contains_string(&self.disallowed_tools, &tool_name) {
            let ghost before = strings_view(self.disallowed_tools@);
            self.disallowed_tools.push(tool_name);
            proof {
                assert(strings_view(self.disallowed_tools@) =~= before.push(
                    self.disallowed_tools@.last()@,
                ));
                assert(self@ =~= AgentRep {
                    disallowed_tools: self@.disallowed_tools,
                    ..old(self)@
                });
                assert(self@.disallowed_tools.last() == tool_name@);
            }
        }
    }

    /// The endpoint's catalog with every disallowed name dropped, in
    /// catalog order.
    fn get_available_tools(&mut self) -> (r: Result<Vec<Tool>, Error>)
        requires
            old(self).client_wf(),
        ensures
            final(self)@ == old(self)@,
            final(self).turn_log() == old(self).turn_log(),
            final(self).run_aborted() == old(self).run_aborted(),
            final(self).client_wf(),
            r matches Ok(ts) ==> exists|all: Seq<ToolRep>|
                tools_view(ts@) == allowed_tools(all, old(self)@.disallowed_tools),
    {
        let all_tools = match self.client.list_tools() {
            Ok(ts) => ts,
            Err(e) => {
                return Err(e);
            },
        };
        let ghost arep = tools_view(all_tools@);
        let ghost dis = strings_view(self.disallowed_tools@);
        let mut kept: Vec<Tool> = Vec::new();
        let mut i: usize = 0;
        proof {
            assert(allowed_tools(arep.take(0), dis) =~= tools_view(kept@));
        }
        while i < all_tools.len()
            invariant
                i <= all_tools.len(),
                arep == tools_view(all_tools@),
                arep.len() == all_tools@.len(),
                dis == strings_view(self.disallowed_tools@),
                tools_view(kept@) == allowed_tools(arep.take(i as int), dis),
            decreases all_tools@.len() - i,
        {
            proof {
                assert(arep.take(i as int + 1).drop_last() =~= arep.take(i as int));
                assert(arep.take(i as int + 1).last() == arep[i as int]);
            }
            if !contains_string(&self.disallowed_tools, &all_tools[i].name) {
                kept.push(all_tools[i].clone());
                proof {
                    assert(tools_view(kept@) =~= allowed_tools(arep.take(i as int), dis).push(
                        arep[i as int],
                    ));
                }
            }
            i = i + 1;
        }
        proof {
            assert(arep.take(all_tools@.len() as int) =~= arep);
            assert(dis == old(self)@.disallowed_tools);
            assert(tools_view(kept@) == allowed_tools(arep, old(self)@.disallowed_tools));
            assert(self@ =~= old(self)@);
        }
        Ok(kept)
    }

    /// The client's tables stay uniquely keyed.
    pub closed spec fn client_wf(&self) -> bool {
        self.client.wf()
    }

    /// The turns the provider answered during the last run, in order; a
    /// turn is recorded the moment its response arrives.
    pub closed spec fn turn_log(&self) -> Seq<TurnRep> {
        self.turns@
    }

    /// Whether the last run ended early on a failed call — a catalog
    /// fetch, a provider call or a tool execution — instead of by its own
    /// loop decisions.
    pub closed spec fn run_aborted(&self) -> bool {
        self.aborted@
    }

    /// Runs one prompt to completion. The prompt is appended as a user
    /// message; the loop then alternates provider turns and tool
    /// executions, recording each received turn in [`Agent::turn_log`]. A
    /// turn that requests no tool, or signals end-of-turn, finishes the
    /// run in state `Done` with every turn's text blocks concatenated as
    /// the answer; each fully processed turn appends exactly one
    /// Assistant message holding all its blocks and one correlated result
    /// message per requested tool. A failing catalog fetch, provider call
    /// or tool execution aborts the run in state `Error`; exhausting the
    /// iteration budget without finishing is always fatal. The prior
    /// conversation is kept: the old history is a prefix of the new, with
    /// the prompt appended right after it.
    pub fn run(&mut self, prompt: &str) -> (r: Result<String, Error>)
        requires
            old(self).client_wf(),
        ensures
            final(self).client_wf(),
            old(self)@.conversation.is_prefix_of(final(self)@.conversation),
            final(self)@.conversation.len() > old(self)@.conversation.len(),
            final(self)@.conversation[old(self)@.conversation.len() as int] == text_message_rep(
                Role::User,
                prompt@,
            ),
            final(self)@.state == AgentState::Done || final(self)@.state == AgentState::Error,
            (r is Ok <==> final(self)@.state == AgentState::Done),
            final(self).run_aborted() ==> r is Err,
            final(self).turn_log().len() <= old(self)@.max_iterations,
            !final(self).run_aborted() ==> turns_messages_ok(
                final(self).turn_log(),
                final(self)@.conversation.skip(old(self)@.conversation.len() + 1 as int),
            ),
            final(self).run_aborted() ==> turns_messages_aborted(
                final(self).turn_log(),
                final(self)@.conversation.skip(old(self)@.conversation.len() + 1 as int),
            ),
            (r matches Ok(answer) ==> answer@ == turns_text(final(self).turn_log())),
            r is Ok ==> final(self).turn_log().len() >= 1 && turn_finishes(
                final(self).turn_log().last(),
            ) && (forall|j: int|
                0 <= j < final(self).turn_log().len() - 1 ==> !turn_finishes(
                    #[trigger] final(self).turn_log()[j],
                )) && run_result(final(self).turn_log(), old(self)@.max_iterations as nat) == (
                AgentState::Done,
                final(self).turn_log().len() as nat,
            ),
            r is Err && !final(self).run_aborted() ==> final(self).turn_log().len() == old(
                self,
            )@.max_iterations && (forall|j: int|
                0 <= j < final(self).turn_log().len() ==> !turn_finishes(
                    #[trigger] final(self).turn_log()[j],
                )) && run_result(final(self).turn_log(), old(self)@.max_iterations as nat) == (
                AgentState::Error,
                old(self)@.max_iterations as nat,
            ),
            final(self)@.system_prompt == old(self)@.system_prompt,
            final(self)@.disallowed_tools == old(self)@.disallowed_tools,
            final(self)@.max_iterations == old(self)@.max_iterations,
    {
        self.state = AgentState::Running;
        self.turns = Ghost(Seq::empty());
        self.aborted = Ghost(false);
        self.conversation.push(Message::user(prompt));
        let ghost base = old(self)@.conversation.push(text_message_rep(Role::User, prompt@));
        let ghost base_len = old(self)@.conversation.len() + 1;
        proof {
            assert(msgs_view(self.conversation@) =~= base);
            assert(old(self)@.conversation.is_prefix_of(base));
            assert(old(self)@.conversation.is_prefix_of(self@.conversation));
            assert(self@.conversation.skip(base_len as int) =~= Seq::<MessageRep>::empty());
        }

        let mut iterations: usize = 0;
        let mut final_response = String::new();
        let max_iterations = self.config.max_iterations;

        while iterations < max_iterations && self.state_is_running()
            invariant
                self.client_wf(),
                max_iterations == old(self)@.max_iterations,
                base_len == old(self)@.conversation.len() + 1,
                base.len() == base_len,
                old(self)@.conversation.is_prefix_of(self@.conversation),
                base.is_prefix_of(self@.conversation),
                self@.conversation.len() >= base_len,
                self@.conversation[old(self)@.conversation.len() as int] == text_message_rep(
                    Role::User,
                    prompt@,
                ),
                self@.system_prompt == old(self)@.system_prompt,
                self@.disallowed_tools == old(self)@.disallowed_tools,
                self@.max_iterations == old(self)@.max_iterations,
                self@.state == AgentState::Running || self@.state == AgentState::Done,
                iterations <= max_iterations,
                self.turns@.len() == iterations,
                self.aborted@ == false,
                turns_messages_ok(self.turns@, self@.conversation.skip(base_len as int)),
                final_response@ == turns_text(self.turns@),
                self@.state == AgentState::Running ==> forall|j: int|
                    0 <= j < self.turns@.len() ==> !turn_finishes(#[trigger] self.turns@[j]),
                self@.state == AgentState::Done ==> self.turns@.len() >= 1 && turn_finishes(
                    self.turns@.last(),
                ) && (forall|j: int|
                    0 <= j < self.turns@.len() - 1 ==> !turn_finishes(#[trigger] self.turns@[j])),
            decreases max_iterations - iterations,
        {
            iterations = iterations + 1;

            let tools = match self.get_available_tools() {
                Ok(ts) => ts,
                Err(e) => {
                    self.state = AgentState::Error;
                    self.aborted = Ghost(true);
                    return Err(e);
                },
            };
            let messages = clone_messages(&self.conversation);
            let llm_response = match self.llm.call(&messages, tools) {
                Ok(resp) => resp,
                Err(e) => {
                    self.state = AgentState::Error;
                    self.aborted = Ghost(true);
                    return Err(Error::LLMError(e.message()));
                },
            };
            let ghost bv = blocks_view(llm_response.content@);
            let ghost turn = TurnRep { content: bv, stop_reason: llm_response.stop_reason };
            let ghost prev_turns = self.turns@;
            self.turns = Ghost(prev_turns.push(turn));
            let ghost prefix_msgs = self@.conversation.skip(base_len as int);
            let ghost mark = base_len + prefix_msgs.len();
            proof {
                assert(mark == self@.conversation.len());
                assert(self@.conversation.skip(base_len as int).take(prefix_msgs.len() as int)
                    =~= prefix_msgs);
            }

            let mut has_tool_use = false;
            let mut assistant_message_added = false;
            let mut b: usize = 0;
            while b < llm_response.content.len()
                invariant
                    self.client_wf(),
                    base_len == old(self)@.conversation.len() + 1,
                    base.len() == base_len,
                    old(self)@.conversation.is_prefix_of(self@.conversation),
                    base.is_prefix_of(self@.conversation),
                    self@.conversation.len() >= base_len,
                    self@.conversation[old(self)@.conversation.len() as int] == text_message_rep(
                        Role::User,
                        prompt@,
                    ),
                    self@.system_prompt == old(self)@.system_prompt,
                    self@.disallowed_tools == old(self)@.disallowed_tools,
                    self@.max_iterations == old(self)@.max_iterations,
                    self@.state == AgentState::Running,
                    b <= llm_response.content@.len(),
                    bv == blocks_view(llm_response.content@),
                    turn == (TurnRep { content: bv, stop_reason: llm_response.stop_reason }),
                    self.turns@ == prev_turns.push(turn),
                    prev_turns.len() + 1 <= max_iterations,
                    max_iterations == old(self)@.max_iterations,
                    self.aborted@ == false,
                    mark == base_len + prefix_msgs.len(),
                    mark <= self@.conversation.len(),
                    self@.conversation.skip(base_len as int).take(prefix_msgs.len() as int)
                        == prefix_msgs,
                    turns_messages_ok(prev_turns, prefix_msgs),
                    forall|j: int| 0 <= j < prev_turns.len() ==> !turn_finishes(
                        #[trigger] prev_turns[j],
                    ),
                    has_tool_use == turn_has_tool_use(bv.take(b as int)),
                    assistant_message_added == has_tool_use,
                    !has_tool_use ==> self@.conversation.len() == mark,
                    has_tool_use ==> ({
                        let cur = self@.conversation.skip(mark as int);
                        let ids = tool_use_ids(bv.take(b as int));
                        cur.len() == 1 + ids.len() && cur[0] == (MessageRep {
                            role: Role::Assistant,
                            content: bv,
                        }) && forall|i: int|
                            0 <= i < ids.len() ==> is_correlated_result(
                                #[trigger] cur[i + 1],
                                ids[i],
                            )
                    }),
                    final_response@ == turns_text(prev_turns) + turn_text(bv.take(b as int)),
                decreases llm_response.content@.len() - b,
            {
                proof {
                    lemma_tool_use_step(bv, b as int);
                    lemma_tool_use_ids_step(bv, b as int);
                    lemma_turn_text_step(bv, b as int);
                }
                match &llm_response.content[b] {
                    ContentBlock::Text { text } => {
                        final_response.append(text.as_str());
                        proof {
                            assert(final_response@ =~= turns_text(prev_turns) + turn_text(
                                bv.take(b as int + 1),
                            ));
                        }
                    },
                    ContentBlock::ToolUse { id, name, input } => {
                        has_tool_use = true;
                        self.state = AgentState::WaitingForToolResult;

                        if !assistant_message_added {
                            let ghost before = msgs_view(self.conversation@);
                            self.conversation.push(
                                Message {
                                    role: Role::Assistant,
                                    content: clone_blocks(&llm_response.content),
                                },
                            );
                            assistant_message_added = true;
                            proof {
                                lemma_tool_use_ids_nonempty(bv.take(b as int));
                                assert(msgs_view(self.conversation@) =~= before.push(
                                    self.conversation@.last()@,
                                ));
                                lemma_prefix_push(base, before, self.conversation@.last()@);
                                lemma_prefix_push(
                                    old(self)@.conversation,
                                    before,
                                    self.conversation@.last()@,
                                );
                                assert(self@.conversation.skip(base_len as int).take(
                                    prefix_msgs.len() as int,
                                ) =~= prefix_msgs);
                                assert(self@.conversation.skip(mark as int) =~= seq![
                                    MessageRep { role: Role::Assistant, content: bv },
                                ]);
                            }
                        }

                        let tool_result = match self.client.call_tool(
                            name.as_str(),
                            input.deep_copy(),
                        ) {
                            Ok(tr) => tr,
                            Err(e) => {
                                self.state = AgentState::Error;
                                self.aborted = Ghost(true);
                                proof {
                                    lemma_tool_use_ids_prefix(bv, b as int);
                                    lemma_tool_use_ids_step(bv, b as int);
                                    lemma_tool_use_ids_prefix(bv, b as int + 1);
                                    let delta = self@.conversation.skip(base_len as int);
                                    let cur = self@.conversation.skip(mark as int);
                                    assert(delta.take(prefix_msgs.len() as int) == prefix_msgs);
                                    assert(delta.skip(prefix_msgs.len() as int) =~= cur);
                                    assert(turn_delta_prefix(bv, cur)) by {
                                        let ids = tool_use_ids(bv);
                                        let idsb = tool_use_ids(bv.take(b as int));
                                        assert(tool_use_ids(bv.take(b as int + 1)).len() <= ids.len());
                                        assert forall|i: int| 0 <= i < cur.len() - 1 implies
                                            is_correlated_result(#[trigger] cur[i + 1], ids[i]) by {
                                            assert(idsb.is_prefix_of(ids));
                                            assert(ids.subrange(0, idsb.len() as int) =~= idsb);
                                            assert(ids[i] == idsb[i]);
                                        }
                                    }
                                    assert(self.turns@.drop_last() =~= prev_turns);
                                    assert(turns_messages_aborted(self.turns@, delta));
                                    lemma_prefix_index(
                                        base,
                                        self@.conversation,
                                        old(self)@.conversation.len() as int,
                                    );
                                }
                                return Err(e);
                            },
                        };

                        let ghost before = msgs_view(self.conversation@);
                        self.conversation.push(
                            Message {
                                role: Role::User,
                                content: vec![
                                    ContentBlock::ToolResult {
                                        tool_use_id: id.clone(),
                                        content: tool_result.content,
                                        is_error: tool_result.is_error,
                                    },
                                ],
                            },
                        );
                        proof {
                            assert(msgs_view(self.conversation@) =~= before.push(
                                self.conversation@.last()@,
                            ));
                            lemma_prefix_push(base, before, self.conversation@.last()@);
                            lemma_prefix_push(
                                old(self)@.conversation,
                                before,
                                self.conversation@.last()@,
                            );
                            assert(self@.conversation.skip(base_len as int).take(
                                prefix_msgs.len() as int,
                            ) =~= prefix_msgs);
                            let cur = self@.conversation.skip(mark as int);
                            let ids = tool_use_ids(bv.take(b as int + 1));
                            assert(cur =~= before.skip(mark as int).push(
                                self.conversation@.last()@,
                            ));
                            assert(self.conversation@.last()@.content =~= seq![
                                BlockRep::ToolResult {
                                    tool_use_id: id@,
                                    content: crate::protocol::contents_view(
                                        self.conversation@.last().content@[0]->ToolResult_content@,
                                    ),
                                    is_error: self.conversation@.last()@.content[0]->ToolResult_is_error,
                                },
                            ]);
                            assert(is_correlated_result(self.conversation@.last()@, id@));
                            assert(cur.len() == 1 + ids.len());
                            assert forall|i: int| 0 <= i < ids.len() implies is_correlated_result(
                                #[trigger] cur[i + 1],
                                ids[i],
                            ) by {
                                if i < ids.len() - 1 {
                                    assert(cur[i + 1] == before.skip(mark as int)[i + 1]);
                                    assert(ids[i] == tool_use_ids(bv.take(b as int))[i]);
                                } else {
                                    assert(cur[i + 1] == self.conversation@.last()@);
                                    assert(ids[i] == id@);
                                }
                            }
                        }

                        self.state = AgentState::Running;
                    },
                    _ => {},
                }
                b = b + 1;
            }

            proof {
                assert(bv.take(llm_response.content@.len() as int) =~= bv);
                assert((!has_tool_use || llm_response.stop_reason == StopReason::EndTurn)
                    == turn_finishes(turn));
                lemma_tool_use_ids_nonempty(bv);
            }
            if !has_tool_use || stop_reason_is_end_turn(llm_response.stop_reason) {
                if !assistant_message_added {
                    let ghost before = msgs_view(self.conversation@);
                    self.conversation.push(
                        Message { role: Role::Assistant, content: llm_response.content },
                    );
                    proof {
                        assert(msgs_view(self.conversation@) =~= before.push(
                            self.conversation@.last()@,
                        ));
                        lemma_prefix_push(base, before, self.conversation@.last()@);
                        lemma_prefix_push(
                            old(self)@.conversation,
                            before,
                            self.conversation@.last()@,
                        );
                        assert(self@.conversation.skip(base_len as int).take(
                            prefix_msgs.len() as int,
                        ) =~= prefix_msgs);
                        assert(self@.conversation.skip(mark as int) =~= seq![
                            MessageRep { role: Role::Assistant, content: bv },
                        ]);
                    }
                }
                self.state = AgentState::Done;
            }
            proof {
                let delta = self@.conversation.skip(base_len as int);
                let cur = self@.conversation.skip(mark as int);
                assert(delta.take(prefix_msgs.len() as int) == prefix_msgs);
                assert(delta.skip(prefix_msgs.len() as int) =~= cur);
                assert(turn_delta_ok(bv, cur));
                assert(self.turns@.drop_last() =~= prev_turns);
                assert(self.turns@.last() == turn);
                assert(turns_messages_ok(self.turns@, delta));
                assert(turns_text(self.turns@) =~= turns_text(prev_turns) + turn_text(bv));
            }
        }

        if !self.state_is_done() {
            self.state = AgentState::Error;
            proof {
                lemma_prefix_index(base, self@.conversation, old(self)@.conversation.len() as int);
                lemma_always_requesting_tools_exhausts_budget(
                    self.turns@,
                    max_iterations as nat,
                );
            }
            return Err(Error::InternalError(String::from_str("Max iterations reached")));
        }
        proof {
            lemma_prefix_index(base, self@.conversation, old(self)@.conversation.len() as int);
            lemma_run_result_finishes(self.turns@, max_iterations as nat);
        }
        Ok(final_response)
    }


    /// The event-emitting run: the identical loop, with two deliberate
    /// differences. Lifecycle notifications are appended to the given
    /// sink in §-order: `Started` first; per iteration its provider-call
    /// notice, its blocks' notices in block order — one text chunk per
    /// text block, a call-started notice and a completion or failure
    /// notice per tool request — and its completion notice; `Finished`
    /// carrying the returned text closes a successful run, `Failed` a run
    /// that exhausted its budget. And a failing tool execution does not
    /// abort the run: it is converted into an error-flagged result
    /// message — still correlated to the request id — and the run
    /// continues, so every received turn is processed in full and the two
    /// variants append conversations of the same shape.
    pub fn run_with_events(&mut self, prompt: &str, events: &mut Vec<AgentEvent>) -> (r: Result<
        String,
        Error,
    >)
        requires
            old(self).client_wf(),
        ensures
            final(self).client_wf(),
            old(self)@.conversation.is_prefix_of(final(self)@.conversation),
            final(self)@.conversation.len() > old(self)@.conversation.len(),
            final(self)@.conversation[old(self)@.conversation.len() as int] == text_message_rep(
                Role::User,
                prompt@,
            ),
            final(self)@.state == AgentState::Done || final(self)@.state == AgentState::Error,
            (r is Ok <==> final(self)@.state == AgentState::Done),
            final(self).run_aborted() ==> r is Err,
            final(self).turn_log().len() <= old(self)@.max_iterations,
            turns_messages_ok(
                final(self).turn_log(),
                final(self)@.conversation.skip(old(self)@.conversation.len() + 1 as int),
            ),
            (r matches Ok(answer) ==> answer@ == turns_text(final(self).turn_log())),
            r is Ok ==> final(self).turn_log().len() >= 1 && turn_finishes(
                final(self).turn_log().last(),
            ) && (forall|j: int|
                0 <= j < final(self).turn_log().len() - 1 ==> !turn_finishes(
                    #[trigger] final(self).turn_log()[j],
                )) && run_result(final(self).turn_log(), old(self)@.max_iterations as nat) == (
                AgentState::Done,
                final(self).turn_log().len() as nat,
            ),
            r is Err && !final(self).run_aborted() ==> final(self).turn_log().len() == old(
                self,
            )@.max_iterations && (forall|j: int|
                0 <= j < final(self).turn_log().len() ==> !turn_finishes(
                    #[trigger] final(self).turn_log()[j],
                )) && run_result(final(self).turn_log(), old(self)@.max_iterations as nat) == (
                AgentState::Error,
                old(self)@.max_iterations as nat,
            ),
            old(events)@.is_prefix_of(final(events)@),
            final(events)@.len() > old(events)@.len(),
            final(events)@[old(events)@.len() as int] is Started,
            r is Ok ==> (final(events)@.last() matches AgentEvent::Finished { response }
                && response@ == turns_text(final(self).turn_log())),
            r is Err && !final(self).run_aborted() ==> final(events)@.last() is Failed,
            r is Ok || (r is Err && !final(self).run_aborted()) ==> turns_events_ok(
                final(self).turn_log(),
                events_view(final(events)@).subrange(
                    old(events)@.len() + 1 as int,
                    events_view(final(events)@).len() - 1,
                ),
            ),
            final(self)@.system_prompt == old(self)@.system_prompt,
            final(self)@.disallowed_tools == old(self)@.disallowed_tools,
            final(self)@.max_iterations == old(self)@.max_iterations,
    {
        self.state = AgentState::Running;
        self.turns = Ghost(Seq::empty());
        self.aborted = Ghost(false);
        self.conversation.push(Message::user(prompt));
        let ghost base = old(self)@.conversation.push(text_message_rep(Role::User, prompt@));
        let ghost base_len = old(self)@.conversation.len() + 1;
        proof {
            assert(msgs_view(self.conversation@) =~= base);
            assert(old(self)@.conversation.is_prefix_of(base));
            assert(old(self)@.conversation.is_prefix_of(self@.conversation));
            assert(self@.conversation.skip(base_len as int) =~= Seq::<MessageRep>::empty());
        }
        let ghost evs0 = events@;
        let ghost estart = old(events)@.len() + 1;
        let ghost mut eacc = Seq::<EventRep>::empty();
        events.push(AgentEvent::Started);
        proof {
            assert(evs0.is_prefix_of(events@)) by {
                assert(events@.subrange(0, evs0.len() as int) =~= evs0);
            }
            assert(events@[evs0.len() as int] is Started);
            assert(events_view(events@).skip(estart as int) =~= eacc);
        }

        let mut iterations: usize = 0;
        let mut final_response = String::new();
        let max_iterations = self.config.max_iterations;

        while iterations < max_iterations && self.state_is_running()
            invariant
                self.client_wf(),
                max_iterations == old(self)@.max_iterations,
                base_len == old(self)@.conversation.len() + 1,
                base.len() == base_len,
                old(self)@.conversation.is_prefix_of(self@.conversation),
                base.is_prefix_of(self@.conversation),
                self@.conversation.len() >= base_len,
                self@.conversation[old(self)@.conversation.len() as int] == text_message_rep(
                    Role::User,
                    prompt@,
                ),
                self@.system_prompt == old(self)@.system_prompt,
                self@.disallowed_tools == old(self)@.disallowed_tools,
                self@.max_iterations == old(self)@.max_iterations,
                self@.state == AgentState::Running || self@.state == AgentState::Done,
                iterations <= max_iterations,
                self.turns@.len() == iterations,
                self.aborted@ == false,
                turns_messages_ok(self.turns@, self@.conversation.skip(base_len as int)),
                final_response@ == turns_text(self.turns@),
                self@.state == AgentState::Running ==> forall|j: int|
                    0 <= j < self.turns@.len() ==> !turn_finishes(#[trigger] self.turns@[j]),
                self@.state == AgentState::Done ==> self.turns@.len() >= 1 && turn_finishes(
                    self.turns@.last(),
                ) && (forall|j: int|
                    0 <= j < self.turns@.len() - 1 ==> !turn_finishes(#[trigger] self.turns@[j])),
                evs0 == old(events)@,
                evs0.is_prefix_of(events@),
                events@.len() > evs0.len(),
                events@[evs0.len() as int] is Started,
                estart == old(events)@.len() + 1,
                events_view(events@).len() == estart + eacc.len(),
                events_view(events@).skip(estart as int) == eacc,
                turns_events_ok(self.turns@, eacc),
            decreases max_iterations - iterations,
        {
            iterations = iterations + 1;
            let ghost emark = events_view(events@).len();
            let ghost evs = events@;
            events.push(AgentEvent::LlmCall { iteration: iterations });
            proof {
                lemma_prefix_push(evs0, evs, events@.last());
                assert(events_view(events@) =~= events_view(evs).push(
                    EventRep::LlmCall { iteration: iterations as int },
                ));
                assert(events_view(events@)[emark as int] == (EventRep::LlmCall {
                    iteration: iterations as int,
                }));
            }

            let tools = match self.get_available_tools() {
                Ok(ts) => ts,
                Err(e) => {
                    self.state = AgentState::Error;
                    self.aborted = Ghost(true);
                    return Err(e);
                },
            };
            let messages = clone_messages(&self.conversation);
            let llm_response = match self.llm.call(&messages, tools) {
                Ok(resp) => resp,
                Err(e) => {
                    self.state = AgentState::Error;
                    self.aborted = Ghost(true);
                    return Err(Error::LLMError(e.message()));
                },
            };
            let ghost bv = blocks_view(llm_response.content@);
            let ghost turn = TurnRep { content: bv, stop_reason: llm_response.stop_reason };
            let ghost prev_turns = self.turns@;
            self.turns = Ghost(prev_turns.push(turn));
            let ghost prefix_msgs = self@.conversation.skip(base_len as int);
            let ghost mark = base_len + prefix_msgs.len();
            proof {
                assert(mark == self@.conversation.len());
                assert(self@.conversation.skip(base_len as int).take(prefix_msgs.len() as int)
                    =~= prefix_msgs);
                assert(events_view(events@).skip(emark as int + 1) =~= Seq::<EventRep>::empty());
            }

            let mut has_tool_use = false;
            let mut assistant_message_added = false;
            let mut b: usize = 0;
            while b < llm_response.content.len()
                invariant
                    self.client_wf(),
                    base_len == old(self)@.conversation.len() + 1,
                    base.len() == base_len,
                    old(self)@.conversation.is_prefix_of(self@.conversation),
                    base.is_prefix_of(self@.conversation),
                    self@.conversation.len() >= base_len,
                    self@.conversation[old(self)@.conversation.len() as int] == text_message_rep(
                        Role::User,
                        prompt@,
                    ),
                    self@.system_prompt == old(self)@.system_prompt,
                    self@.disallowed_tools == old(self)@.disallowed_tools,
                    self@.max_iterations == old(self)@.max_iterations,
                    self@.state == AgentState::Running,
                    b <= llm_response.content@.len(),
                    bv == blocks_view(llm_response.content@),
                    turn == (TurnRep { content: bv, stop_reason: llm_response.stop_reason }),
                    self.turns@ == prev_turns.push(turn),
                    prev_turns.len() + 1 <= max_iterations,
                    max_iterations == old(self)@.max_iterations,
                    iterations == prev_turns.len() + 1,
                    self.aborted@ == false,
                    mark == base_len + prefix_msgs.len(),
                    mark <= self@.conversation.len(),
                    self@.conversation.skip(base_len as int).take(prefix_msgs.len() as int)
                        == prefix_msgs,
                    turns_messages_ok(prev_turns, prefix_msgs),
                    forall|j: int| 0 <= j < prev_turns.len() ==> !turn_finishes(
                        #[trigger] prev_turns[j],
                    ),
                    has_tool_use == turn_has_tool_use(bv.take(b as int)),
                    assistant_message_added == has_tool_use,
                    !has_tool_use ==> self@.conversation.len() == mark,
                    has_tool_use ==> ({
                        let cur = self@.conversation.skip(mark as int);
                        let ids = tool_use_ids(bv.take(b as int));
                        cur.len() == 1 + ids.len() && cur[0] == (MessageRep {
                            role: Role::Assistant,
                            content: bv,
                        }) && forall|i: int|
                            0 <= i < ids.len() ==> is_correlated_result(
                                #[trigger] cur[i + 1],
                                ids[i],
                            )
                    }),
                    final_response@ == turns_text(prev_turns) + turn_text(bv.take(b as int)),
                    evs0 == old(events)@,
                    evs0.is_prefix_of(events@),
                    events@.len() > evs0.len(),
                    events@[evs0.len() as int] is Started,
                    estart == old(events)@.len() + 1,
                    emark == estart + eacc.len(),
                    events_view(events@).len() > emark,
                    events_view(events@).subrange(estart as int, emark as int) == eacc,
                    turns_events_ok(prev_turns, eacc),
                    events_view(events@)[emark as int] == (EventRep::LlmCall {
                        iteration: iterations as int,
                    }),
                    blocks_events_ok(
                        bv.take(b as int),
                        events_view(events@).skip(emark as int + 1),
                    ),
                decreases llm_response.content@.len() - b,
            {
                proof {
                    lemma_tool_use_step(bv, b as int);
                    lemma_tool_use_ids_step(bv, b as int);
                    lemma_turn_text_step(bv, b as int);
                }
                let ghost eseg = events_view(events@).skip(emark as int + 1);
                match &llm_response.content[b] {
                    ContentBlock::Text { text } => {
                        final_response.append(text.as_str());
                        let ghost evs = events@;
                        events.push(AgentEvent::TextChunk { text: text.clone() });
                        proof {
                            lemma_prefix_push(evs0, evs, events@.last());
                            assert(final_response@ =~= turns_text(prev_turns) + turn_text(
                                bv.take(b as int + 1),
                            ));
                            assert(events_view(events@) =~= events_view(evs).push(
                                EventRep::TextChunk { text: text@ },
                            ));
                            assert(events_view(events@).subrange(estart as int, emark as int)
                                =~= eacc);
                            let eseg2 = events_view(events@).skip(emark as int + 1);
                            assert(eseg2.take(eseg.len() as int) =~= eseg);
                            assert(eseg2.skip(eseg.len() as int) =~= seq![
                                EventRep::TextChunk { text: text@ },
                            ]);
                            assert(bv.take(b as int + 1).drop_last() =~= bv.take(b as int));
                            assert(bv.take(b as int + 1).last() == bv[b as int]);
                            assert(blocks_events_ok(bv.take(b as int + 1), eseg2));
                        }
                    },
                    ContentBlock::ToolUse { id, name, input } => {
                        has_tool_use = true;
                        self.state = AgentState::WaitingForToolResult;
                        let ghost evs = events@;
                        events.push(AgentEvent::ToolCallStarted { tool_name: name.clone() });
                        proof {
                            lemma_prefix_push(evs0, evs, events@.last());
                            assert(events_view(events@) =~= events_view(evs).push(
                                EventRep::ToolCallStarted { tool_name: name@ },
                            ));
                        }

                        if !assistant_message_added {
                            let ghost before = msgs_view(self.conversation@);
                            self.conversation.push(
                                Message {
                                    role: Role::Assistant,
                                    content: clone_blocks(&llm_response.content),
                                },
                            );
                            assistant_message_added = true;
                            proof {
                                lemma_tool_use_ids_nonempty(bv.take(b as int));
                                assert(msgs_view(self.conversation@) =~= before.push(
                                    self.conversation@.last()@,
                                ));
                                lemma_prefix_push(base, before, self.conversation@.last()@);
                                lemma_prefix_push(
                                    old(self)@.conversation,
                                    before,
                                    self.conversation@.last()@,
                                );
                                assert(self@.conversation.skip(base_len as int).take(
                                    prefix_msgs.len() as int,
                                ) =~= prefix_msgs);
                                assert(self@.conversation.skip(mark as int) =~= seq![
                                    MessageRep { role: Role::Assistant, content: bv },
                                ]);
                            }
                        }

                        let ghost before = msgs_view(self.conversation@);
                        match self.client.call_tool(name.as_str(), input.deep_copy()) {
                            Ok(tool_result) => {
                                let result_text = joined_texts(&tool_result.content);
                                let ghost evs = events@;
                                events.push(
                                    AgentEvent::ToolCallCompleted {
                                        tool_name: name.clone(),
                                        result: result_text,
                                    },
                                );
                                proof {
                                    lemma_prefix_push(evs0, evs, events@.last());
                                    assert(events_view(events@) =~= events_view(evs).push(
                                        events@.last()@,
                                    ));
                                }
                                self.conversation.push(
                                    Message {
                                        role: Role::User,
                                        content: vec![
                                            ContentBlock::ToolResult {
                                                tool_use_id: id.clone(),
                                                content: tool_result.content,
                                                is_error: tool_result.is_error,
                                            },
                                        ],
                                    },
                                );
                            },
                            Err(e) => {
                                let error_text = e.message();
                                let ghost evs = events@;
                                events.push(
                                    AgentEvent::ToolCallFailed {
                                        tool_name: name.clone(),
                                        error: error_text.clone(),
                                    },
                                );
                                proof {
                                    lemma_prefix_push(evs0, evs, events@.last());
                                    assert(events_view(events@) =~= events_view(evs).push(
                                        events@.last()@,
                                    ));
                                }
                                let mut flagged = String::from_str("Error: ");
                                flagged.append(error_text.as_str());
                                self.conversation.push(
                                    Message {
                                        role: Role::User,
                                        content: vec![
                                            ContentBlock::ToolResult {
                                                tool_use_id: id.clone(),
                                                content: vec![
                                                    ResultContent::Text { text: flagged },
                                                ],
                                                is_error: Some(true),
                                            },
                                        ],
                                    },
                                );
                            },
                        }
                        proof {
                            assert(msgs_view(self.conversation@) =~= before.push(
                                self.conversation@.last()@,
                            ));
                            lemma_prefix_push(base, before, self.conversation@.last()@);
                            lemma_prefix_push(
                                old(self)@.conversation,
                                before,
                                self.conversation@.last()@,
                            );
                            assert(self@.conversation.skip(base_len as int).take(
                                prefix_msgs.len() as int,
                            ) =~= prefix_msgs);
                            let cur = self@.conversation.skip(mark as int);
                            let ids = tool_use_ids(bv.take(b as int + 1));
                            assert(cur =~= before.skip(mark as int).push(
                                self.conversation@.last()@,
                            ));
                            assert(self.conversation@.last()@.content.len() == 1);
                            assert(is_correlated_result(self.conversation@.last()@, id@)) by {
                                assert(self.conversation@.last()@.content[0]
                                    == self.conversation@.last().content@[0]@);
                            }
                            assert(cur.len() == 1 + ids.len());
                            assert forall|i: int| 0 <= i < ids.len() implies is_correlated_result(
                                #[trigger] cur[i + 1],
                                ids[i],
                            ) by {
                                if i < ids.len() - 1 {
                                    assert(cur[i + 1] == before.skip(mark as int)[i + 1]);
                                    assert(ids[i] == tool_use_ids(bv.take(b as int))[i]);
                                } else {
                                    assert(cur[i + 1] == self.conversation@.last()@);
                                    assert(ids[i] == id@);
                                }
                            }
                            assert(events_view(events@).subrange(estart as int, emark as int)
                                =~= eacc);
                            let eseg2 = events_view(events@).skip(emark as int + 1);
                            assert(eseg2.take(eseg.len() as int) =~= eseg);
                            assert(eseg2.skip(eseg.len() as int).len() == 2);
                            assert(eseg2.skip(eseg.len() as int)[0] == (EventRep::ToolCallStarted {
                                tool_name: name@,
                            }));
                            assert(block_events_ok(bv[b as int], eseg2.skip(eseg.len() as int)));
                            assert(bv.take(b as int + 1).drop_last() =~= bv.take(b as int));
                            assert(bv.take(b as int + 1).last() == bv[b as int]);
                            assert(blocks_events_ok(bv.take(b as int + 1), eseg2));
                        }

                        self.state = AgentState::Running;
                    },
                    _ => {
                        proof {
                            assert(eseg.take(eseg.len() as int) =~= eseg);
                            assert(eseg.skip(eseg.len() as int) =~= Seq::<EventRep>::empty());
                            assert(bv.take(b as int + 1).drop_last() =~= bv.take(b as int));
                            assert(bv.take(b as int + 1).last() == bv[b as int]);
                            assert(blocks_events_ok(bv.take(b as int + 1), eseg));
                        }
                    },
                }
                b = b + 1;
            }

            let ghost evs_done = events@;
            events.push(AgentEvent::IterationComplete { iteration: iterations });
            proof {
                lemma_prefix_push(evs0, evs_done, events@.last());
                assert(events_view(events@) =~= events_view(evs_done).push(
                    EventRep::IterationComplete { iteration: iterations as int },
                ));
                assert(bv.take(llm_response.content@.len() as int) =~= bv);
                assert((!has_tool_use || llm_response.stop_reason == StopReason::EndTurn)
                    == turn_finishes(turn));
                lemma_tool_use_ids_nonempty(bv);
            }
            if !has_tool_use || stop_reason_is_end_turn(llm_response.stop_reason) {
                if !assistant_message_added {
                    let ghost before = msgs_view(self.conversation@);
                    self.conversation.push(
                        Message { role: Role::Assistant, content: llm_response.content },
                    );
                    proof {
                        assert(msgs_view(self.conversation@) =~= before.push(
                            self.conversation@.last()@,
                        ));
                        lemma_prefix_push(base, before, self.conversation@.last()@);
                        lemma_prefix_push(
                            old(self)@.conversation,
                            before,
                            self.conversation@.last()@,
                        );
                        assert(self@.conversation.skip(base_len as int).take(
                            prefix_msgs.len() as int,
                        ) =~= prefix_msgs);
                        assert(self@.conversation.skip(mark as int) =~= seq![
                            MessageRep { role: Role::Assistant, content: bv },
                        ]);
                    }
                }
                self.state = AgentState::Done;
            }
            proof {
                let delta = self@.conversation.skip(base_len as int);
                let cur = self@.conversation.skip(mark as int);
                assert(delta.take(prefix_msgs.len() as int) == prefix_msgs);
                assert(delta.skip(prefix_msgs.len() as int) =~= cur);
                assert(turn_delta_ok(bv, cur));
                assert(self.turns@.drop_last() =~= prev_turns);
                assert(self.turns@.last() == turn);
                assert(turns_messages_ok(self.turns@, delta));
                assert(turns_text(self.turns@) =~= turns_text(prev_turns) + turn_text(bv));
                let eseg_full = events_view(events@).skip(emark as int);
                assert(events_view(events@).subrange(estart as int, emark as int) =~= eacc);
                assert(eseg_full[0] == (EventRep::LlmCall { iteration: iterations as int }));
                assert(eseg_full.last() == (EventRep::IterationComplete {
                    iteration: iterations as int,
                }));
                assert(eseg_full.subrange(1, eseg_full.len() - 1) =~= events_view(
                    evs_done,
                ).skip(emark as int + 1));
                assert(turn_events_ok(bv, iterations as int, eseg_full));
                let eacc2 = eacc + eseg_full;
                assert(eacc2.take(eacc.len() as int) =~= eacc);
                assert(eacc2.skip(eacc.len() as int) =~= eseg_full);
                assert(self.turns@.len() as int == iterations as int);
                assert(turns_events_ok(self.turns@, eacc2));
                assert(events_view(events@).skip(estart as int) =~= eacc2);
                eacc = eacc2;
            }
        }

        if !self.state_is_done() {
            self.state = AgentState::Error;
            let message = String::from_str("Max iterations reached");
            let ghost evs = events@;
            events.push(AgentEvent::Failed { error: message.clone() });
            proof {
                lemma_prefix_push(evs0, evs, events@.last());
                assert(events_view(events@) =~= events_view(evs).push(events@.last()@));
                assert(events_view(events@).subrange(
                    estart as int,
                    events_view(events@).len() - 1,
                ) =~= eacc);
                lemma_prefix_index(base, self@.conversation, old(self)@.conversation.len() as int);
                lemma_always_requesting_tools_exhausts_budget(
                    self.turns@,
                    max_iterations as nat,
                );
            }
            return Err(Error::InternalError(message));
        }
        let ghost evs = events@;
        events.push(AgentEvent::Finished { response: final_response.clone() });
        proof {
            lemma_prefix_push(evs0, evs, events@.last());
            assert(events_view(events@) =~= events_view(evs).push(events@.last()@));
            assert(events_view(events@).subrange(estart as int, events_view(events@).len() - 1)
                =~= eacc);
            lemma_prefix_index(base, self@.conversation, old(self)@.conversation.len() as int);
            lemma_run_result_finishes(self.turns@, max_iterations as nat);
        }
        Ok(final_response)
    }

    /// Whether the loop should keep iterating.
    fn state_is_running(&self) -> (r: bool)
        ensures
            r == (self@.state == AgentState::Running),
    {
        match self.state {
            AgentState::Running => true,
            _ => false,
        }
    }

    /// Whether the run reached `Done`.
    fn state_is_done(&self) -> (r: bool)
        ensures
            r == (self@.state == AgentState::Done),
    {
        match self.state {
            AgentState::Done => true,
            _ => false,
        }
    }
}


/// The text pieces of a tool result, joined with line breaks.
fn joined_texts(content: &Vec<ResultContent>) -> (r: String) {
    let mut out = String::new();
    let mut first = true;
    let mut i: usize = 0;
    while i < content.len()
        decreases content@.len() - i,
    {
        match &content[i] {
            ResultContent::Text { text } => {
                if !first {
                    out.append("\n");
                }
                out.append(text.as_str());
                first = false;
            },
            _ => {},
        }
        i = i + 1;
    }
    out
}

/// Whether the stop reason signals end-of-turn.
fn stop_reason_is_end_turn(s: StopReason) -> (r: bool)
    ensures
        r == (s == StopReason::EndTurn),
{
    match s {
        StopReason::EndTurn => true,
        _ => false,
    }
}

/// A prefix survives a push at the far end.
proof fn lemma_prefix_push<A>(base: Seq<A>, s: Seq<A>, m: A)
    requires
        base.is_prefix_of(s),
    ensures
        base.is_prefix_of(s.push(m)),
{
    assert(s.push(m).subrange(0, base.len() as int) =~= s.subrange(0, base.len() as int));
}

/// A prefix's entries stand unchanged in the longer sequence.
proof fn lemma_prefix_index<A>(base: Seq<A>, s: Seq<A>, i: int)
    requires
        base.is_prefix_of(s),
        0 <= i < base.len(),
    ensures
        s[i] == base[i],
{
    assert(s.subrange(0, base.len() as int)[i] == s[i]);
}

} // verus!

//! The agent vertex: a language model that is asked again and again, with
//! tool results fed back to it, until a stop condition holds.
//!
//! The vertex decides what the model is asked and what follows from each
//! answer: [`AgentVertex::begin`] opens the conversation, and
//! [`AgentVertex::advance`] takes one answer (or the failure to get one) and
//! says whether to ask again. A caller that has to wait for its model runs
//! these steps itself. For a model that answers without waiting,
//! [`AgentVertex::compute`] is the whole compute call.

use std::marker::PhantomData;
use vstd::prelude::*;
use crate::json::{json_string_text, json_text, string_value, value_to_text};
use crate::llm::{LLMConfig, LLMProvider, LLMResponse};
use crate::middleware::ToolDefinition;
use crate::pregel::error::PregelError;
use crate::pregel::message::{Priority, WorkflowMessage};
use crate::pregel::state::{StateUpdate, WorkflowState};
use crate::pregel::vertex::{ComputeContext, ComputeResult, VertexId, VertexState};
use crate::state::{Message, Role, ToolCall};
use crate::text::{str_contains, text_contains};
use crate::workflow::node::{AgentNodeConfig, StopCondition};

verus! {

/// Whether one of the tool calls asks for the tool `name`.
pub open spec fn calls_tool(calls: Seq<ToolCall>, name: Seq<char>) -> bool {
    exists|j: int| 0 <= j < calls.len() && (#[trigger] calls[j]).name@ == name
}

/// Whether one stop condition holds of an answer of the model, given how
/// many answers came before it.
pub open spec fn condition_met(condition: StopCondition, message: Message, iteration: usize) -> bool {
    match condition {
        StopCondition::NoToolCalls => message.calls().len() == 0,
        StopCondition::OnTool { tool_name } => calls_tool(message.calls(), tool_name@),
        StopCondition::ContainsText { pattern } => text_contains(message.content@, pattern@),
        StopCondition::MaxIterations { count } => iteration >= count,
        StopCondition::StateMatch { .. } => false,
    }
}

/// Whether any of the stop conditions holds.
pub open spec fn any_condition_met(
    conditions: Seq<StopCondition>,
    message: Message,
    iteration: usize,
) -> bool {
    exists|i: int|
        0 <= i < conditions.len() && condition_met(#[trigger] conditions[i], message, iteration)
}

/// Whether `name` is among `names`.
pub open spec fn names_hold(names: Seq<String>, name: Seq<char>) -> bool {
    exists|i: int| 0 <= i < names.len() && (#[trigger] names[i])@ == name
}

/// The tools whose names are among `allowed`, in their order.
pub open spec fn permitted_tools(tools: Seq<ToolDefinition>, allowed: Seq<String>) -> Seq<
    ToolDefinition,
>
    decreases tools.len(),
{
    if tools.len() == 0 {
        Seq::empty()
    } else {
        let earlier = permitted_tools(tools.drop_last(), allowed);
        if names_hold(allowed, tools.last().name@) {
            earlier.push(tools.last())
        } else {
            earlier
        }
    }
}

/// The conversation of one compute call, and how many answers of the model
/// have been read without a stop.
#[derive(Debug)]
pub struct AgentRun {
    pub messages: Vec<Message>,
    pub iteration: usize,
}

/// What follows from one answer of the model.
#[derive(Debug)]
pub enum AgentStep<U> {
    /// The model is to be asked again, with the conversation as it now is.
    Continue,
    /// The compute call is over.
    Finished(ComputeResult<U>),
    /// The compute call has failed.
    Failed(PregelError),
}

/// An agent vertex that uses a language model to process messages and call
/// tools.
pub struct AgentVertex<S: WorkflowState> {
    id: VertexId,
    config: AgentNodeConfig,
    tools: Vec<ToolDefinition>,
    _phantom: PhantomData<S>,
}

impl<S: WorkflowState> AgentVertex<S> {
    pub closed spec fn vertex_id(&self) -> VertexId {
        self.id
    }

    pub closed spec fn settings(&self) -> AgentNodeConfig {
        self.config
    }

    /// The tools that the vertex was given.
    pub closed spec fn offered(&self) -> Seq<ToolDefinition> {
        self.tools@
    }

    /// Create a new agent vertex.
    pub fn new(id: VertexId, config: AgentNodeConfig, tools: Vec<ToolDefinition>) -> (vertex: Self)
        ensures
            vertex.vertex_id() == id,
            vertex.settings() == config,
            vertex.offered() == tools@,
    {
        AgentVertex { id, config, tools, _phantom: PhantomData }
    }

    pub fn id(&self) -> (id: &VertexId)
        ensures
            *id == self.vertex_id(),
    {
        &self.id
    }

    pub fn config(&self) -> (config: &AgentNodeConfig)
        ensures
            *config == self.settings(),
    {
        &self.config
    }

    /// Check if any stop condition is met.
    pub fn check_stop_conditions(&self, message: &Message, iteration: usize) -> (stop: bool)
        ensures
            stop == any_condition_met(self.settings().stop_conditions@, *message, iteration),
    {
        let conditions = &self.config.stop_conditions;
        let mut i: usize = 0;
        while i < conditions.len()
            invariant
                i <= conditions.len(),
                *conditions == self.config.stop_conditions,
                forall|k: int|
                    0 <= k < i ==> !condition_met(#[trigger] conditions@[k], *message, iteration),
            decreases conditions.len() - i,
        {
            let met = match &conditions[i] {
                StopCondition::NoToolCalls => match &message.tool_calls {
                    None => true,
                    Some(calls) => calls.len() == 0,
                },
                StopCondition::OnTool { tool_name } => match &message.tool_calls {
                    None => false,
                    Some(calls) => asks_for(calls, tool_name),
                },
                StopCondition::ContainsText { pattern } => str_contains(
                    message.content.as_str(),
                    pattern.as_str(),
                ),
                StopCondition::MaxIterations { count } => iteration >= *count,
                StopCondition::StateMatch { .. } => false,
            };
            assert(met == condition_met(conditions@[i as int], *message, iteration));
            if met {
                return true;
            }
            i += 1;
        }
        false
    }

    /// The tools that the model is shown: those on the allowed list, or all
    /// of them where there is no list.
    pub open spec fn shown_tools(&self) -> Seq<ToolDefinition> {
        match self.settings().allowed_tools {
            Some(allowed) => permitted_tools(self.offered(), allowed@),
            None => self.offered(),
        }
    }

    /// Filter tools based on allowed list.
    pub fn filter_tools(&self) -> (shown: Vec<ToolDefinition>)
        ensures
            shown@ == self.shown_tools(),
    {
        let mut shown: Vec<ToolDefinition> = Vec::new();
        let mut i: usize = 0;
        while i < self.tools.len()
            invariant
                i <= self.tools.len(),
                shown@ == (match self.config.allowed_tools {
                    Some(allowed) => permitted_tools(self.tools@.take(i as int), allowed@),
                    None => self.tools@.take(i as int),
                }),
            decreases self.tools.len() - i,
        {
            let ghost next = self.tools@.take(i + 1);
            assert(next.drop_last() =~= self.tools@.take(i as int));
            assert(next.last() == self.tools@[i as int]);
            assert(next =~= self.tools@.take(i as int).push(self.tools@[i as int]));
            let keep = match &self.config.allowed_tools {
                Some(allowed) => holds_name(allowed, &self.tools[i].name),
                None => true,
            };
            if keep {
                shown.push(self.tools[i].clone());
            }
            i += 1;
        }
        assert(self.tools@.take(i as int) =~= self.tools@);
        shown
    }

    /// Whether `built` is the model settings that go with the agent's
    /// configuration: none without a temperature, else settings that name no
    /// model and carry the temperature.
    pub open spec fn is_built(&self, built: Option<LLMConfig>) -> bool {
        &&& built is Some <==> self.settings().temperature is Some
        &&& built matches Some(config) ==> config.model@.len() == 0 && config.temperature
            == self.settings().temperature
    }

    /// Build LLM config from agent config: none without a temperature, else
    /// one that names no model and carries the temperature.
    pub fn build_llm_config(&self) -> (built: Option<LLMConfig>)
        ensures
            self.is_built(built),
    {
        match self.config.temperature {
            Some(temperature) => {
                let config = LLMConfig::new("");
                proof {
                    reveal_strlit("");
                }
                Some(config.with_temperature(temperature))
            },
            None => None,
        }
    }

    /// The failure of an agent that has used up its iterations.
    pub open spec fn is_exhaustion(&self, error: PregelError) -> bool {
        error matches PregelError::VertexError { vertex_id, message, retryable }
            && vertex_id == self.vertex_id() && message@ == "Max iterations reached"@
            && !retryable
    }

    fn exhaustion(&self) -> (error: PregelError)
        ensures
            self.is_exhaustion(error),
    {
        PregelError::vertex_error(self.id.clone(), "Max iterations reached")
    }

    /// The conversation before the first answer: the system prompt, then one
    /// user message for each message in the mailbox, holding the JSON text of
    /// its payload; or, for an empty mailbox, one user message that asks the
    /// model to begin.
    pub open spec fn is_opening(&self, history: Seq<Message>, ctx: ComputeContext<'_, S>) -> bool {
        let inbox = ctx.messages@;
        &&& history.len() == 1 + (if inbox.len() == 0 {
            1
        } else {
            inbox.len()
        })
        &&& history[0].is_plain(Role::System, self.settings().system_prompt@)
        &&& inbox.len() == 0 ==> history[1].is_plain(Role::User, "Begin processing."@)
        &&& forall|i: int|
            0 <= i < inbox.len() ==> (#[trigger] history[1 + i]).is_plain(
                Role::User,
                json_text(inbox[i].message.payload()),
            )
    }

    /// Opens the conversation of one compute call. Fails at once where the
    /// configuration allows no iteration.
    pub fn begin(&self, ctx: &ComputeContext<'_, S>) -> (opened: Result<AgentRun, PregelError>)
        ensures
            opened is Ok <==> self.settings().max_iterations > 0,
            opened matches Ok(run) ==> run.iteration == 0 && self.is_opening(run.messages@, *ctx),
            opened matches Err(error) ==> self.is_exhaustion(error),
    {
        if self.config.max_iterations == 0 {
            return Err(self.exhaustion());
        }
        let mut messages: Vec<Message> = Vec::new();
        messages.push(Message::system(self.config.system_prompt.as_str()));
        let mut i: usize = 0;
        while i < ctx.messages.len()
            invariant
                i <= ctx.messages.len(),
                messages@.len() == 1 + i,
                messages@[0].is_plain(Role::System, self.config.system_prompt@),
                forall|k: int|
                    0 <= k < i ==> (#[trigger] messages@[1 + k]).is_plain(
                        Role::User,
                        json_text(ctx.messages@[k].message.payload()),
                    ),
            decreases ctx.messages.len() - i,
        {
            let text = value_to_text(ctx.messages[i].message.value());
            messages.push(Message::user(text.as_str()));
            i += 1;
        }
        if messages.len() == 1 {
            messages.push(Message::user("Begin processing."));
        }
        Ok(AgentRun { messages, iteration: 0 })
    }

    /// Whether an answer ends the compute call: a stop condition holds of it,
    /// or it asks for no tool.
    pub open spec fn ends_run(&self, answer: Message, iteration: usize) -> bool {
        any_condition_met(self.settings().stop_conditions@, answer, iteration)
            || answer.tool_calls is None
    }

    /// The conversation `after` is `before`, then the answer, then one tool
    /// result for each tool call of the answer, in their order.
    pub open spec fn is_fed_back(before: Seq<Message>, answer: Message, after: Seq<Message>) -> bool {
        let calls = answer.calls();
        &&& after.len() == before.len() + 1 + calls.len()
        &&& after.take(before.len() + 1int) == before.push(answer)
        &&& forall|j: int|
            0 <= j < calls.len() ==> (#[trigger] after[before.len() + 1 + j]).is_tool_result(
                "Tool executed successfully"@,
                calls[j].id@,
            )
    }

    /// Takes the outcome of asking the model once: its answer, or the text of
    /// the failure.
    ///
    /// - A run that has no iteration left fails, and so does one whose model
    ///   failed; the latter failure is transient.
    /// - An answer that ends the run is sent on under the label `output`, as
    ///   the JSON string of its text with the key `response`, and the vertex
    ///   halts with the empty update.
    /// - Any other answer has its tool calls answered in the conversation,
    ///   and the model is asked again unless the iterations are used up.
    pub fn advance(
        &self,
        run: &mut AgentRun,
        ctx: &mut ComputeContext<'_, S>,
        reply: Result<LLMResponse, String>,
    ) -> (step: AgentStep<S::Update>)
        ensures
            old(run).iteration >= self.settings().max_iterations ==> {
                &&& step matches AgentStep::Failed(error) && self.is_exhaustion(error)
                &&& *final(run) == *old(run)
                &&& *final(ctx) == *old(ctx)
            },
            old(run).iteration < self.settings().max_iterations ==> (match reply {
                Err(text) => {
                    &&& step matches AgentStep::Failed(
                        PregelError::VertexError { vertex_id, message, retryable },
                    ) && vertex_id == self.vertex_id() && message == text && retryable
                    &&& *final(run) == *old(run)
                    &&& *final(ctx) == *old(ctx)
                },
                Ok(response) => if self.ends_run(response.message, old(run).iteration) {
                    &&& step matches AgentStep::Finished(result) && result.state
                        == VertexState::Halted && result.update.is_neutral()
                    &&& final(run).messages@ == old(run).messages@.push(response.message)
                    &&& final(run).iteration == old(run).iteration
                    &&& final(ctx).sent_one(
                        *old(ctx),
                        "output"@,
                        "response"@,
                        json_string_text(response.message.content@),
                        Priority::Normal,
                    )
                } else {
                    &&& Self::is_fed_back(
                        old(run).messages@,
                        response.message,
                        final(run).messages@,
                    )
                    &&& final(run).iteration == old(run).iteration + 1
                    &&& *final(ctx) == *old(ctx)
                    &&& final(run).iteration < self.settings().max_iterations ==> step
                        is Continue
                    &&& final(run).iteration >= self.settings().max_iterations ==> (
                    step matches AgentStep::Failed(error) && self.is_exhaustion(error))
                },
            }),
    {
        if run.iteration >= self.config.max_iterations {
            return AgentStep::Failed(self.exhaustion());
        }
        match reply {
            Err(text) => AgentStep::Failed(
                PregelError::VertexError {
                    vertex_id: self.id.clone(),
                    message: text,
                    retryable: true,
                },
            ),
            Ok(response) => {
                let answer = response.message;
                let stop = self.check_stop_conditions(&answer, run.iteration);
                if stop || answer.tool_calls.is_none() {
                    let content = answer.content.clone();
                    run.messages.push(answer);
                    ctx.send_message(
                        "output",
                        WorkflowMessage::data("response", string_value(content)),
                    );
                    AgentStep::Finished(ComputeResult::halt(S::Update::empty()))
                } else {
                    let results = match &answer.tool_calls {
                        Some(calls) => tool_results(calls),
                        None => Vec::new(),
                    };
                    let ghost before = run.messages@;
                    run.messages.push(answer);
                    let mut results = results;
                    let ghost fed = results@;
                    run.messages.append(&mut results);
                    assert(run.messages@ =~= before.push(answer) + fed);
                    assert(run.messages@.take(before.len() + 1int) =~= before.push(answer));
                    run.iteration = run.iteration + 1;
                    if run.iteration < self.config.max_iterations {
                        AgentStep::Continue
                    } else {
                        AgentStep::Failed(self.exhaustion())
                    }
                }
            },
        }
    }

    /// Whether `reply` is what the model gave when the vertex asked it on
    /// the conversation `conversation`: with the tools that the model is
    /// shown and the settings built from the configuration.
    pub open spec fn asked<L: LLMProvider>(
        &self,
        llm: &L,
        conversation: Seq<Message>,
        reply: Result<LLMResponse, String>,
    ) -> bool {
        exists|messages: &[Message], tools: &[ToolDefinition], config: Option<&LLMConfig>|
            messages@ == conversation && tools@ == self.shown_tools() && self.is_built(
                match config {
                    Some(given) => Some(*given),
                    None => None,
                },
            ) && #[trigger] call_ensures(L::complete, (llm, messages, tools, config), reply)
    }

    /// Whether `conversations` and `replies` are the course of one compute
    /// call up to its last reply: the model was asked at least once and no
    /// more often than the configuration allows; the first conversation is
    /// the opening; each reply is what the model gave on the conversation
    /// of the same number; and every reply but the last was an answer that
    /// did not end the call, and was fed back into the next conversation.
    pub open spec fn is_course<L: LLMProvider>(
        &self,
        llm: &L,
        ctx: ComputeContext<'_, S>,
        conversations: Seq<Seq<Message>>,
        replies: Seq<Result<LLMResponse, String>>,
    ) -> bool {
        &&& 1 <= replies.len() <= self.settings().max_iterations
        &&& conversations.len() == replies.len()
        &&& self.is_opening(conversations[0], ctx)
        &&& forall|i: int|
            0 <= i < replies.len() ==> self.asked(llm, conversations[i], #[trigger] replies[i])
        &&& forall|i: int|
            0 <= i < replies.len() - 1 ==> Self::goes_on(
                self,
                conversations[i],
                #[trigger] replies[i],
                i,
                conversations[i + 1],
            )
    }

    /// Whether the reply of number `at` is an answer that does not end the
    /// compute call, and `next` is the conversation with it fed back.
    pub open spec fn goes_on(
        &self,
        conversation: Seq<Message>,
        reply: Result<LLMResponse, String>,
        at: int,
        next: Seq<Message>,
    ) -> bool {
        reply matches Ok(response) && !self.ends_run(response.message, at as usize)
            && Self::is_fed_back(conversation, response.message, next)
    }

    /// Whether a compute call whose last reply was `last`, the reply of
    /// number `count - 1`, ends as it should: `before` and `after` are the
    /// context before and after, `done` is what is returned.
    ///
    /// - A failure of the model fails the call with a transient vertex error
    ///   that carries the text of the failure; nothing is sent.
    /// - An answer that ends the call is sent on under the label `output`,
    ///   as the JSON string of its text with the key `response`; the vertex
    ///   halts with the empty update.
    /// - Any other answer is the last only where the iterations are used up:
    ///   the call fails as exhausted, and nothing is sent.
    pub open spec fn is_outcome(
        &self,
        last: Result<LLMResponse, String>,
        count: nat,
        before: ComputeContext<'_, S>,
        after: ComputeContext<'_, S>,
        done: Result<ComputeResult<S::Update>, PregelError>,
    ) -> bool {
        match last {
            Err(text) => {
                &&& done matches Err(PregelError::VertexError { vertex_id, message, retryable })
                    && vertex_id == self.vertex_id() && message == text && retryable
                &&& after == before
            },
            Ok(response) => if self.ends_run(response.message, (count - 1) as usize) {
                &&& done matches Ok(result) && result.state == VertexState::Halted
                    && result.update.is_neutral()
                &&& after.sent_one(
                    before,
                    "output"@,
                    "response"@,
                    json_string_text(response.message.content@),
                    Priority::Normal,
                )
            } else {
                &&& count == self.settings().max_iterations
                &&& done matches Err(error) && self.is_exhaustion(error)
                &&& after == before
            },
        }
    }

    /// One compute call, with a model that answers without waiting.
    ///
    /// The model is asked on the opening conversation, and asked again with
    /// its tool calls answered, until an answer ends the call, the model
    /// fails, or the iterations of the configuration are used up. The call
    /// reads its mailbox and leaves mailbox, state view and superstep count
    /// as they were; it sends at most one message, under the label
    /// `output`, and none where it fails. A configuration that allows no
    /// iteration fails the call without asking.
    pub fn compute<L: LLMProvider>(&self, ctx: &mut ComputeContext<'_, S>, llm: &L) -> (done: Result<
        ComputeResult<S::Update>,
        PregelError,
    >)
        ensures
            final(ctx).unchanged_but_outbox(*old(ctx)),
            self.settings().max_iterations == 0 ==> (done matches Err(error) && self.is_exhaustion(
                error,
            )) && *final(ctx) == *old(ctx),
            self.settings().max_iterations > 0 ==> exists|
                conversations: Seq<Seq<Message>>,
                replies: Seq<Result<LLMResponse, String>>,
            |
                #[trigger] self.is_course(llm, *old(ctx), conversations, replies)
                    && self.is_outcome(
                    replies.last(),
                    replies.len(),
                    *old(ctx),
                    *final(ctx),
                    done,
                ),
    {
        let mut run = match self.begin(ctx) {
            Ok(run) => run,
            Err(error) => {
                return Err(error);
            },
        };
        let shown = self.filter_tools();
        let built = self.build_llm_config();
        let ghost mut conversations: Seq<Seq<Message>> = seq![run.messages@];
        let ghost mut replies: Seq<Result<LLMResponse, String>> = Seq::empty();
        loop
            invariant
                *ctx == *old(ctx),
                shown@ == self.shown_tools(),
                self.is_built(built),
                run.iteration < self.settings().max_iterations,
                replies.len() == run.iteration,
                conversations.len() == replies.len() + 1,
                conversations.last() == run.messages@,
                self.is_opening(conversations[0], *old(ctx)),
                forall|i: int|
                    0 <= i < replies.len() ==> self.asked(
                        llm,
                        conversations[i],
                        #[trigger] replies[i],
                    ),
                forall|i: int|
                    0 <= i < replies.len() ==> Self::goes_on(
                        self,
                        conversations[i],
                        #[trigger] replies[i],
                        i,
                        conversations[i + 1],
                    ),
            decreases self.settings().max_iterations - run.iteration,
        {
            let reply = llm.complete(
                run.messages.as_slice(),
                shown.as_slice(),
                match &built {
                    Some(config) => Some(config),
                    None => None,
                },
            );
            let ghost given = reply;
            let ghost asked_on = run.messages@;
            let ghost count = run.iteration;
            assert(self.asked(llm, asked_on, given));
            let step = self.advance(&mut run, ctx, reply);
            proof {
                let before = replies;
                replies = replies.push(given);
                assert forall|i: int| 0 <= i < replies.len() implies self.asked(
                    llm,
                    conversations[i],
                    #[trigger] replies[i],
                ) by {
                    if i < before.len() {
                        assert(replies[i] == before[i]);
                    }
                }
                assert forall|i: int| 0 <= i < replies.len() - 1 implies Self::goes_on(
                    self,
                    conversations[i],
                    #[trigger] replies[i],
                    i,
                    conversations[i + 1],
                ) by {
                    assert(replies[i] == before[i]);
                }
            }
            match step {
                AgentStep::Continue => {
                    proof {
                        let earlier = conversations;
                        conversations = conversations.push(run.messages@);
                        assert forall|i: int| 0 <= i < replies.len() implies self.asked(
                            llm,
                            conversations[i],
                            #[trigger] replies[i],
                        ) by {
                            assert(conversations[i] == earlier[i]);
                        }
                        assert forall|i: int| 0 <= i < replies.len() implies Self::goes_on(
                            self,
                            conversations[i],
                            #[trigger] replies[i],
                            i,
                            conversations[i + 1],
                        ) by {
                            assert(conversations[i] == earlier[i]);
                            if i < replies.len() - 1 {
                                assert(conversations[i + 1] == earlier[i + 1]);
                            }
                        }
                        assert(conversations[0] == earlier[0]);
                    }
                },
                AgentStep::Finished(result) => {
                    assert(self.is_course(llm, *old(ctx), conversations, replies));
                    return Ok(result);
                },
                AgentStep::Failed(error) => {
                    assert(self.is_course(llm, *old(ctx), conversations, replies));
                    return Err(error);
                },
            }
        }
    }
}

/// Whether one of the tool calls asks for the tool `name`.
fn asks_for(calls: &Vec<ToolCall>, name: &String) -> (found: bool)
    ensures
        found == calls_tool(calls@, name@),
{
    let mut j: usize = 0;
    while j < calls.len()
        invariant
            j <= calls.len(),
            forall|k: int| 0 <= k < j ==> (#[trigger] calls@[k]).name@ != name@,
        decreases calls.len() - j,
    {
        if calls[j].name == *name {
            return true;
        }
        j += 1;
    }
    false
}

/// Whether `name` is among `names`.
fn holds_name(names: &Vec<String>, name: &String) -> (found: bool)
    ensures
        found == names_hold(names@, name@),
{
    let mut j: usize = 0;
    while j < names.len()
        invariant
            j <= names.len(),
            forall|k: int| 0 <= k < j ==> (#[trigger] names@[k])@ != name@,
        decreases names.len() - j,
    {
        if names[j] == *name {
            return true;
        }
        j += 1;
    }
    false
}

/// One tool result for each tool call. The tools are not run yet: every
/// result reports success.
fn tool_results(calls: &Vec<ToolCall>) -> (results: Vec<Message>)
    ensures
        results@.len() == calls@.len(),
        forall|j: int|
            0 <= j < calls@.len() ==> (#[trigger] results@[j]).is_tool_result(
                "Tool executed successfully"@,
                calls@[j].id@,
            ),
{
    let mut results: Vec<Message> = Vec::new();
    let mut j: usize = 0;
    while j < calls.len()
        invariant
            j <= calls.len(),
            results@.len() == j,
            forall|k: int|
                0 <= k < j ==> (#[trigger] results@[k]).is_tool_result(
                    "Tool executed successfully"@,
                    calls@[k].id@,
                ),
        decreases calls.len() - j,
    {
        results.push(Message::tool("Tool executed successfully", calls[j].id.as_str()));
        j += 1;
    }
    results
}

/// Whether two contexts have left the same last message in their outboxes:
/// the same label, key, payload text and priority.
pub open spec fn sent_alike<S>(first: ComputeContext<'_, S>, second: ComputeContext<'_, S>) -> bool {
    let one = first.sent().last();
    let other = second.sent().last();
    &&& one.target@ == other.target@
    &&& one.message.key_text() == other.message.key_text()
    &&& json_text(one.message.payload()) == json_text(other.message.payload())
    &&& one.priority == other.priority
}

/// Whether two failures are vertex errors of the same vertex, with the same
/// text, and both transient or both fatal.
pub open spec fn failed_alike(first: PregelError, second: PregelError) -> bool {
    match (first, second) {
        (
            PregelError::VertexError { vertex_id, message, retryable },
            PregelError::VertexError {
                vertex_id: other_id,
                message: other_message,
                retryable: other_retryable,
            },
        ) => vertex_id == other_id && message@ == other_message@ && retryable == other_retryable,
        _ => false,
    }
}

/// Isolation of the agent's compute call. The call leaves mailbox, state
/// view and superstep count as they were. It sends nothing where it fails,
/// and where it succeeds it sends one message, under the label `output`,
/// into its outbox and nowhere else; the vertex is then halted and proposes
/// no change to the state.
pub proof fn lemma_agent_call_is_isolated<S: WorkflowState>(
    vertex: AgentVertex<S>,
    last: Result<LLMResponse, String>,
    count: nat,
    before: ComputeContext<'_, S>,
    after: ComputeContext<'_, S>,
    done: Result<ComputeResult<S::Update>, PregelError>,
)
    requires
        vertex.is_outcome(last, count, before, after, done),
    ensures
        after.unchanged_but_outbox(before),
        done is Err ==> after.sent() == before.sent(),
        done matches Ok(result) ==> result.state == VertexState::Halted
            && result.update.is_neutral() && after.sent().len() == before.sent().len() + 1
            && after.sent().drop_last() == before.sent() && after.sent().last().target@
            == "output"@,
{
}

/// Determinism of the agent's compute call. Two calls of one vertex whose
/// model gave the same last reply after the same number of replies end
/// alike: both succeed or both fail; where they succeed, they send the same
/// message and halt with the empty update; where they fail, they fail with
/// the same vertex error.
pub proof fn lemma_agent_call_is_determined<S: WorkflowState>(
    vertex: AgentVertex<S>,
    last: Result<LLMResponse, String>,
    count: nat,
    before_one: ComputeContext<'_, S>,
    after_one: ComputeContext<'_, S>,
    done_one: Result<ComputeResult<S::Update>, PregelError>,
    before_other: ComputeContext<'_, S>,
    after_other: ComputeContext<'_, S>,
    done_other: Result<ComputeResult<S::Update>, PregelError>,
)
    requires
        vertex.is_outcome(last, count, before_one, after_one, done_one),
        vertex.is_outcome(last, count, before_other, after_other, done_other),
    ensures
        done_one is Ok <==> done_other is Ok,
        done_one is Ok ==> sent_alike(after_one, after_other) && done_one->Ok_0.state
            == done_other->Ok_0.state,
        done_one is Err ==> failed_alike(done_one->Err_0, done_other->Err_0),
{
}

/// Finite emission of the agent's compute call. The model is asked at
/// least once and at most as often as the configuration allows. The call
/// fails as exhausted exactly if the model was asked that often and every
/// reply was an answer that did not end the call: one that asks for tools
/// and meets no stop condition.
pub proof fn lemma_agent_call_is_bounded<S: WorkflowState, L: LLMProvider>(
    vertex: AgentVertex<S>,
    llm: &L,
    conversations: Seq<Seq<Message>>,
    replies: Seq<Result<LLMResponse, String>>,
    before: ComputeContext<'_, S>,
    after: ComputeContext<'_, S>,
    done: Result<ComputeResult<S::Update>, PregelError>,
)
    requires
        vertex.is_course(llm, before, conversations, replies),
        vertex.is_outcome(replies.last(), replies.len(), before, after, done),
    ensures
        1 <= replies.len() <= vertex.settings().max_iterations,
        (done matches Err(error) && vertex.is_exhaustion(error)) <==> (replies.len()
            == vertex.settings().max_iterations && forall|i: int|
            0 <= i < replies.len() ==> (#[trigger] replies[i] matches Ok(response)
                && response.message.tool_calls is Some && !any_condition_met(
                vertex.settings().stop_conditions@,
                response.message,
                i as usize,
            ))),
{
    let count = replies.len() as int;
    let unending = forall|i: int|
        0 <= i < replies.len() ==> (#[trigger] replies[i] matches Ok(response)
            && response.message.tool_calls is Some && !any_condition_met(
            vertex.settings().stop_conditions@,
            response.message,
            i as usize,
        ));
    if done matches Err(error) && vertex.is_exhaustion(error) {
        assert forall|i: int| 0 <= i < replies.len() implies (#[trigger] replies[i] matches Ok(
            response,
        ) && response.message.tool_calls is Some && !any_condition_met(
            vertex.settings().stop_conditions@,
            response.message,
            i as usize,
        )) by {
            if i < count - 1 {
                assert(vertex.goes_on(conversations[i], replies[i], i, conversations[i + 1]));
            }
        }
    }
    if replies.len() == vertex.settings().max_iterations && unending {
        assert(replies[count - 1] is Ok);
    }
}

} // verus!

//! The tool vertex: runs one tool, once, and sends its result on.
//!
//! The vertex says with which arguments the tool is run
//! ([`ToolVertex::build_arguments`]) and what follows from its outcome
//! ([`ToolVertex::finish`]). A caller that has to wait for its tool puts the
//! run between the two. For a tool that runs without waiting,
//! [`ToolVertex::compute`] is the whole compute call.

use std::marker::PhantomData;
use vstd::prelude::*;
use crate::json::{
    json_object_text,
    json_parsed_text,
    json_string_text,
    json_text,
    member_texts,
    object_value,
    parse_value,
    string_value,
};
use crate::middleware::Tool;
use crate::pregel::error::PregelError;
use crate::pregel::message::{Priority, WorkflowMessage};
use crate::pregel::state::{StateUpdate, WorkflowState};
use crate::pregel::vertex::{ComputeContext, ComputeResult, VertexId, VertexState};
use crate::workflow::node::ToolNodeConfig;

verus! {

/// What the payload for the output of a tool holds: what the output reads as
/// where it is JSON, else the output as a JSON string.
pub open spec fn payload_of(parsed: Option<Seq<char>>, output: Seq<char>) -> Seq<char> {
    match parsed {
        Some(text) => text,
        None => json_string_text(output),
    }
}

/// Chooses the payload for the output of a tool, given what reading the
/// output as JSON gave: the value read, or the output as a JSON string.
pub fn result_payload(parsed: Option<serde_json::Value>, output: String) -> (value:
    serde_json::Value)
    ensures
        parsed matches Some(read) ==> value == read,
        parsed is None ==> json_text(value) == json_string_text(output@),
{
    match parsed {
        Some(value) => value,
        None => string_value(output),
    }
}

/// The key under which a tool's result is sent on: the configured result
/// path, or the tool's name followed by `_result`.
pub open spec fn result_key(config: ToolNodeConfig) -> Seq<char> {
    match config.result_path {
        Some(path) => path@,
        None => config.tool_name@ + "_result"@,
    }
}

/// A vertex that executes a single tool.
///
/// The tool's arguments are the static arguments of the configuration. Its
/// result is sent on under the label `output`.
pub struct ToolVertex<S: WorkflowState> {
    id: VertexId,
    config: ToolNodeConfig,
    _phantom: PhantomData<S>,
}

impl<S: WorkflowState> ToolVertex<S> {
    pub closed spec fn vertex_id(&self) -> VertexId {
        self.id
    }

    pub closed spec fn settings(&self) -> ToolNodeConfig {
        self.config
    }

    /// Create a new ToolVertex.
    pub fn new(id: VertexId, config: ToolNodeConfig) -> (vertex: Self)
        ensures
            vertex.vertex_id() == id,
            vertex.settings() == config,
    {
        ToolVertex { id, config, _phantom: PhantomData }
    }

    pub fn id(&self) -> (id: &VertexId)
        ensures
            *id == self.vertex_id(),
    {
        &self.id
    }

    pub fn config(&self) -> (config: &ToolNodeConfig)
        ensures
            *config == self.settings(),
    {
        &self.config
    }

    /// Build the arguments of the tool: the JSON object of the static
    /// arguments. Arguments to be read from the state are passed over.
    pub fn build_arguments(&self, _state: &S) -> (arguments: serde_json::Value)
        ensures
            json_text(arguments) == json_object_text(member_texts(self.settings().static_args@)),
    {
        object_value(&self.config.static_args)
    }

    /// The key under which the result is sent on.
    pub fn output_key(&self) -> (key: String)
        ensures
            key@ == result_key(self.settings()),
    {
        match &self.config.result_path {
            Some(path) => path.clone(),
            None => {
                let mut key = self.config.tool_name.clone();
                key.append("_result");
                key
            },
        }
    }

    /// The failure of a tool run, given the text of what went wrong.
    pub open spec fn is_tool_failure(&self, error: PregelError, cause: Seq<char>) -> bool {
        error matches PregelError::VertexError { vertex_id, message, retryable }
            && vertex_id == self.vertex_id() && message@ == "Tool execution failed: "@ + cause
            && !retryable
    }

    /// Whether the compute call ends as the outcome of running the tool
    /// asks: `before` and `after` are the context before and after, `done`
    /// is what is returned.
    ///
    /// A failure fails the compute call and leaves the context as it was.
    /// An output is sent on under the label `output`, as the JSON value it
    /// reads as, or as a JSON string where it is no JSON; the vertex then
    /// halts with the empty update.
    pub open spec fn finished(
        &self,
        before: ComputeContext<'_, S>,
        after: ComputeContext<'_, S>,
        outcome: Result<String, String>,
        done: Result<ComputeResult<S::Update>, PregelError>,
    ) -> bool {
        match outcome {
            Err(cause) => {
                &&& done matches Err(error) && self.is_tool_failure(error, cause@)
                &&& after == before
            },
            Ok(output) => {
                &&& done matches Ok(result) && result.state == VertexState::Halted
                    && result.update.is_neutral()
                &&& after.sent_one(
                    before,
                    "output"@,
                    result_key(self.settings()),
                    payload_of(json_parsed_text(output@), output@),
                    Priority::Normal,
                )
            },
        }
    }

    /// Takes the outcome of running the tool: its output, or the text of the
    /// failure.
    pub fn finish(&self, ctx: &mut ComputeContext<'_, S>, outcome: Result<String, String>) -> (done:
        Result<ComputeResult<S::Update>, PregelError>)
        ensures
            self.finished(*old(ctx), *final(ctx), outcome, done),
    {
        match outcome {
            Err(cause) => {
                let mut message = "Tool execution failed: ".to_owned();
                message.append(cause.as_str());
                Err(
                    PregelError::VertexError {
                        vertex_id: self.id.clone(),
                        message,
                        retryable: false,
                    },
                )
            },
            Ok(output) => {
                let parsed = parse_value(output.as_str());
                let value = result_payload(parsed, output);
                let key = self.output_key();
                ctx.send_message("output", WorkflowMessage::data(key.as_str(), value));
                Ok(ComputeResult::halt(S::Update::empty()))
            },
        }
    }

    /// One compute call, with a tool that runs without waiting: the tool is
    /// run once, on the arguments of the configuration, and its outcome is
    /// taken as `finish` says. Neither the mailbox nor the superstep count
    /// nor the graph bears on what is sent or returned.
    pub fn compute<T: Tool>(&self, ctx: &mut ComputeContext<'_, S>, tool: &T) -> (done: Result<
        ComputeResult<S::Update>,
        PregelError,
    >)
        ensures
            exists|arguments: serde_json::Value, outcome: Result<String, String>|
                json_text(arguments) == json_object_text(member_texts(self.settings().static_args@))
                    && #[trigger] call_ensures(T::execute, (tool, arguments), outcome)
                    && self.finished(*old(ctx), *final(ctx), outcome, done),
    {
        let arguments = self.build_arguments(ctx.state);
        let outcome = tool.execute(arguments);
        self.finish(ctx, outcome)
    }
}

/// What holds of every compute call of the tool vertex.
///
/// The call leaves mailbox, state view and superstep count as they were.
/// Where the tool fails, the call fails and sends nothing. Where the tool
/// gives an output, the call succeeds whatever the graph, sends one message
/// under the label `output` and no other, halts, and proposes no change to
/// the state, so that the updates of any two tool vertices merge to the same
/// state in either order.
pub proof fn lemma_tool_call<S: WorkflowState>(
    vertex: ToolVertex<S>,
    before: ComputeContext<'_, S>,
    after: ComputeContext<'_, S>,
    outcome: Result<String, String>,
    done: Result<ComputeResult<S::Update>, PregelError>,
    state: S::V,
    other: S::Update,
)
    requires
        vertex.finished(before, after, outcome, done),
    ensures
        after.unchanged_but_outbox(before),
        done is Ok <==> outcome is Ok,
        done is Err ==> after.sent() == before.sent(),
        done matches Ok(result) ==> result.state == VertexState::Halted
            && after.sent().len() == before.sent().len() + 1 && after.sent().drop_last()
            == before.sent() && after.sent().last().target@ == "output"@,
        done matches Ok(result) ==> S::merged(S::merged(state, result.update), other)
            == S::merged(S::merged(state, other), result.update),
{
    if done is Ok {
        S::merge_commutes(state, done->Ok_0.update, other);
    }
}

/// The tool vertex's compute call depends on the configuration and on the
/// outcome of the tool alone. Two calls with the same outcome end alike,
/// whatever their mailboxes, superstep counts and earlier calls: both
/// succeed or both fail, and where they succeed they send the same message.
pub proof fn lemma_tool_call_is_determined<S: WorkflowState>(
    vertex: ToolVertex<S>,
    outcome: Result<String, String>,
    before_one: ComputeContext<'_, S>,
    after_one: ComputeContext<'_, S>,
    done_one: Result<ComputeResult<S::Update>, PregelError>,
    before_other: ComputeContext<'_, S>,
    after_other: ComputeContext<'_, S>,
    done_other: Result<ComputeResult<S::Update>, PregelError>,
)
    requires
        vertex.finished(before_one, after_one, outcome, done_one),
        vertex.finished(before_other, after_other, outcome, done_other),
    ensures
        done_one is Ok <==> done_other is Ok,
        done_one is Ok ==> crate::workflow::vertices::agent::sent_alike(after_one, after_other)
            && done_one->Ok_0.state == done_other->Ok_0.state,
        done_one is Err ==> crate::workflow::vertices::agent::failed_alike(done_one->Err_0, done_other->Err_0),
{
}

} // verus!

use std::cell::{Cell, RefCell};
use std::collections::HashMap;

use rig_deepagents::llm::{LLMConfig, LLMProvider, LLMResponse, Temperature};
use rig_deepagents::middleware::{Tool, ToolDefinition};
use rig_deepagents::pregel::error::PregelError;
use rig_deepagents::pregel::message::{Envelope, Priority, WorkflowMessage};
use rig_deepagents::pregel::state::{UnitState, UnitUpdate};
use rig_deepagents::pregel::vertex::{ComputeContext, ComputeResult, VertexId, VertexState};
use rig_deepagents::state::{Message, Role, ToolCall};
use rig_deepagents::workflow::node::{AgentNodeConfig, StopCondition, ToolNodeConfig};
use rig_deepagents::workflow::vertices::agent::{AgentStep, AgentVertex};
use rig_deepagents::workflow::vertices::tool::{result_payload, ToolVertex};
use serde_json::Value;

/// A model that answers from a prepared list and fails once the list is used up.
struct MockModel {
    responses: Vec<Message>,
    asked: usize,
}

impl MockModel {
    fn new() -> Self {
        MockModel { responses: Vec::new(), asked: 0 }
    }

    fn with_response(mut self, content: &str) -> Self {
        self.responses.push(Message::assistant(content));
        self
    }

    fn with_tool_call(mut self, content: &str, tool_name: &str) -> Self {
        self.responses.push(Message {
            role: Role::Assistant,
            content: content.to_string(),
            tool_calls: Some(vec![ToolCall {
                id: "test_call_1".to_string(),
                name: tool_name.to_string(),
                arguments: Value::Object(serde_json::Map::new()),
            }]),
            tool_call_id: None,
        });
        self
    }

    fn complete(&mut self) -> Result<LLMResponse, String> {
        self.asked += 1;
        if self.responses.is_empty() {
            return Err("No more mock responses".to_string());
        }
        Ok(LLMResponse::new(self.responses.remove(0)))
    }
}

/// Runs one compute call of an agent against a mock model.
fn compute_agent(
    vertex: &AgentVertex<UnitState>,
    ctx: &mut ComputeContext<'_, UnitState>,
    model: &mut MockModel,
) -> Result<ComputeResult<UnitUpdate>, PregelError> {
    let mut run = vertex.begin(ctx)?;
    loop {
        let reply = model.complete();
        match vertex.advance(&mut run, ctx, reply) {
            AgentStep::Continue => {}
            AgentStep::Finished(result) => return Ok(result),
            AgentStep::Failed(error) => return Err(error),
        }
    }
}

fn agent_config(prompt: &str, stop_conditions: Vec<StopCondition>) -> AgentNodeConfig {
    AgentNodeConfig {
        system_prompt: prompt.to_string(),
        stop_conditions,
        ..Default::default()
    }
}

fn tool(name: &str) -> ToolDefinition {
    ToolDefinition {
        name: name.to_string(),
        description: format!("the {} tool", name),
        parameters: Value::Object(serde_json::Map::new()),
    }
}

#[test]
fn test_agent_vertex_single_response() {
    let mut model = MockModel::new().with_response("Hello! How can I help?");
    let vertex = AgentVertex::<UnitState>::new(
        VertexId::new("agent"),
        agent_config("You are helpful.", vec![StopCondition::NoToolCalls]),
        vec![],
    );
    let mut ctx = ComputeContext::<UnitState>::new(VertexId::new("agent"), &[], 0, &UnitState);

    let result = compute_agent(&vertex, &mut ctx, &mut model).unwrap();

    assert_eq!(result.state, VertexState::Halted);
    assert!(ctx.has_messages() || !ctx.into_outbox().is_empty());
}

#[test]
fn test_agent_vertex_stop_on_tool() {
    let mut model = MockModel::new().with_tool_call("Let me search for that", "search");
    let vertex = AgentVertex::<UnitState>::new(
        VertexId::new("agent"),
        agent_config(
            "You are a researcher.",
            vec![StopCondition::OnTool { tool_name: "search".to_string() }],
        ),
        vec![],
    );
    let mut ctx = ComputeContext::<UnitState>::new(VertexId::new("agent"), &[], 0, &UnitState);

    let result = compute_agent(&vertex, &mut ctx, &mut model).unwrap();

    assert_eq!(result.state, VertexState::Halted);
}

#[test]
fn test_agent_vertex_max_iterations() {
    let mut model = MockModel::new();
    for _ in 0..15 {
        model = model.with_tool_call("Still thinking...", "think");
    }
    let vertex = AgentVertex::<UnitState>::new(
        VertexId::new("agent"),
        AgentNodeConfig {
            system_prompt: "You are helpful.".to_string(),
            max_iterations: 3,
            stop_conditions: vec![],
            ..Default::default()
        },
        vec![],
    );
    let mut ctx = ComputeContext::<UnitState>::new(VertexId::new("agent"), &[], 0, &UnitState);

    let result = compute_agent(&vertex, &mut ctx, &mut model);

    assert!(result.is_err());
    assert_eq!(model.asked, 3);
    assert_eq!(
        result.unwrap_err(),
        PregelError::vertex_error(VertexId::new("agent"), "Max iterations reached")
    );
    assert!(ctx.into_outbox().is_empty());
}

#[test]
fn agent_sends_the_answer_as_a_json_string() {
    let mut model = MockModel::new().with_response("Hello! How can I help?");
    let vertex = AgentVertex::<UnitState>::new(
        VertexId::new("agent"),
        agent_config("You are helpful.", vec![]),
        vec![],
    );
    let mut ctx = ComputeContext::<UnitState>::new(VertexId::new("agent"), &[], 0, &UnitState);

    compute_agent(&vertex, &mut ctx, &mut model).unwrap();

    let outbox = ctx.into_outbox();
    assert_eq!(outbox.len(), 1);
    let entry = &outbox.entries()[0];
    assert_eq!(entry.target.as_str(), "output");
    assert_eq!(entry.priority, Priority::Normal);
    assert_eq!(
        entry.message,
        WorkflowMessage::data("response", Value::String("Hello! How can I help?".to_string()))
    );
}

#[test]
fn agent_opens_with_prompt_and_mailbox() {
    let vertex = AgentVertex::<UnitState>::new(
        VertexId::new("agent"),
        agent_config("You are helpful.", vec![]),
        vec![],
    );
    let inbox = vec![
        Envelope::external(WorkflowMessage::data("greet", Value::String("hi".to_string()))),
        Envelope::external(WorkflowMessage::data("n", Value::from(7))),
    ];
    let ctx = ComputeContext::<UnitState>::new(VertexId::new("agent"), &inbox, 0, &UnitState);
    let run = vertex.begin(&ctx).unwrap();
    assert_eq!(run.iteration, 0);
    assert_eq!(
        run.messages,
        vec![Message::system("You are helpful."), Message::user("\"hi\""), Message::user("7")]
    );

    let empty = ComputeContext::<UnitState>::new(VertexId::new("agent"), &[], 0, &UnitState);
    let run = vertex.begin(&empty).unwrap();
    assert_eq!(
        run.messages,
        vec![Message::system("You are helpful."), Message::user("Begin processing.")]
    );
}

#[test]
fn agent_without_iterations_fails_at_once() {
    let vertex = AgentVertex::<UnitState>::new(
        VertexId::new("agent"),
        AgentNodeConfig { max_iterations: 0, ..Default::default() },
        vec![],
    );
    let ctx = ComputeContext::<UnitState>::new(VertexId::new("agent"), &[], 0, &UnitState);
    let error = vertex.begin(&ctx).unwrap_err();
    assert_eq!(error, PregelError::vertex_error(VertexId::new("agent"), "Max iterations reached"));
    assert!(!error.is_retryable());
}

#[test]
fn agent_feeds_tool_results_back() {
    let mut model = MockModel::new().with_tool_call("Let me look", "lookup").with_response("Done");
    let vertex = AgentVertex::<UnitState>::new(
        VertexId::new("agent"),
        agent_config("Prompt", vec![StopCondition::NoToolCalls]),
        vec![],
    );
    let mut ctx = ComputeContext::<UnitState>::new(VertexId::new("agent"), &[], 0, &UnitState);
    let mut run = vertex.begin(&ctx).unwrap();

    let step = vertex.advance(&mut run, &mut ctx, model.complete());
    assert!(matches!(step, AgentStep::Continue));
    assert_eq!(run.iteration, 1);
    assert_eq!(run.messages.len(), 4);
    assert_eq!(run.messages[2].content, "Let me look");
    assert_eq!(run.messages[3], Message::tool("Tool executed successfully", "test_call_1"));
    assert!(ctx.outbox.is_empty());

    let step = vertex.advance(&mut run, &mut ctx, model.complete());
    assert!(matches!(step, AgentStep::Finished(_)));
    assert_eq!(run.messages.len(), 5);
    assert_eq!(ctx.outbox.len(), 1);
}

#[test]
fn agent_model_failure_is_transient() {
    let mut model = MockModel::new();
    let vertex = AgentVertex::<UnitState>::new(
        VertexId::new("agent"),
        agent_config("Prompt", vec![]),
        vec![],
    );
    let mut ctx = ComputeContext::<UnitState>::new(VertexId::new("agent"), &[], 0, &UnitState);
    let error = compute_agent(&vertex, &mut ctx, &mut model).unwrap_err();
    assert_eq!(error, PregelError::transient(VertexId::new("agent"), "No more mock responses"));
    assert!(error.is_retryable());
}

#[test]
fn stop_conditions_each() {
    let plain = Message::assistant("the answer is FINAL");
    let calling = Message {
        role: Role::Assistant,
        content: "working".to_string(),
        tool_calls: Some(vec![ToolCall {
            id: "c1".to_string(),
            name: "search".to_string(),
            arguments: Value::Null,
        }]),
        tool_call_id: None,
    };
    let no_calls = Message { tool_calls: Some(vec![]), ..Message::assistant("x") };
    let with = |conditions: Vec<StopCondition>| {
        AgentVertex::<UnitState>::new(VertexId::new("a"), agent_config("", conditions), vec![])
    };

    let v = with(vec![StopCondition::NoToolCalls]);
    assert!(v.check_stop_conditions(&plain, 0));
    assert!(v.check_stop_conditions(&no_calls, 0));
    assert!(!v.check_stop_conditions(&calling, 0));

    let v = with(vec![StopCondition::OnTool { tool_name: "search".to_string() }]);
    assert!(v.check_stop_conditions(&calling, 0));
    assert!(!v.check_stop_conditions(&plain, 0));
    let v = with(vec![StopCondition::OnTool { tool_name: "fetch".to_string() }]);
    assert!(!v.check_stop_conditions(&calling, 0));

    let v = with(vec![StopCondition::ContainsText { pattern: "FINAL".to_string() }]);
    assert!(v.check_stop_conditions(&plain, 0));
    assert!(!v.check_stop_conditions(&calling, 0));
    let v = with(vec![StopCondition::ContainsText { pattern: String::new() }]);
    assert!(v.check_stop_conditions(&calling, 0));

    let v = with(vec![StopCondition::MaxIterations { count: 2 }]);
    assert!(!v.check_stop_conditions(&calling, 1));
    assert!(v.check_stop_conditions(&calling, 2));
    assert!(v.check_stop_conditions(&calling, 3));

    let v = with(vec![StopCondition::StateMatch { path: "done".to_string(), expected: Value::Bool(true) }]);
    assert!(!v.check_stop_conditions(&plain, 9));

    let v = with(vec![
        StopCondition::StateMatch { path: "done".to_string(), expected: Value::Bool(true) },
        StopCondition::MaxIterations { count: 5 },
        StopCondition::OnTool { tool_name: "search".to_string() },
    ]);
    assert!(v.check_stop_conditions(&calling, 0));
    assert!(!v.check_stop_conditions(&plain, 0));

    let v = with(vec![]);
    assert!(!v.check_stop_conditions(&plain, 100));
}

#[test]
fn filter_tools_keeps_allowed_in_order() {
    let tools = vec![tool("search"), tool("write"), tool("read"), tool("search")];
    let all = AgentVertex::<UnitState>::new(VertexId::new("a"), AgentNodeConfig::default(), tools.clone());
    assert_eq!(all.filter_tools(), tools);

    let some = AgentVertex::<UnitState>::new(
        VertexId::new("a"),
        AgentNodeConfig {
            allowed_tools: Some(vec!["read".to_string(), "search".to_string(), "absent".to_string()]),
            ..Default::default()
        },
        tools.clone(),
    );
    assert_eq!(some.filter_tools(), vec![tool("search"), tool("read"), tool("search")]);

    let none = AgentVertex::<UnitState>::new(
        VertexId::new("a"),
        AgentNodeConfig { allowed_tools: Some(vec![]), ..Default::default() },
        tools,
    );
    assert!(none.filter_tools().is_empty());
}

#[test]
fn build_llm_config_carries_temperature() {
    let cold = AgentVertex::<UnitState>::new(VertexId::new("a"), AgentNodeConfig::default(), vec![]);
    assert_eq!(cold.build_llm_config(), None);

    let bits = 0.7f32.to_bits();
    let warm = AgentVertex::<UnitState>::new(
        VertexId::new("a"),
        AgentNodeConfig { temperature: Some(Temperature::from_bits(bits)), ..Default::default() },
        vec![],
    );
    let config = warm.build_llm_config().unwrap();
    assert_eq!(config.model, "");
    assert_eq!(config.temperature.unwrap().to_bits(), bits);
    assert_eq!(f32::from_bits(config.temperature.unwrap().to_bits()), 0.7f32);
}

#[test]
fn test_tool_vertex_creation() {
    let config = ToolNodeConfig { tool_name: "test_tool".to_string(), ..Default::default() };
    let vertex: ToolVertex<UnitState> = ToolVertex::new(VertexId::new("tool_node"), config);
    assert_eq!(vertex.id().as_str(), "tool_node");
}

#[test]
fn test_tool_vertex_execute_with_static_args() {
    let response: Value = serde_json::from_str("{\"results\": [\"item1\", \"item2\"]}").unwrap();
    let tool_output = response.to_string();

    let mut static_args = HashMap::new();
    static_args.insert("query".to_string(), Value::from("test query"));
    static_args.insert("limit".to_string(), Value::from(10));
    let config = ToolNodeConfig {
        tool_name: "search".to_string(),
        static_args,
        result_path: Some("search_results".to_string()),
        ..Default::default()
    };
    let vertex: ToolVertex<UnitState> = ToolVertex::new(VertexId::new("search_node"), config);
    let mut ctx =
        ComputeContext::<UnitState>::new(VertexId::new("search_node"), &[], 0, &UnitState);

    let result = vertex.finish(&mut ctx, Ok(tool_output)).unwrap();

    assert!(result.state.is_halted());

    let outbox = ctx.into_outbox();
    assert!(outbox.contains_key(&VertexId::new("output")));

    let messages = outbox.get(&VertexId::new("output")).unwrap();
    assert_eq!(messages.len(), 1);

    match &messages[0] {
        WorkflowMessage::Data { key, value } => {
            assert_eq!(key, "search_results");
            assert_eq!(value, &response);
            assert_eq!(value["results"][1], Value::from("item2"));
        }
        _ => panic!("Expected Data message"),
    }
}

#[test]
fn test_tool_vertex_build_arguments() {
    let mut static_args = HashMap::new();
    static_args.insert("key1".to_string(), Value::from("value1"));
    static_args.insert("key2".to_string(), Value::from(42));
    let config = ToolNodeConfig { tool_name: "tool".to_string(), static_args, ..Default::default() };
    let vertex: ToolVertex<UnitState> = ToolVertex::new(VertexId::new("test"), config);

    let args = vertex.build_arguments(&UnitState);

    assert!(args.is_object());
    let obj = args.as_object().unwrap();
    assert_eq!(obj.get("key1"), Some(&Value::from("value1")));
    assert_eq!(obj.get("key2"), Some(&Value::from(42)));
    assert_eq!(obj.len(), 2);
    assert_eq!(args.to_string(), "{\"key1\":\"value1\",\"key2\":42}");
}

#[test]
fn test_tool_vertex_default_result_path() {
    let config =
        ToolNodeConfig { tool_name: "my_tool".to_string(), result_path: None, ..Default::default() };
    let vertex: ToolVertex<UnitState> = ToolVertex::new(VertexId::new("test"), config);
    let mut ctx = ComputeContext::<UnitState>::new(VertexId::new("test"), &[], 0, &UnitState);

    let _ = vertex.finish(&mut ctx, Ok(Value::from("done").to_string())).unwrap();

    let outbox = ctx.into_outbox();
    let messages = outbox.get(&VertexId::new("output")).unwrap();

    match &messages[0] {
        WorkflowMessage::Data { key, value } => {
            assert_eq!(key, "my_tool_result");
            assert_eq!(value, &Value::String("done".to_string()));
        }
        _ => panic!("Expected Data message"),
    }
}

#[test]
fn tool_output_that_is_no_json_is_sent_as_text() {
    let config = ToolNodeConfig { tool_name: "echo".to_string(), ..Default::default() };
    let vertex: ToolVertex<UnitState> = ToolVertex::new(VertexId::new("t"), config);
    let mut ctx = ComputeContext::<UnitState>::new(VertexId::new("t"), &[], 0, &UnitState);
    vertex.finish(&mut ctx, Ok("plain words, no json".to_string())).unwrap();
    let entries = ctx.into_outbox().into_entries();
    assert_eq!(
        entries[0].message,
        WorkflowMessage::data("echo_result", Value::String("plain words, no json".to_string()))
    );
}

#[test]
fn tool_failure_fails_the_compute_call() {
    let config = ToolNodeConfig { tool_name: "echo".to_string(), ..Default::default() };
    let vertex: ToolVertex<UnitState> = ToolVertex::new(VertexId::new("t"), config);
    let mut ctx = ComputeContext::<UnitState>::new(VertexId::new("t"), &[], 0, &UnitState);
    let error = vertex.finish(&mut ctx, Err("disk full".to_string())).unwrap_err();
    assert_eq!(
        error,
        PregelError::vertex_error(VertexId::new("t"), "Tool execution failed: disk full")
    );
    assert!(ctx.into_outbox().is_empty());
}

#[test]
fn result_payload_prefers_the_parsed_value() {
    assert_eq!(result_payload(Some(Value::from(3)), "3".to_string()), Value::from(3));
    assert_eq!(result_payload(None, "3".to_string()), Value::String("3".to_string()));
}

/// A model that answers from a prepared list, without waiting, and records
/// what it was asked.
struct ScriptedModel {
    replies: RefCell<Vec<Result<Message, String>>>,
    asked: RefCell<Vec<(Vec<Message>, Vec<String>, Option<LLMConfig>)>>,
}

impl ScriptedModel {
    fn new(replies: Vec<Result<Message, String>>) -> Self {
        ScriptedModel { replies: RefCell::new(replies), asked: RefCell::new(Vec::new()) }
    }

    fn calls(&self) -> usize {
        self.asked.borrow().len()
    }
}

impl LLMProvider for ScriptedModel {
    fn complete(
        &self,
        messages: &[Message],
        tools: &[ToolDefinition],
        config: Option<&LLMConfig>,
    ) -> Result<LLMResponse, String> {
        self.asked.borrow_mut().push((
            messages.to_vec(),
            tools.iter().map(|t| t.name.clone()).collect(),
            config.map(|c| LLMConfig { model: c.model.clone(), temperature: c.temperature }),
        ));
        let mut replies = self.replies.borrow_mut();
        if replies.is_empty() {
            return Err("No more mock responses".to_string());
        }
        replies.remove(0).map(LLMResponse::new)
    }
}

fn calling(content: &str, tool_name: &str, call_id: &str) -> Message {
    Message {
        role: Role::Assistant,
        content: content.to_string(),
        tool_calls: Some(vec![ToolCall {
            id: call_id.to_string(),
            name: tool_name.to_string(),
            arguments: Value::Null,
        }]),
        tool_call_id: None,
    }
}

/// A tool that gives a prepared outcome and records its arguments.
struct ScriptedTool {
    outcomes: RefCell<Vec<Result<String, String>>>,
    seen: RefCell<Vec<Value>>,
    calls: Cell<usize>,
}

impl ScriptedTool {
    fn new(outcomes: Vec<Result<String, String>>) -> Self {
        ScriptedTool {
            outcomes: RefCell::new(outcomes),
            seen: RefCell::new(Vec::new()),
            calls: Cell::new(0),
        }
    }
}

impl Tool for ScriptedTool {
    fn definition(&self) -> ToolDefinition {
        tool("scripted")
    }

    fn execute(&self, args: Value) -> Result<String, String> {
        self.calls.set(self.calls.get() + 1);
        self.seen.borrow_mut().push(args);
        self.outcomes.borrow_mut().remove(0)
    }
}

#[test]
fn agent_compute_asks_until_an_answer_ends_the_call() {
    let model = ScriptedModel::new(vec![
        Ok(calling("looking", "lookup", "c1")),
        Ok(calling("still looking", "lookup", "c2")),
        Ok(Message::assistant("found it")),
    ]);
    let vertex = AgentVertex::<UnitState>::new(
        "agent".into(),
        AgentNodeConfig {
            system_prompt: "Prompt".to_string(),
            allowed_tools: Some(vec!["lookup".to_string()]),
            temperature: Some(Temperature::from_bits(0.5f32.to_bits())),
            ..Default::default()
        },
        vec![tool("write"), tool("lookup")],
    );
    let inbox = vec![Envelope::external(WorkflowMessage::data("q", Value::from(1)))];
    let mut ctx = ComputeContext::<UnitState>::new("agent".into(), &inbox, 3, &UnitState);

    let result = vertex.compute(&mut ctx, &model).unwrap();

    assert_eq!(result.state, VertexState::Halted);
    assert_eq!(model.calls(), 3);
    assert_eq!(ctx.messages, &inbox[..]);
    assert_eq!(ctx.superstep, 3);
    assert_eq!(ctx.vertex_id, VertexId::new("agent"));
    assert_eq!(ctx.outbox.len(), 1);
    let sent = &ctx.outbox.entries()[0];
    assert_eq!(sent.target.as_str(), "output");
    assert_eq!(sent.message, WorkflowMessage::data("response", Value::String("found it".into())));

    let asked = model.asked.borrow();
    assert_eq!(asked[0].0, vec![Message::system("Prompt"), Message::user("1")]);
    assert_eq!(asked[1].0.len(), 4);
    assert_eq!(asked[1].0[3], Message::tool("Tool executed successfully", "c1"));
    assert_eq!(asked[2].0.len(), 6);
    assert_eq!(asked[2].0[5], Message::tool("Tool executed successfully", "c2"));
    for call in asked.iter() {
        assert_eq!(call.1, vec!["lookup".to_string()]);
        let config = call.2.as_ref().unwrap();
        assert_eq!(config.model, "");
        assert_eq!(config.temperature, Some(Temperature::from_bits(0.5f32.to_bits())));
    }
}

#[test]
fn agent_compute_fails_when_the_iterations_are_used_up() {
    let replies = (0..15).map(|i| Ok(calling("thinking", "think", &format!("c{}", i)))).collect();
    let model = ScriptedModel::new(replies);
    let vertex = AgentVertex::<UnitState>::new(
        "agent".into(),
        AgentNodeConfig { max_iterations: 3, ..Default::default() },
        vec![],
    );
    let mut ctx = ComputeContext::<UnitState>::new("agent".into(), &[], 0, &UnitState);
    let error = vertex.compute(&mut ctx, &model).unwrap_err();
    assert_eq!(error, PregelError::vertex_error("agent".into(), "Max iterations reached"));
    assert_eq!(model.calls(), 3);
    assert!(ctx.outbox.is_empty());

    let idle = ScriptedModel::new(vec![Ok(Message::assistant("never asked"))]);
    let none = AgentVertex::<UnitState>::new(
        "agent".into(),
        AgentNodeConfig { max_iterations: 0, ..Default::default() },
        vec![],
    );
    let mut ctx = ComputeContext::<UnitState>::new("agent".into(), &[], 0, &UnitState);
    let error = none.compute(&mut ctx, &idle).unwrap_err();
    assert_eq!(error, PregelError::vertex_error("agent".into(), "Max iterations reached"));
    assert_eq!(idle.calls(), 0);
}

#[test]
fn agent_compute_carries_the_failure_of_its_own_call_only() {
    let vertex =
        AgentVertex::<UnitState>::new("agent".into(), AgentNodeConfig::default(), vec![]);
    let model = ScriptedModel::new(vec![
        Err("first failure".to_string()),
        Ok(calling("working", "t", "c1")),
        Err("second failure".to_string()),
    ]);
    for expected in ["first failure", "second failure"] {
        let mut ctx = ComputeContext::<UnitState>::new("agent".into(), &[], 0, &UnitState);
        let error = vertex.compute(&mut ctx, &model).unwrap_err();
        assert_eq!(error, PregelError::transient("agent".into(), expected));
        assert!(ctx.outbox.is_empty());
    }
    assert_eq!(model.calls(), 3);
}

#[test]
fn agent_compute_is_determined_by_the_replies() {
    let run_once = || {
        let model = ScriptedModel::new(vec![
            Ok(calling("looking", "lookup", "c1")),
            Ok(Message::assistant("done")),
        ]);
        let vertex = AgentVertex::<UnitState>::new(
            "agent".into(),
            agent_config("Prompt", vec![StopCondition::NoToolCalls]),
            vec![],
        );
        let inbox = vec![Envelope::external(WorkflowMessage::data("q", Value::from("x")))];
        let mut ctx = ComputeContext::<UnitState>::new("agent".into(), &inbox, 1, &UnitState);
        let result = vertex.compute(&mut ctx, &model).unwrap();
        (result.state, result.update, ctx.into_outbox().into_entries())
    };
    assert_eq!(run_once(), run_once());
}

#[test]
fn tool_compute_runs_the_tool_once_on_the_static_arguments() {
    let mut static_args = HashMap::new();
    static_args.insert("query".to_string(), Value::from("rust"));
    let config = ToolNodeConfig {
        tool_name: "search".to_string(),
        static_args,
        ..Default::default()
    };
    let vertex: ToolVertex<UnitState> = ToolVertex::new("search_node".into(), config);
    let scripted = ScriptedTool::new(vec![
        Err("busy".to_string()),
        Err("busy again".to_string()),
        Ok("[1,2]".to_string()),
    ]);
    let inbox = vec![Envelope::external(WorkflowMessage::data("ignored", Value::Null))];

    for attempt in 1..=3 {
        let mut ctx =
            ComputeContext::<UnitState>::new("search_node".into(), &inbox, 7, &UnitState);
        let done = vertex.compute(&mut ctx, &scripted);
        assert_eq!(scripted.calls.get(), attempt);
        assert_eq!(ctx.messages, &inbox[..]);
        assert_eq!(ctx.superstep, 7);
        if attempt < 3 {
            let text = if attempt == 1 { "busy" } else { "busy again" };
            assert_eq!(
                done.unwrap_err(),
                PregelError::vertex_error(
                    "search_node".into(),
                    &format!("Tool execution failed: {}", text)
                )
            );
            assert!(ctx.outbox.is_empty());
        } else {
            let result = done.unwrap();
            assert_eq!(result.state, VertexState::Halted);
            assert_eq!(result.update, UnitUpdate);
            let entries = ctx.into_outbox().into_entries();
            assert_eq!(entries.len(), 1);
            assert_eq!(entries[0].target.as_str(), "output");
            assert_eq!(
                entries[0].message,
                WorkflowMessage::data("search_result", serde_json::from_str("[1,2]").unwrap())
            );
        }
    }
    let seen = scripted.seen.borrow();
    assert_eq!(seen.len(), 3);
    for args in seen.iter() {
        assert_eq!(args.to_string(), "{\"query\":\"rust\"}");
    }
    assert_eq!(scripted.definition().name, "scripted");
}

#[test]
fn tool_compute_does_not_look_at_the_mailbox() {
    let config = ToolNodeConfig { tool_name: "echo".to_string(), ..Default::default() };
    let vertex: ToolVertex<UnitState> = ToolVertex::new("t".into(), config);
    let sent_with = |inbox: Vec<Envelope>, superstep: u64| {
        let scripted = ScriptedTool::new(vec![Ok("\"same\"".to_string())]);
        let mut ctx = ComputeContext::<UnitState>::new("t".into(), &inbox, superstep, &UnitState);
        vertex.compute(&mut ctx, &scripted).unwrap();
        ctx.into_outbox().into_entries()
    };
    let one = sent_with(vec![], 0);
    let more = sent_with(
        vec![
            Envelope::external(WorkflowMessage::data("a", Value::Null)),
            Envelope::external(WorkflowMessage::data("b", Value::Null)),
        ],
        5,
    );
    assert_eq!(one, more);
    assert_eq!(one[0].message, WorkflowMessage::data("echo_result", Value::from("same")));
}

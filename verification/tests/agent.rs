use coccinella_agent_sdk::tool_call::arg_str;
use coccinella_agent_sdk::{
    Agent, Error, Provider, StaticBackend, Step, Tool, ToolCall, ToolCallSource, ToolOutcome,
};

struct EchoTool;
impl Tool for EchoTool {
    fn name(&self) -> &'static str {
        "echo"
    }
    fn run(&self, call: &ToolCall) -> Result<String, Error> {
        let message = arg_str(call, "message").unwrap_or("?");
        Ok(format!("said:{message}"))
    }
}

struct FailTool;
impl Tool for FailTool {
    fn name(&self) -> &'static str {
        "fail"
    }
    fn run(&self, _call: &ToolCall) -> Result<String, Error> {
        Err(Error::Other("boom".into()))
    }
}

fn openai_tool_call(name: &str, args_json: &str) -> String {
    format!(r#"[{{"id":"c1","function":{{"name":"{name}","arguments":{args_json}}}}}]"#)
}

/// Drives one run of the agent against a scripted backend.
fn run(agent: &mut Agent, backend: &mut StaticBackend, prompt: &str) -> Result<String, Error> {
    agent.start(prompt)?;
    loop {
        assert!(agent.is_awaiting_reply());
        let reply = backend.chat();
        match agent.step(reply) {
            Step::AskModel => continue,
            Step::Done(text) => return Ok(text),
        }
    }
}

fn roles(agent: &Agent) -> Vec<&str> {
    agent.history().iter().map(|m| m.role.as_str()).collect()
}

#[test]
fn loop_returns_final_text_when_no_more_tools() {
    let mut backend = StaticBackend::new(
        Provider::OpenAI,
        vec![openai_tool_call("echo", r#" "{\"message\":\"hi\"}" "#), "All done.".into()],
    );
    let mut agent = Agent::with_source(vec![Box::new(EchoTool)], ToolCallSource::OpenAi, 4);
    let reply = run(&mut agent, &mut backend, "hello").unwrap();
    assert_eq!(reply, "All done.");
    assert_eq!(roles(&agent), ["user", "assistant", "tool", "assistant"]);
    assert!(agent.history()[2].content.contains("[echo] said:hi"));
    assert_eq!(agent.max_rounds(), 4);
}

#[test]
fn loop_stops_at_max_rounds_with_tool_outputs() {
    let mut backend = StaticBackend::new(
        Provider::OpenAI,
        vec![
            openai_tool_call("echo", r#" "{\"message\":\"a\"}" "#),
            openai_tool_call("echo", r#" "{\"message\":\"b\"}" "#),
        ],
    );
    let mut agent = Agent::with_source(vec![Box::new(EchoTool)], ToolCallSource::OpenAi, 1);
    let reply = run(&mut agent, &mut backend, "hello").unwrap();
    assert!(reply.contains("Reached max rounds (1)"));
    assert!(reply.contains("[echo] said:a"));
    // Tool message is not appended on the final round.
    assert_eq!(roles(&agent), ["user", "assistant"]);
}

#[test]
fn loop_zero_max_rounds_errors_without_backend_call() {
    let mut backend = StaticBackend::new(Provider::OpenAI, vec!["never".into()]);
    let mut agent = Agent::with_source(vec![], ToolCallSource::OpenAi, 0);
    let err = run(&mut agent, &mut backend, "hello").unwrap_err();
    assert!(matches!(err, Error::Other(msg) if msg.contains("max_rounds")));
    assert!(agent.history().is_empty());
    assert_eq!(backend.remaining(), 1);
}

#[test]
fn loop_treats_plain_text_as_final_reply() {
    let mut backend = StaticBackend::new(Provider::OpenAI, vec!["  Just a plain answer.  ".into()]);
    let mut agent = Agent::with_source(vec![Box::new(EchoTool)], ToolCallSource::OpenAi, 3);
    let reply = run(&mut agent, &mut backend, "hi").unwrap();
    assert_eq!(reply, "Just a plain answer.");
    assert_eq!(agent.history().len(), 2);
    assert_eq!(agent.history()[1].role, "assistant");
}

#[test]
fn loop_treats_malformed_json_without_tool_calls_as_final() {
    // Valid JSON object but not a tool-call shape: parse yields empty.
    let mut backend = StaticBackend::new(Provider::OpenAI, vec![r#"{"content":"I cannot do that"}"#.into()]);
    let mut agent = Agent::with_source(vec![Box::new(EchoTool)], ToolCallSource::OpenAi, 3);
    let reply = run(&mut agent, &mut backend, "hi").unwrap();
    assert_eq!(reply, r#"{"content":"I cannot do that"}"#);
}

#[test]
fn loop_degrades_unknown_tool_and_continues() {
    let mut backend = StaticBackend::new(
        Provider::OpenAI,
        vec![openai_tool_call("nope", r#" {} "#), "Recovered after unknown tool.".into()],
    );
    let mut agent = Agent::with_source(vec![Box::new(EchoTool)], ToolCallSource::OpenAi, 4);
    let reply = run(&mut agent, &mut backend, "hello").unwrap();
    assert_eq!(reply, "Recovered after unknown tool.");
    let tool_msg = agent.history().iter().find(|m| m.role == "tool").expect("tool message");
    assert!(tool_msg.content.contains("[nope] error: unknown tool: nope"));
}

#[test]
fn loop_degrades_tool_error_and_continues() {
    let mut backend = StaticBackend::new(
        Provider::OpenAI,
        vec![openai_tool_call("fail", r#" {} "#), "Recovered after tool failure.".into()],
    );
    let mut agent = Agent::with_source(vec![Box::new(FailTool)], ToolCallSource::OpenAi, 4);
    let reply = run(&mut agent, &mut backend, "hello").unwrap();
    assert_eq!(reply, "Recovered after tool failure.");
    let tool_msg = agent.history().iter().find(|m| m.role == "tool").expect("tool message");
    assert!(tool_msg.content.contains("[fail] error: boom"));
}

#[test]
fn loop_normalizes_run_command_before_dispatch() {
    struct CaptureCommand;
    impl Tool for CaptureCommand {
        fn name(&self) -> &'static str {
            "run_command"
        }
        fn run(&self, call: &ToolCall) -> Result<String, Error> {
            Ok(arg_str(call, "command").unwrap_or("missing").to_string())
        }
    }

    let mut backend = StaticBackend::new(
        Provider::OpenAI,
        vec![openai_tool_call("run_command", r#" "{\"command\":\"the git status\"}" "#), "done".into()],
    );
    let mut agent = Agent::with_source(vec![Box::new(CaptureCommand)], ToolCallSource::OpenAi, 4);
    let reply = run(&mut agent, &mut backend, "status please").unwrap();
    assert_eq!(reply, "done");
    let tool_msg = agent.history().iter().find(|m| m.role == "tool").expect("tool message");
    assert!(tool_msg.content.contains("[run_command] git status"));
    assert!(!tool_msg.content.contains("the git status"));
}

#[test]
fn loop_multi_round_feeds_tool_results_back() {
    let mut backend = StaticBackend::new(
        Provider::OpenAI,
        vec![
            openai_tool_call("echo", r#" "{\"message\":\"one\"}" "#),
            openai_tool_call("echo", r#" "{\"message\":\"two\"}" "#),
            "final".into(),
        ],
    );
    let mut agent = Agent::with_source(vec![Box::new(EchoTool)], ToolCallSource::OpenAi, 5);
    let reply = run(&mut agent, &mut backend, "go").unwrap();
    assert_eq!(reply, "final");
    assert_eq!(roles(&agent), ["user", "assistant", "tool", "assistant", "tool", "assistant"]);
    assert_eq!(backend.remaining(), 0);
}

#[test]
fn step_feeds_raw_reply_and_joined_outputs() {
    let mut agent = Agent::with_source(vec![Box::new(EchoTool), Box::new(FailTool)], ToolCallSource::OpenAi, 3);
    agent.start("go").unwrap();
    let reply = r#"{"tool_calls":[{"function":{"name":"echo","arguments":{"message":"x"}}},{"function":{"name":"fail"}},{"function":{"name":"zzz","arguments":"{}"}}]}"#;
    assert!(matches!(agent.step(reply.to_string()), Step::AskModel));
    let h = agent.history();
    assert_eq!(h.len(), 3);
    assert_eq!(h[0].role, "user");
    assert_eq!(h[0].content, "go");
    assert_eq!(h[1].role, "assistant");
    assert_eq!(h[1].content, reply);
    assert_eq!(h[2].role, "tool");
    assert_eq!(h[2].content, "[echo] said:x\n[fail] error: boom\n[zzz] error: unknown tool: zzz");
}

#[test]
fn step_reads_ollama_message_tool_calls() {
    let mut agent = Agent::with_source(vec![Box::new(EchoTool)], ToolCallSource::Ollama, 1);
    agent.start("go").unwrap();
    let reply = r#"{"model":"llama3","message":{"role":"assistant","content":"","tool_calls":[{"function":{"name":"echo","arguments":{"message":"local"}}}]},"done":true}"#;
    match agent.step(reply.to_string()) {
        Step::Done(t) => assert_eq!(t, "Reached max rounds (1); last tool outputs:\n[echo] said:local"),
        Step::AskModel => panic!("budget exceeded"),
    }
}

#[test]
fn run_ends_within_budget_when_every_reply_calls_tools() {
    let mut agent = Agent::with_source(vec![Box::new(EchoTool)], ToolCallSource::OpenAi, 3);
    agent.start("go").unwrap();
    let reply = || openai_tool_call("echo", r#"{"message":"m"}"#);
    assert!(matches!(agent.step(reply()), Step::AskModel));
    assert!(matches!(agent.step(reply()), Step::AskModel));
    match agent.step(reply()) {
        Step::Done(t) => assert_eq!(t, "Reached max rounds (3); last tool outputs:\n[echo] said:m"),
        Step::AskModel => panic!("budget exceeded"),
    }
    assert!(!agent.is_awaiting_reply());
    assert_eq!(roles(&agent), ["user", "assistant", "tool", "assistant", "tool", "assistant"]);
}

#[test]
fn second_run_keeps_history_and_resets_budget() {
    let mut backend = StaticBackend::new(
        Provider::OpenAI,
        vec![openai_tool_call("echo", r#" "{\"message\":\"a\"}" "#), "first".into()],
    );
    let mut agent = Agent::with_source(vec![Box::new(EchoTool)], ToolCallSource::OpenAi, 2);
    assert_eq!(run(&mut agent, &mut backend, "one").unwrap(), "first");
    assert_eq!(agent.history().len(), 4);
    // The script now repeats "first", a plain reply.
    assert_eq!(run(&mut agent, &mut backend, "two").unwrap(), "first");
    assert_eq!(roles(&agent), ["user", "assistant", "tool", "assistant", "user", "assistant"]);
    assert_eq!(agent.max_rounds(), 2);
}

#[test]
fn run_tools_and_record_split_the_step() {
    let mut agent = Agent::with_source(vec![Box::new(EchoTool)], ToolCallSource::Ollama, 2);
    assert_eq!(agent.source(), ToolCallSource::Ollama);
    agent.start("go").unwrap();
    let calls = vec![
        ToolCall {
            id: None,
            name: "echo".into(),
            arguments: serde_json::from_str(r#"{"message":"q"}"#).unwrap(),
            source: ToolCallSource::Ollama,
        },
        ToolCall { id: None, name: "nope".into(), arguments: serde_json::from_str("{}").unwrap(), source: ToolCallSource::Ollama },
    ];
    let outcomes = agent.run_tools(&calls);
    assert_eq!(outcomes.len(), 2);
    assert_eq!(outcomes[0].name, "echo");
    assert_eq!(outcomes[0].result.as_ref().unwrap(), "said:q");
    assert!(matches!(&outcomes[1].result, Err(Error::UnknownTool(n)) if n == "nope"));
    let custom = vec![ToolOutcome { name: "t".into(), result: Ok("out".into()) }];
    assert!(matches!(agent.record("reply".into(), &custom), Step::AskModel));
    assert_eq!(agent.history()[2].content, "[t] out");
}

#[test]
fn agent_new_and_for_provider_derive_source() {
    let backend = StaticBackend::new(Provider::Gemini, vec![]);
    let agent = Agent::new(&backend, vec![], 2);
    assert_eq!(agent.source(), ToolCallSource::Gemini);
    assert_eq!(agent.max_rounds(), 2);
    assert!(agent.history().is_empty());
    let agent = Agent::for_provider(Provider::Ollama, vec![Box::new(EchoTool)], 1);
    assert_eq!(agent.source(), ToolCallSource::Ollama);
}

#[test]
fn agent_new_with_ollama_backend_uses_ollama_source() {
    let backend = coccinella_agent_sdk::OllamaBackend::new("http://localhost:11434", "llama3");
    let mut agent = Agent::new(&backend, vec![Box::new(EchoTool)], 3);
    assert_eq!(agent.source(), ToolCallSource::Ollama);
    agent.start("x").unwrap();
    assert_eq!(agent.max_rounds(), 3);
}

#[test]
fn invalid_arguments_surface_as_tool_lines() {
    struct Strict;
    impl Tool for Strict {
        fn name(&self) -> &'static str {
            "strict"
        }
        fn run(&self, call: &ToolCall) -> Result<String, Error> {
            Ok(arg_str(call, "path")?.to_string())
        }
    }
    let mut agent = Agent::with_source(vec![Box::new(Strict)], ToolCallSource::OpenAi, 2);
    agent.start("go").unwrap();
    let reply = openai_tool_call("strict", r#"{"path": 7}"#);
    assert!(matches!(agent.step(reply), Step::AskModel));
    assert_eq!(
        agent.history()[2].content,
        "[strict] error: invalid tool arguments: argument `path` must be a string"
    );
}

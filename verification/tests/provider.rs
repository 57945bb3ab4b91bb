use coccinella_agent_sdk::{Error, Message, ModelBackend, OllamaBackend, Provider, StaticBackend, ToolCallSource};

#[test]
fn ollama_base_url_gets_chat_endpoint() {
    let backend = OllamaBackend::new("http://localhost:11434/", "llama3");
    assert_eq!(backend.provider(), Provider::Ollama);
    assert!(backend.base_url().ends_with('/'));
    assert_eq!(backend.model(), "llama3");
}

#[test]
fn static_backend_cycles_and_repeats_last() {
    let mut backend = StaticBackend::new(
        Provider::Ollama,
        vec!["first".to_string(), "second".to_string(), "last".to_string()],
    );
    assert_eq!(backend.chat(), "first");
    assert_eq!(backend.chat(), "second");
    assert_eq!(backend.chat(), "last");
    assert_eq!(backend.chat(), "last");
}

#[test]
fn agent_source_derives_from_provider() {
    let backend = OllamaBackend::new("http://localhost:11434", "llama3");
    let source = ToolCallSource::from_provider(&backend.provider());
    assert_eq!(source, ToolCallSource::Ollama);
}

#[test]
fn static_backend_empty_script_yields_empty_reply() {
    let mut backend = StaticBackend::new(Provider::OpenAI, vec![]);
    assert_eq!(backend.remaining(), 0);
    assert_eq!(backend.chat(), "");
    assert_eq!(backend.chat(), "");
    assert_eq!(backend.remaining(), 0);
}

#[test]
fn static_backend_remaining_counts_down() {
    let mut backend = StaticBackend::new(Provider::Zen, vec!["a".into(), "b".into()]);
    assert_eq!(backend.provider(), Provider::Zen);
    assert_eq!(backend.remaining(), 2);
    assert_eq!(backend.chat(), "a");
    assert_eq!(backend.remaining(), 1);
    assert_eq!(backend.chat(), "b");
    assert_eq!(backend.remaining(), 0);
    for _ in 0..5 {
        assert_eq!(backend.chat(), "b");
    }
    assert_eq!(backend.remaining(), 0);
}

#[test]
fn ollama_chat_url_drops_trailing_slashes() {
    assert_eq!(OllamaBackend::new("http://localhost:11434/", "m").chat_url(), "http://localhost:11434/api/chat");
    assert_eq!(OllamaBackend::new("http://localhost:11434", "m").chat_url(), "http://localhost:11434/api/chat");
    assert_eq!(OllamaBackend::new("http://h:1///", "m").chat_url(), "http://h:1/api/chat");
    assert_eq!(OllamaBackend::new("", "m").chat_url(), "/api/chat");
}

#[test]
fn ollama_chat_request_carries_model_messages_and_no_stream() {
    let backend = OllamaBackend::new("http://localhost:11434", "llama3");
    let messages = vec![Message::user("hi"), Message::assistant("hello".to_string())];
    let req = backend.chat_request(&messages);
    assert_eq!(req.model, "llama3");
    assert!(!req.stream);
    assert_eq!(req.messages.len(), 2);
    assert_eq!(req.messages[0].role, "user");
    assert_eq!(req.messages[0].content, "hi");
    assert_eq!(req.messages[1].role, "assistant");
    assert_eq!(req.messages[1].content, "hello");
}

#[test]
fn ollama_answer_success_returns_body() {
    let r = OllamaBackend::answer("http://x/api/chat", 200, "{\"ok\":true}".to_string());
    assert_eq!(r.unwrap(), "{\"ok\":true}");
    assert_eq!(OllamaBackend::answer("u", 299, "b".to_string()).unwrap(), "b");
}

#[test]
fn ollama_answer_non_success_is_http_error() {
    match OllamaBackend::answer("http://x/api/chat", 404, "missing".to_string()) {
        Err(Error::Http(m)) => assert_eq!(m, "http://x/api/chat: HTTP 404"),
        other => panic!("unexpected {other:?}"),
    }
    assert!(matches!(OllamaBackend::answer("u", 199, String::new()), Err(Error::Http(m)) if m == "u: HTTP 199"));
    assert!(matches!(OllamaBackend::answer("u", 300, String::new()), Err(Error::Http(m)) if m == "u: HTTP 300"));
    assert!(matches!(OllamaBackend::answer("u", 500, String::new()), Err(Error::Http(m)) if m == "u: HTTP 500"));
}

#[test]
fn ollama_transport_error_names_url() {
    let e = OllamaBackend::transport_error("http://127.0.0.1:9/api/chat", "connection refused");
    assert!(matches!(e, Error::Http(ref m) if m == "http://127.0.0.1:9/api/chat: connection refused"));
    assert_eq!(e.message(), "model request failed: http://127.0.0.1:9/api/chat: connection refused");
}

#[test]
fn provider_names() {
    assert_eq!(Provider::OpenAI.as_str(), "OpenAI");
    assert_eq!(Provider::Sambanova.as_str(), "Sambanova");
    assert_eq!(Provider::Gemini.as_str(), "Gemini");
    assert_eq!(Provider::Ollama.as_str(), "Ollama");
    assert_eq!(Provider::OpenRouter.as_str(), "OpenRouter");
    assert_eq!(Provider::Zen.as_str(), "Zen");
}

#[test]
fn message_constructors_set_roles() {
    assert_eq!(Message::user("u").role, "user");
    assert_eq!(Message::assistant("a".into()).role, "assistant");
    let t = Message::tool("out".into());
    assert_eq!(t.role, "tool");
    assert_eq!(t.content, "out");
    let m = Message::new("system", "be brief");
    let d = m.duplicate();
    assert_eq!(d.role, "system");
    assert_eq!(d.content, "be brief");
}

#[test]
fn error_messages() {
    assert_eq!(Error::Parse("x".into()).message(), "unparseable model reply: x");
    assert_eq!(Error::Http("y".into()).message(), "model request failed: y");
    assert_eq!(Error::UnknownTool("nope".into()).message(), "unknown tool: nope");
    assert_eq!(Error::Other("boom".into()).message(), "boom");
    assert_eq!(Error::InvalidArguments("bad".into()).message(), "invalid tool arguments: bad");
}

#[test]
fn error_from_json_error_is_parse() {
    let e: serde_json::Error = serde_json::from_str::<serde_json::Value>("{").unwrap_err();
    let text = e.to_string();
    match Error::from(e) {
        Error::Parse(m) => assert_eq!(m, text),
        other => panic!("unexpected {other:?}"),
    }
}

#[test]
fn error_from_utf8_error_is_other() {
    let e = String::from_utf8(vec![0xff, 0xfe]).unwrap_err();
    let text = e.to_string();
    match Error::from(e) {
        Error::Other(m) => assert_eq!(m, text),
        other => panic!("unexpected {other:?}"),
    }
}

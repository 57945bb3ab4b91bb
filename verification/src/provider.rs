use vstd::prelude::*;
use crate::error::{Error, ErrorView};
use crate::text::{decimal, push_decimal, trim_end_char, trim_end_matching};

verus! {

/// Supported AI model providers.
#[derive(Debug, Clone, Copy, PartialEq, Eq, Hash, Structural)]
pub enum Provider {
    OpenAI,
    Sambanova,
    Gemini,
    Ollama,
    OpenRouter,
    Zen,
}

/// The display name of a provider.
pub open spec fn provider_name(p: Provider) -> Seq<char> {
    match p {
        Provider::OpenAI => "OpenAI"@,
        Provider::Sambanova => "Sambanova"@,
        Provider::Gemini => "Gemini"@,
        Provider::Ollama => "Ollama"@,
        Provider::OpenRouter => "OpenRouter"@,
        Provider::Zen => "Zen"@,
    }
}

impl Provider {
    /// The display name of the provider (e.g. `OpenAI`).
    pub fn as_str(&self) -> (r: &'static str)
        ensures
            r@ == provider_name(*self),
    {
        match self {
            Provider::OpenAI => {
                proof { reveal_strlit("OpenAI"); }
                "OpenAI"
            },
            Provider::Sambanova => {
                proof { reveal_strlit("Sambanova"); }
                "Sambanova"
            },
            Provider::Gemini => {
                proof { reveal_strlit("Gemini"); }
                "Gemini"
            },
            Provider::Ollama => {
                proof { reveal_strlit("Ollama"); }
                "Ollama"
            },
            Provider::OpenRouter => {
                proof { reveal_strlit("OpenRouter"); }
                "OpenRouter"
            },
            Provider::Zen => {
                proof { reveal_strlit("Zen"); }
                "Zen"
            },
        }
    }
}

/// A single chat message exchanged with the model backend.
#[derive(Debug, Clone)]
pub struct Message {
    pub role: String,
    pub content: String,
}

/// The mathematical value of a [`Message`].
pub struct MessageView {
    pub role: Seq<char>,
    pub content: Seq<char>,
}

impl View for Message {
    type V = MessageView;

    open spec fn view(&self) -> MessageView {
        MessageView { role: self.role@, content: self.content@ }
    }
}

/// The message with the given role and content.
pub open spec fn message_of(role: Seq<char>, content: Seq<char>) -> MessageView {
    MessageView { role, content }
}

/// The views of a list of messages.
pub open spec fn messages_view(ms: Seq<Message>) -> Seq<MessageView> {
    ms.map_values(|m: Message| m@)
}

impl Message {
    /// A message with the given role and content.
    pub fn new(role: &str, content: &str) -> (r: Message)
        ensures
            r@ == message_of(role@, content@),
    {
        Message { role: String::from_str(role), content: String::from_str(content) }
    }

    /// A message from the user.
    pub fn user(content: &str) -> (r: Message)
        ensures
            r@ == message_of("user"@, content@),
    {
        let role = "user";
        proof { reveal_strlit("user"); }
        Message::new(role, content)
    }

    /// A message from the assistant.
    pub fn assistant(content: String) -> (r: Message)
        ensures
            r@ == message_of("assistant"@, content@),
    {
        let role = "assistant";
        proof { reveal_strlit("assistant"); }
        Message { role: String::from_str(role), content }
    }

    /// A message carrying tool outputs.
    pub fn tool(content: String) -> (r: Message)
        ensures
            r@ == message_of("tool"@, content@),
    {
        let role = "tool";
        proof { reveal_strlit("tool"); }
        Message { role: String::from_str(role), content }
    }

    /// A copy of the message.
    pub fn duplicate(&self) -> (r: Message)
        ensures
            r@ == self@,
    {
        Message { role: self.role.clone(), content: self.content.clone() }
    }
}

/// Copies of a list of messages.
pub fn copy_messages(messages: &[Message]) -> (r: Vec<Message>)
    ensures
        messages_view(r@) == messages_view(messages@),
{
    let mut out: Vec<Message> = Vec::new();
    let mut i: usize = 0;
    while i < messages.len()
        invariant
            i <= messages@.len(),
            out@.len() == i,
            forall|k: int| 0 <= k < i ==> #[trigger] out@[k]@ == messages@[k]@,
        decreases messages@.len() - i,
    {
        out.push(messages[i].duplicate());
        i = i + 1;
    }
    assert(messages_view(out@) =~= messages_view(messages@));
    out
}

/// The body of an Ollama chat request: the model, the conversation, and
/// `stream: false`.
#[derive(Debug, Clone)]
pub struct ChatRequest {
    pub model: String,
    pub messages: Vec<Message>,
    pub stream: bool,
}

/// Contract for a model backend: which provider it talks to. Running a
/// chat completion is input and output, and is done by the program that
/// drives the [`crate::Agent`].
pub trait ModelBackend {
    /// The provider of this backend. A backend's type may say which it is;
    /// where it does not, it is some provider that depends on the backend
    /// alone.
    open spec fn spec_provider(&self) -> Provider {
        unspecified_provider(self)
    }

    /// Which provider this backend talks to.
    fn provider(&self) -> (p: Provider)
        ensures
            p == self.spec_provider(),
    ;
}

/// Holds of every value and provider.
pub open spec fn may_be_served_by<T: ?Sized>(t: &T, p: Provider) -> bool {
    true
}

/// The provider of `t` where its type says nothing more: some provider
/// that depends on the backend alone.
pub closed spec fn unspecified_provider<T: ?Sized>(t: &T) -> Provider {
    choose|p: Provider| #[trigger] may_be_served_by(t, p)
}

/// A scripted backend for tests and examples. Each chat pops the next
/// reply; the last reply repeats once the queue is empty, and an empty
/// script yields the empty reply.
pub struct StaticBackend {
    provider: Provider,
    replies: Vec<String>,
    next: usize,
}

/// The state of a [`StaticBackend`]: its provider, the replies still
/// queued, and the last reply handed out (if any).
pub struct StaticBackendView {
    pub provider: Provider,
    pub pending: Seq<Seq<char>>,
    pub last: Option<Seq<char>>,
}

impl View for StaticBackend {
    type V = StaticBackendView;

    closed spec fn view(&self) -> StaticBackendView {
        StaticBackendView {
            provider: self.provider,
            pending: self.replies@.subrange(self.next as int, self.replies@.len() as int).map_values(
                |r: String| r@,
            ),
            last: if self.next == 0 {
                None
            } else {
                Some(self.replies@[self.next - 1]@)
            },
        }
    }
}

/// One chat on a scripted backend: the state after it and the reply.
pub open spec fn static_chat(s: StaticBackendView) -> (StaticBackendView, Seq<char>) {
    if s.pending.len() > 0 {
        (
            StaticBackendView { provider: s.provider, pending: s.pending.drop_first(), last: Some(s.pending[0]) },
            s.pending[0],
        )
    } else {
        (
            s,
            match s.last {
                Some(l) => l,
                None => Seq::empty(),
            },
        )
    }
}

impl StaticBackend {
    #[verifier::type_invariant]
    spec fn inv(self) -> bool {
        self.next <= self.replies@.len()
    }

    /// Create a backend that replays the given raw replies in order.
    pub fn new(provider: Provider, replies: Vec<String>) -> (r: StaticBackend)
        ensures
            r@ == (StaticBackendView {
                provider,
                pending: replies@.map_values(|s: String| s@),
                last: None,
            }),
    {
        let r = StaticBackend { provider, replies, next: 0 };
        assert(r.replies@.subrange(0, r.replies@.len() as int) =~= r.replies@);
        r
    }

    /// Number of scripted replies not yet handed out.
    pub fn remaining(&self) -> (n: usize)
        ensures
            n == self@.pending.len(),
    {
        proof { use_type_invariant(self); }
        self.replies.len() - self.next
    }

    /// The next scripted reply (or the last one again once the script is
    /// used up).
    pub fn chat(&mut self) -> (r: String)
        ensures
            (final(self)@, r@) == static_chat(old(self)@),
    {
        proof { use_type_invariant(&*self); }
        let ghost s = self@;
        if self.next < self.replies.len() {
            let reply = self.replies[self.next].clone();
            self.next = self.next + 1;
            proof {
                let v = self.replies@.subrange(self.next as int, self.replies@.len() as int).map_values(|r: String| r@);
                assert(v =~= s.pending.drop_first());
            }
            reply
        } else if self.next > 0 {
            self.replies[self.next - 1].clone()
        } else {
            String::new()
        }
    }
}

/// The reply of chat number `k` (counting from zero) made from state `s`.
pub open spec fn nth_static_reply(s: StaticBackendView, k: nat) -> Seq<char>
    decreases k,
{
    if k == 0 {
        static_chat(s).1
    } else {
        nth_static_reply(static_chat(s).0, (k - 1) as nat)
    }
}

/// What chat number `k` of a scripted backend answers: the queued replies
/// in order; once they are used up, the last reply handed out, again and
/// again; the empty reply if there never was one.
pub open spec fn scripted_reply(s: StaticBackendView, k: nat) -> Seq<char> {
    if k < s.pending.len() {
        s.pending[k as int]
    } else if s.pending.len() > 0 {
        s.pending.last()
    } else {
        match s.last {
            Some(l) => l,
            None => Seq::empty(),
        }
    }
}

/// A scripted backend replays its script in order, then repeats the last
/// reply forever; an empty script answers every chat with the empty reply.
pub proof fn lemma_static_replay(s: StaticBackendView, k: nat)
    ensures
        nth_static_reply(s, k) == scripted_reply(s, k),
    decreases k,
{
    if k > 0 {
        let s1 = static_chat(s).0;
        lemma_static_replay(s1, (k - 1) as nat);
        if s.pending.len() > 0 {
            if k - 1 < s1.pending.len() {
                assert(s1.pending[k - 1] == s.pending[k as int]);
            } else if s1.pending.len() > 0 {
                assert(s1.pending.last() == s.pending.last());
            } else {
                assert(s.pending.len() == 1);
            }
        }
    }
}

/// Once its script is used up, a chat leaves a scripted backend as it was.
pub proof fn lemma_static_exhausted_is_stable(s: StaticBackendView)
    requires
        s.pending.len() == 0,
    ensures
        static_chat(s).0 == s,
{
}

/// The chat endpoint does not depend on a trailing slash of the base URL.
pub proof fn lemma_chat_endpoint_ignores_trailing_slash(base: Seq<char>)
    ensures
        chat_endpoint(base.push('/')) == chat_endpoint(base),
{
    let b = base.push('/');
    assert(b.last() == '/');
    assert(b.drop_last() =~= base);
}

impl ModelBackend for StaticBackend {
    open spec fn spec_provider(&self) -> Provider {
        self@.provider
    }

    fn provider(&self) -> (p: Provider) {
        self.provider
    }
}


/// A local Ollama daemon, reached over HTTP at `POST {base}/api/chat` with
/// `stream: false`. This type holds the configuration and decides what is
/// sent and what an answer means; the request itself is sent by the caller.
pub struct OllamaBackend {
    base_url: String,
    model: String,
}

/// The configuration of an [`OllamaBackend`].
pub struct OllamaBackendView {
    pub base_url: Seq<char>,
    pub model: Seq<char>,
}

impl View for OllamaBackend {
    type V = OllamaBackendView;

    closed spec fn view(&self) -> OllamaBackendView {
        OllamaBackendView { base_url: self.base_url@, model: self.model@ }
    }
}

/// The chat endpoint of a daemon: the base URL without trailing slashes,
/// followed by `/api/chat`.
pub open spec fn chat_endpoint(base_url: Seq<char>) -> Seq<char> {
    trim_end_char(base_url, '/') + "/api/chat"@
}

/// Whether an HTTP status is a success (2xx).
pub open spec fn is_success_status(status: u16) -> bool {
    200 <= status <= 299
}

/// What a daemon's answer means: the body for a 2xx status, else an HTTP
/// error naming the URL and the status.
pub open spec fn answer_of(url: Seq<char>, status: u16, body: Seq<char>) -> Result<Seq<char>, ErrorView> {
    if is_success_status(status) {
        Ok(body)
    } else {
        Err(ErrorView::Http(url + ": HTTP "@ + decimal(status as nat)))
    }
}

impl OllamaBackend {
    /// Create a backend pointed at an Ollama daemon.
    pub fn new(base_url: &str, model: &str) -> (r: OllamaBackend)
        ensures
            r@ == (OllamaBackendView { base_url: base_url@, model: model@ }),
    {
        OllamaBackend { base_url: String::from_str(base_url), model: String::from_str(model) }
    }

    /// The base URL as configured.
    pub fn base_url(&self) -> (r: &str)
        ensures
            r@ == self@.base_url,
    {
        self.base_url.as_str()
    }

    /// The `model` name as configured.
    pub fn model(&self) -> (r: &str)
        ensures
            r@ == self@.model,
    {
        self.model.as_str()
    }

    /// The URL the chat request goes to.
    pub fn chat_url(&self) -> (r: String)
        ensures
            r@ == chat_endpoint(self@.base_url),
    {
        let base = trim_end_matching(self.base_url.as_str(), '/');
        let path = "/api/chat";
        proof { reveal_strlit("/api/chat"); }
        base.concat(path)
    }

    /// The request body for a conversation: this backend's model, the
    /// messages in order, and no streaming.
    pub fn chat_request(&self, messages: &[Message]) -> (r: ChatRequest)
        ensures
            r.model@ == self@.model,
            messages_view(r.messages@) == messages_view(messages@),
            !r.stream,
    {
        ChatRequest { model: self.model.clone(), messages: copy_messages(messages), stream: false }
    }

    /// The error for a request that failed before an answer came back.
    pub fn transport_error(url: &str, detail: &str) -> (r: Error)
        ensures
            r@ == ErrorView::Http(url@ + ": "@ + detail@),
    {
        let sep = ": ";
        proof { reveal_strlit(": "); }
        Error::Http(String::from_str(url).concat(sep).concat(detail))
    }

    /// The outcome of a request that got an answer: the body for a 2xx
    /// status, else `Error::Http` with the URL and `HTTP <status>`.
    pub fn answer(url: &str, status: u16, body: String) -> (r: Result<String, Error>)
        ensures
            match r {
                Ok(b) => answer_of(url@, status, body@) == Ok::<Seq<char>, ErrorView>(b@),
                Err(e) => answer_of(url@, status, body@) == Err::<Seq<char>, ErrorView>(e@),
            },
    {
        if 200 <= status && status <= 299 {
            Ok(body)
        } else {
            let mid = ": HTTP ";
            proof { reveal_strlit(": HTTP "); }
            let mut text = String::from_str(url).concat(mid);
            push_decimal(&mut text, status as u64);
            Err(Error::Http(text))
        }
    }
}

impl ModelBackend for OllamaBackend {
    open spec fn spec_provider(&self) -> Provider {
        Provider::Ollama
    }

    fn provider(&self) -> (p: Provider) {
        Provider::Ollama
    }
}

} // verus!

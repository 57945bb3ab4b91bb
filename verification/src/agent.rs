//! The agent loop as a state machine. A run is: [`Agent::start`] with the
//! user prompt, then, while the answer is [`Step::AskModel`], send the
//! history to the model and hand its reply to [`Agent::step`]. The loop
//! ends with [`Step::Done`] and the final text, after at most `max_rounds`
//! replies.
use vstd::prelude::*;
use crate::error::{error_text, Error, ErrorView};
use crate::provider::{message_of, messages_view, Message, MessageView, ModelBackend, Provider};
use crate::text::{decimal, join, join_with, push_decimal, trim, trim_ws};
use crate::tool::{dispatch, dispatched, tool_names, Tool};
use crate::tool_call::{
    calls_view, normalize_view, parse_tool_calls, source_of_provider, tool_calls_in, CallView, ToolCall,
    ToolCallSource,
};

verus! {

/// What a tool call gave: the tool's name and its output or error.
#[derive(Debug)]
pub struct ToolOutcome {
    pub name: String,
    pub result: Result<String, Error>,
}

/// The value of a [`ToolOutcome`].
pub struct OutcomeView {
    pub name: Seq<char>,
    pub result: Result<Seq<char>, ErrorView>,
}

impl View for ToolOutcome {
    type V = OutcomeView;

    open spec fn view(&self) -> OutcomeView {
        OutcomeView {
            name: self.name@,
            result: match self.result {
                Ok(s) => Ok(s@),
                Err(e) => Err(e@),
            },
        }
    }
}

/// What the driver must do next.
#[derive(Debug)]
pub enum Step {
    /// Send the history to the model and hand its reply to [`Agent::step`].
    AskModel,
    /// The run is over; this is its answer.
    Done(String),
}

/// The value of a [`Step`].
pub enum StepView {
    AskModel,
    Done(Seq<char>),
}

impl View for Step {
    type V = StepView;

    open spec fn view(&self) -> StepView {
        match self {
            Step::AskModel => StepView::AskModel,
            Step::Done(s) => StepView::Done(s@),
        }
    }
}

/// The state of an [`Agent`].
pub struct AgentView {
    /// Messages exchanged so far.
    pub history: Seq<MessageView>,
    /// How tool calls are parsed from replies.
    pub source: ToolCallSource,
    /// The round budget of a run.
    pub max_rounds: nat,
    /// Rounds completed in the current run.
    pub round: nat,
    /// Whether a run is waiting for the model's reply.
    pub awaiting: bool,
    /// The names of the registered tools, in order.
    pub tools: Seq<Seq<char>>,
}

/// The line a tool outcome contributes: `[name] output` or
/// `[name] error: message`.
pub open spec fn outcome_line(o: OutcomeView) -> Seq<char> {
    match o.result {
        Ok(out) => "["@ + o.name + "] "@ + out,
        Err(e) => "["@ + o.name + "] error: "@ + error_text(e),
    }
}

/// The lines of a list of outcomes.
pub open spec fn outcome_lines(os: Seq<OutcomeView>) -> Seq<Seq<char>> {
    os.map_values(|o: OutcomeView| outcome_line(o))
}

/// The tool message of a round: the outcome lines joined by newlines.
pub open spec fn tool_report(os: Seq<OutcomeView>) -> Seq<char> {
    join(outcome_lines(os), "\n"@)
}

/// The final answer of a run that used up its budget.
pub open spec fn max_rounds_report(max_rounds: nat, os: Seq<OutcomeView>) -> Seq<char> {
    "Reached max rounds ("@ + decimal(max_rounds) + "); last tool outputs:\n"@ + tool_report(os)
}

/// The error of a run started with a zero budget.
pub open spec fn zero_budget_error() -> ErrorView {
    ErrorView::Other("max_rounds must be at least 1"@)
}

/// Starting a run: refused with a zero budget; otherwise the prompt is
/// recorded as a user message and the run waits for the model.
pub open spec fn start_spec(s: AgentView, prompt: Seq<char>) -> (AgentView, Result<(), ErrorView>) {
    if s.max_rounds == 0 {
        (s, Err(zero_budget_error()))
    } else {
        (
            AgentView {
                history: s.history.push(message_of("user"@, prompt)),
                round: 0,
                awaiting: true,
                ..s
            },
            Ok(()),
        )
    }
}

/// Taking one model reply, given what its tool calls gave:
/// * no tool calls: the trimmed reply is the answer;
/// * last round: the tool outputs are not fed back, the answer reports them;
/// * otherwise: the raw reply and the tool message join the history and
///   the model is asked again.
pub open spec fn step_spec(s: AgentView, reply: Seq<char>, os: Seq<OutcomeView>) -> (AgentView, StepView) {
    if os.len() == 0 {
        let text = trim_ws(reply);
        (
            AgentView { history: s.history.push(message_of("assistant"@, text)), awaiting: false, ..s },
            StepView::Done(text),
        )
    } else if s.round + 1 == s.max_rounds {
        let text = max_rounds_report(s.max_rounds, os);
        (
            AgentView { history: s.history.push(message_of("assistant"@, text)), awaiting: false, ..s },
            StepView::Done(text),
        )
    } else {
        (
            AgentView {
                history: s.history.push(message_of("assistant"@, reply)).push(
                    message_of("tool"@, tool_report(os)),
                ),
                round: s.round + 1,
                ..s
            },
            StepView::AskModel,
        )
    }
}

/// `os` is what dispatching `calls` to `tools` may give: one outcome per
/// call, in order, under the call's name, with what [`dispatch`] may give
/// for that call.
pub open spec fn outcomes_of(tools: Seq<Box<dyn Tool>>, calls: Seq<ToolCall>, os: Seq<ToolOutcome>) -> bool {
    &&& os.len() == calls.len()
    &&& forall|i: int|
        0 <= i < calls.len() ==> {
            &&& (#[trigger] os[i]).name@ == calls[i].name@
            &&& dispatched(tools, &calls[i], &os[i].result)
        }
}

/// The calls a reply asks for, as they are dispatched: parsed from the
/// reply with the agent's source, `run_command` calls normalized.
pub open spec fn dispatched_calls(reply: Seq<char>, source: ToolCallSource) -> Seq<CallView> {
    tool_calls_in(reply, source).map_values(|c: CallView| normalize_view(c))
}

/// The views of a list of outcomes.
pub open spec fn outcome_views(os: Seq<ToolOutcome>) -> Seq<OutcomeView> {
    os.map_values(|o: ToolOutcome| o@)
}

/// One reply of the model, with what the tool calls of that reply gave.
pub type ReplyEvent = (Seq<char>, Seq<OutcomeView>);

/// The state after feeding replies to a run, one at a time, for as long as
/// it waits for the model (replies after its end are not taken).
pub open spec fn replay(s: AgentView, events: Seq<ReplyEvent>) -> AgentView
    decreases events.len(),
{
    if events.len() == 0 || !s.awaiting {
        s
    } else {
        replay(step_spec(s, events[0].0, events[0].1).0, events.drop_first())
    }
}

/// `a` is a prefix of `b`.
pub open spec fn is_prefix(a: Seq<MessageView>, b: Seq<MessageView>) -> bool {
    a.len() <= b.len() && b.subrange(0, a.len() as int) == a
}

/// A run ends within its budget: once it has taken as many replies as it
/// has rounds left, it no longer waits for the model, whatever the replies
/// and the tools gave. In particular a run asks the model at most
/// `max_rounds` times.
pub proof fn lemma_run_ends_within_budget(s: AgentView, events: Seq<ReplyEvent>)
    requires
        agent_wf(s),
        s.awaiting,
        events.len() >= s.max_rounds - s.round,
    ensures
        !replay(s, events).awaiting,
    decreases events.len(),
{
    let next = step_spec(s, events[0].0, events[0].1).0;
    if next.awaiting {
        lemma_run_ends_within_budget(next, events.drop_first());
    } else {
        assert(replay(next, events.drop_first()) == next);
    }
}

/// Starting a run and taking replies never drop a message: the history
/// before is a prefix of the history after.
pub proof fn lemma_history_only_grows(s: AgentView, prompt: Seq<char>, events: Seq<ReplyEvent>)
    ensures
        is_prefix(s.history, start_spec(s, prompt).0.history),
        is_prefix(s.history, replay(s, events).history),
    decreases events.len(),
{
    assert(start_spec(s, prompt).0.history.subrange(0, s.history.len() as int) =~= s.history);
    if events.len() > 0 && s.awaiting {
        let next = step_spec(s, events[0].0, events[0].1).0;
        assert(next.history.subrange(0, s.history.len() as int) =~= s.history);
        lemma_history_only_grows(next, prompt, events.drop_first());
        let h = replay(next, events.drop_first()).history;
        assert(h.subrange(0, s.history.len() as int) =~= h.subrange(0, next.history.len() as int).subrange(
            0,
            s.history.len() as int,
        ));
    } else {
        assert(s.history.subrange(0, s.history.len() as int) =~= s.history);
    }
}

/// Unknown tools and failing tools never end a run early: while rounds
/// remain, a reply with tool calls leads to asking the model again, with the
/// raw reply and a tool message holding every outcome line appended.
pub proof fn lemma_tool_failures_continue(s: AgentView, reply: Seq<char>, os: Seq<OutcomeView>)
    requires
        s.awaiting,
        os.len() > 0,
        s.round + 1 < s.max_rounds,
    ensures
        step_spec(s, reply, os).1 == StepView::AskModel,
        step_spec(s, reply, os).0.awaiting,
        step_spec(s, reply, os).0.history == s.history.push(message_of("assistant"@, reply)).push(
            message_of("tool"@, join(outcome_lines(os), "\n"@)),
        ),
{
}

/// A reply without tool calls ends the run with the reply trimmed of
/// surrounding whitespace, which is also the last message of the history.
pub proof fn lemma_plain_reply_is_final(s: AgentView, reply: Seq<char>)
    ensures
        step_spec(s, reply, Seq::empty()).1 == StepView::Done(trim_ws(reply)),
        !step_spec(s, reply, Seq::empty()).0.awaiting,
        step_spec(s, reply, Seq::empty()).0.history == s.history.push(message_of("assistant"@, trim_ws(reply))),
{
}

/// On the last round the tool outputs are not fed back: the run ends with
/// the max-rounds report, which is the only message appended.
pub proof fn lemma_last_round_reports(s: AgentView, reply: Seq<char>, os: Seq<OutcomeView>)
    requires
        os.len() > 0,
        s.round + 1 == s.max_rounds,
    ensures
        step_spec(s, reply, os).1 == StepView::Done(max_rounds_report(s.max_rounds, os)),
        step_spec(s, reply, os).0.history == s.history.push(
            message_of("assistant"@, max_rounds_report(s.max_rounds, os)),
        ),
        !step_spec(s, reply, os).0.awaiting,
{
}

/// The line of one outcome, spelled out: the tool's name in brackets, then
/// its output, or `error: ` and the error's text.
pub proof fn lemma_outcome_lines_one_per_outcome(os: Seq<OutcomeView>)
    ensures
        outcome_lines(os).len() == os.len(),
        forall|i: int|
            0 <= i < os.len() ==> #[trigger] outcome_lines(os)[i] == match os[i].result {
                Ok(out) => "["@ + os[i].name + "] "@ + out,
                Err(e) => "["@ + os[i].name + "] error: "@ + error_text(e),
            },
{
}

/// On the last round the answer is the header naming the budget, followed
/// by the lines of every outcome, in order, joined by newlines; it is also
/// the one message appended, and the run ends.
pub proof fn lemma_last_round_reports_every_outcome(s: AgentView, reply: Seq<char>, os: Seq<OutcomeView>)
    requires
        os.len() > 0,
        s.round + 1 == s.max_rounds,
    ensures
        step_spec(s, reply, os).1 == StepView::Done(
            "Reached max rounds ("@ + decimal(s.max_rounds) + "); last tool outputs:\n"@ + join(
                outcome_lines(os),
                "\n"@,
            ),
        ),
        step_spec(s, reply, os).0.history == s.history.push(
            message_of(
                "assistant"@,
                "Reached max rounds ("@ + decimal(s.max_rounds) + "); last tool outputs:\n"@ + join(
                    outcome_lines(os),
                    "\n"@,
                ),
            ),
        ),
        !step_spec(s, reply, os).0.awaiting,
{
}

/// A run that goes on feeds back every outcome: the tool message is the
/// lines of all outcomes, in order, joined by newlines.
pub proof fn lemma_tool_message_holds_every_outcome(s: AgentView, reply: Seq<char>, os: Seq<OutcomeView>)
    requires
        os.len() > 0,
        s.round + 1 < s.max_rounds,
    ensures
        step_spec(s, reply, os).0.history.last() == message_of("tool"@, join(outcome_lines(os), "\n"@)),
{
}

/// A started run has its whole budget: starting succeeds exactly when the
/// budget is not zero, and then the run is at round zero, waits for the
/// model, and the prompt is the one message appended.
pub proof fn lemma_started_run_has_whole_budget(s: AgentView, prompt: Seq<char>)
    ensures
        start_spec(s, prompt).1 is Ok <==> s.max_rounds > 0,
        start_spec(s, prompt).1 is Ok ==> {
            &&& start_spec(s, prompt).0.round == 0
            &&& start_spec(s, prompt).0.awaiting
            &&& start_spec(s, prompt).0.max_rounds == s.max_rounds
            &&& start_spec(s, prompt).0.history == s.history.push(message_of("user"@, prompt))
        },
{
}

/// Whatever earlier runs did, a new run takes `max_rounds - 1` replies that
/// ask for tools and still waits for the model: only the reply after those
/// can end it with the max-rounds report.
pub proof fn lemma_new_run_takes_full_budget(s: AgentView, prompt: Seq<char>, events: Seq<ReplyEvent>)
    requires
        s.max_rounds > 0,
        events.len() + 1 == s.max_rounds,
        forall|j: int| 0 <= j < events.len() ==> (#[trigger] events[j]).1.len() > 0,
    ensures
        replay(start_spec(s, prompt).0, events).awaiting,
        replay(start_spec(s, prompt).0, events).round + 1 == s.max_rounds,
{
    lemma_run_feeds_tool_results_back(start_spec(s, prompt).0, events);
}

/// A zero budget refuses every run and leaves the agent unchanged.
pub proof fn lemma_zero_budget_refused(s: AgentView, prompt: Seq<char>)
    requires
        s.max_rounds == 0,
    ensures
        start_spec(s, prompt) == (s, Err::<(), ErrorView>(zero_budget_error())),
{
}

/// The messages a run appends for replies that asked for tools and were
/// fed back: for each, the raw reply and the tool message.
pub open spec fn fed_back_turns(events: Seq<ReplyEvent>) -> Seq<MessageView>
    decreases events.len(),
{
    if events.len() == 0 {
        Seq::empty()
    } else {
        seq![message_of("assistant"@, events[0].0), message_of("tool"@, tool_report(events[0].1))]
            + fed_back_turns(events.drop_first())
    }
}

/// Continuation over a whole run: while each reply asks for tools and
/// rounds remain, the run keeps waiting, one round is used per reply, and
/// the history grows by exactly the raw replies and their tool messages, in
/// order. The history at each step is what the next model request is sent.
pub proof fn lemma_run_feeds_tool_results_back(s: AgentView, events: Seq<ReplyEvent>)
    requires
        s.awaiting,
        s.round + events.len() < s.max_rounds,
        forall|j: int| 0 <= j < events.len() ==> (#[trigger] events[j]).1.len() > 0,
    ensures
        replay(s, events).awaiting,
        replay(s, events).round == s.round + events.len(),
        replay(s, events).history == s.history + fed_back_turns(events),
    decreases events.len(),
{
    if events.len() == 0 {
        assert(s.history + fed_back_turns(events) =~= s.history);
    } else {
        let next = step_spec(s, events[0].0, events[0].1).0;
        let rest = events.drop_first();
        assert forall|j: int| 0 <= j < rest.len() implies (#[trigger] rest[j]).1.len() > 0 by {
            assert(rest[j] == events[j + 1]);
        }
        lemma_run_feeds_tool_results_back(next, rest);
        assert(next.history + fed_back_turns(rest) =~= s.history + fed_back_turns(events));
    }
}

/// Every message has role `user`, `assistant` or `tool`.
pub open spec fn roles_known(h: Seq<MessageView>) -> bool {
    forall|i: int|
        0 <= i < h.len() ==> {
            ||| (#[trigger] h[i]).role == "user"@
            ||| h[i].role == "assistant"@
            ||| h[i].role == "tool"@
        }
}

/// Runs only append user, assistant and tool messages.
pub proof fn lemma_roles_known(s: AgentView, prompt: Seq<char>, events: Seq<ReplyEvent>)
    requires
        roles_known(s.history),
    ensures
        roles_known(start_spec(s, prompt).0.history),
        roles_known(replay(s, events).history),
    decreases events.len(),
{
    let h = start_spec(s, prompt).0.history;
    assert forall|i: int| 0 <= i < h.len() implies {
        ||| (#[trigger] h[i]).role == "user"@
        ||| h[i].role == "assistant"@
        ||| h[i].role == "tool"@
    } by {
        if i < s.history.len() {
            assert(h[i] == s.history[i]);
        }
    }
    if events.len() > 0 && s.awaiting {
        let next = step_spec(s, events[0].0, events[0].1).0;
        let g = next.history;
        assert forall|i: int| 0 <= i < g.len() implies {
            ||| (#[trigger] g[i]).role == "user"@
            ||| g[i].role == "assistant"@
            ||| g[i].role == "tool"@
        } by {
            if i < s.history.len() {
                assert(g[i] == s.history[i]);
            }
        }
        lemma_roles_known(next, prompt, events.drop_first());
    }
}

/// Runs never change the budget, the parse source or the tools.
pub proof fn lemma_configuration_kept(s: AgentView, prompt: Seq<char>, events: Seq<ReplyEvent>)
    ensures
        start_spec(s, prompt).0.max_rounds == s.max_rounds,
        start_spec(s, prompt).0.source == s.source,
        start_spec(s, prompt).0.tools == s.tools,
        replay(s, events).max_rounds == s.max_rounds,
        replay(s, events).source == s.source,
        replay(s, events).tools == s.tools,
    decreases events.len(),
{
    if events.len() > 0 && s.awaiting {
        lemma_configuration_kept(step_spec(s, events[0].0, events[0].1).0, prompt, events.drop_first());
    }
}

/// A deliberately small agent loop: prompt the model, dispatch the tool
/// calls of its reply, feed the results back, repeat up to `max_rounds`.
pub struct Agent {
    tools: Vec<Box<dyn Tool>>,
    history: Vec<Message>,
    source: ToolCallSource,
    max_rounds: usize,
    round: usize,
    awaiting: bool,
}

impl View for Agent {
    type V = AgentView;

    closed spec fn view(&self) -> AgentView {
        AgentView {
            history: messages_view(self.history@),
            source: self.source,
            max_rounds: self.max_rounds as nat,
            round: self.round as nat,
            awaiting: self.awaiting,
            tools: tool_names(self.tools@),
        }
    }
}

/// A consistent agent state: a waiting run has budget left.
pub open spec fn agent_wf(s: AgentView) -> bool {
    s.awaiting ==> s.round < s.max_rounds
}

impl Agent {
    #[verifier::type_invariant]
    spec fn inv(self) -> bool {
        &&& self.awaiting ==> self.round < self.max_rounds
        &&& roles_known(messages_view(self.history@))
    }

    /// The registered tools, in order.
    pub closed spec fn registry(&self) -> Seq<Box<dyn Tool>> {
        self.tools@
    }

    /// The names of the registered tools are those of [`Agent::registry`].
    pub proof fn lemma_tool_names(&self)
        ensures
            self@.tools == tool_names(self.registry()),
    {
    }

    /// Create an agent with an explicit parse source.
    pub fn with_source(tools: Vec<Box<dyn Tool>>, source: ToolCallSource, max_rounds: usize) -> (r: Agent)
        ensures
            r.registry() == tools@,
            r@ == (AgentView {
                history: Seq::empty(),
                source,
                max_rounds: max_rounds as nat,
                round: 0,
                awaiting: false,
                tools: tool_names(tools@),
            }),
    {
        let r = Agent { tools, history: Vec::new(), source, max_rounds, round: 0, awaiting: false };
        assert(messages_view(r.history@) =~= Seq::empty());
        r
    }

    /// Create an agent whose parse source is that of the given provider.
    pub fn for_provider(provider: Provider, tools: Vec<Box<dyn Tool>>, max_rounds: usize) -> (r: Agent)
        ensures
            r.registry() == tools@,
            r@ == (AgentView {
                history: Seq::empty(),
                source: source_of_provider(provider),
                max_rounds: max_rounds as nat,
                round: 0,
                awaiting: false,
                tools: tool_names(tools@),
            }),
    {
        let source = ToolCallSource::from_provider(&provider);
        Self::with_source(tools, source, max_rounds)
    }

    /// Create an agent whose parse source is derived from the backend's
    /// provider (e.g. `Ollama` for a local daemon).
    pub fn new<B: ModelBackend + ?Sized>(backend: &B, tools: Vec<Box<dyn Tool>>, max_rounds: usize) -> (r: Agent)
        ensures
            r.registry() == tools@,
            r@ == (AgentView {
                history: Seq::empty(),
                source: source_of_provider(backend.spec_provider()),
                max_rounds: max_rounds as nat,
                round: 0,
                awaiting: false,
                tools: tool_names(tools@),
            }),
    {
        let provider = backend.provider();
        Self::for_provider(provider, tools, max_rounds)
    }

    /// Messages exchanged so far (user, assistant, and tool turns).
    pub fn history(&self) -> (r: &[Message])
        ensures
            messages_view(r@) == self@.history,
            roles_known(self@.history),
    {
        proof { use_type_invariant(self); }
        self.history.as_slice()
    }

    /// Configured round budget.
    pub fn max_rounds(&self) -> (r: usize)
        ensures
            r == self@.max_rounds,
    {
        self.max_rounds
    }

    /// How tool calls are to be parsed from this agent's replies.
    pub fn source(&self) -> (r: ToolCallSource)
        ensures
            r == self@.source,
    {
        self.source
    }

    /// Whether a run is waiting for the model's reply.
    pub fn is_awaiting_reply(&self) -> (r: bool)
        ensures
            r == self@.awaiting,
    {
        self.awaiting
    }

    /// Begin a run with the user's prompt. With a zero budget the run is
    /// refused (`Error::Other`) and nothing changes; otherwise the prompt
    /// joins the history and the model is to be asked.
    pub fn start(&mut self, user_prompt: &str) -> (r: Result<(), Error>)
        ensures
            (final(self)@, match r {
                Ok(()) => Ok::<(), ErrorView>(()),
                Err(e) => Err(e@),
            }) == start_spec(old(self)@, user_prompt@),
            final(self).registry() == old(self).registry(),
            agent_wf(final(self)@),
    {
        proof { use_type_invariant(&*self); }
        if self.max_rounds == 0 {
            let text = "max_rounds must be at least 1";
            proof { reveal_strlit("max_rounds must be at least 1"); }
            return Err(Error::Other(String::from_str(text)));
        }
        let ghost old_history = self.history@;
        self.push_message(Message::user(user_prompt));
        self.round = 0;
        self.awaiting = true;
        assert(messages_view(self.history@) =~= messages_view(old_history).push(
            message_of("user"@, user_prompt@),
        ));
        Ok(())
    }

    /// Appends one message to the history.
    fn push_message(&mut self, m: Message)
        requires
            m@.role == "user"@ || m@.role == "assistant"@ || m@.role == "tool"@,
        ensures
            final(self).history@ == old(self).history@.push(m),
            final(self).tools == old(self).tools,
            final(self).source == old(self).source,
            final(self).max_rounds == old(self).max_rounds,
            final(self).round == old(self).round,
            final(self).awaiting == old(self).awaiting,
            roles_known(messages_view(final(self).history@)),
    {
        proof { use_type_invariant(&*self); }
        let mut h: Vec<Message> = Vec::new();
        std::mem::swap(&mut h, &mut self.history);
        let ghost before = messages_view(h@);
        h.push(m);
        proof {
            let after = messages_view(h@);
            assert forall|i: int| 0 <= i < after.len() implies {
                ||| (#[trigger] after[i]).role == "user"@
                ||| after[i].role == "assistant"@
                ||| after[i].role == "tool"@
            } by {
                if i < before.len() {
                    assert(after[i] == before[i]);
                }
            }
        }
        self.history = h;
    }

    /// Run every tool call against the registered tools, in order, each
    /// with [`dispatch`].
    pub fn run_tools(&self, calls: &Vec<ToolCall>) -> (r: Vec<ToolOutcome>)
        ensures
            outcomes_of(self.registry(), calls@, r@),
    {
        let mut out: Vec<ToolOutcome> = Vec::new();
        let mut i: usize = 0;
        while i < calls.len()
            invariant
                i <= calls@.len(),
                out@.len() == i,
                forall|k: int|
                    0 <= k < i ==> {
                        &&& (#[trigger] out@[k]).name@ == calls@[k].name@
                        &&& dispatched(self.tools@, &calls@[k], &out@[k].result)
                    },
            decreases calls@.len() - i,
        {
            let call = &calls[i];
            let result = dispatch(call, self.tools.as_slice());
            out.push(ToolOutcome { name: call.name.clone(), result });
            i = i + 1;
        }
        out
    }

    /// Take the model's reply, given what its tool calls gave (see
    /// [`step_spec`]).
    pub fn record(&mut self, reply: String, outcomes: &Vec<ToolOutcome>) -> (r: Step)
        requires
            old(self)@.awaiting,
        ensures
            (final(self)@, r@) == step_spec(old(self)@, reply@, outcome_views(outcomes@)),
            final(self).registry() == old(self).registry(),
            agent_wf(final(self)@),
    {
        proof { use_type_invariant(&*self); }
        let ghost os = outcome_views(outcomes@);
        let ghost old_history = messages_view(self.history@);
        if outcomes.len() == 0 {
            let text = trim(reply.as_str());
            self.push_message(Message::assistant(text.clone()));
            self.awaiting = false;
            assert(messages_view(self.history@) =~= old_history.push(message_of("assistant"@, text@)));
            return Step::Done(text);
        }
        let lines = outcome_texts(outcomes);
        let report = join_with(&lines, "\n");
        proof {
            reveal_strlit("\n");
            assert(lines@.map_values(|l: String| l@) =~= outcome_lines(os));
        }
        if self.round + 1 == self.max_rounds {
            let head = "Reached max rounds (";
            let mid = "); last tool outputs:\n";
            proof {
                reveal_strlit("Reached max rounds (");
                reveal_strlit("); last tool outputs:\n");
            }
            let mut text = String::from_str(head);
            push_decimal(&mut text, self.max_rounds as u64);
            text.append(mid);
            text.append(report.as_str());
            assert(text@ =~= max_rounds_report(self.max_rounds as nat, os));
            self.push_message(Message::assistant(text.clone()));
            self.awaiting = false;
            assert(messages_view(self.history@) =~= old_history.push(message_of("assistant"@, text@)));
            return Step::Done(text);
        }
        self.push_message(Message::assistant(reply));
        self.push_message(Message::tool(report));
        self.round = self.round + 1;
        assert(messages_view(self.history@) =~= old_history.push(message_of("assistant"@, reply@)).push(
            message_of("tool"@, tool_report(os)),
        ));
        Step::AskModel
    }

    /// Take the model's reply: find the tool calls it asks for (with the
    /// agent's source), normalize the `run_command` calls, dispatch every
    /// call in order, then proceed as [`Agent::record`] does with what they
    /// gave.
    pub fn step(&mut self, reply: String) -> (r: Step)
        requires
            old(self)@.awaiting,
        ensures
            exists|calls: Seq<ToolCall>, os: Seq<ToolOutcome>|
                {
                    &&& calls_view(calls) == dispatched_calls(reply@, old(self)@.source)
                    &&& outcomes_of(old(self).registry(), calls, os)
                    &&& (final(self)@, r@) == step_spec(old(self)@, reply@, outcome_views(os))
                },
            final(self).registry() == old(self).registry(),
            agent_wf(final(self)@),
    {
        let parsed = parse_tool_calls(reply.as_str(), self.source);
        let calls = normalize_calls(parsed);
        let outcomes = self.run_tools(&calls);
        self.record(reply, &outcomes)
    }
}

/// The calls with their `run_command` calls normalized.
fn normalize_calls(calls: Vec<ToolCall>) -> (r: Vec<ToolCall>)
    ensures
        calls_view(r@) == calls_view(calls@).map_values(|c: CallView| normalize_view(c)),
{
    let mut calls = calls;
    let ghost before = calls@;
    let mut i: usize = 0;
    while i < calls.len()
        invariant
            i <= calls@.len(),
            calls@.len() == before.len(),
            forall|k: int| 0 <= k < i ==> (#[trigger] calls@[k])@ == normalize_view(before[k]@),
            forall|k: int| i <= k < calls@.len() ==> #[trigger] calls@[k] == before[k],
        decreases calls@.len() - i,
    {
        calls[i].normalize_run_command();
        i = i + 1;
    }
    assert(calls_view(calls@) =~= calls_view(before).map_values(|c: CallView| normalize_view(c)));
    calls
}

/// The text of one outcome line.
fn outcome_text(o: &ToolOutcome) -> (r: String)
    ensures
        r@ == outcome_line(o@),
{
    let open = "[";
    proof { reveal_strlit("["); }
    let mut text = String::from_str(open);
    text.append(o.name.as_str());
    match &o.result {
        Ok(out) => {
            let sep = "] ";
            proof { reveal_strlit("] "); }
            text.append(sep);
            text.append(out.as_str());
        },
        Err(e) => {
            let sep = "] error: ";
            proof { reveal_strlit("] error: "); }
            text.append(sep);
            let m = e.message();
            text.append(m.as_str());
        },
    }
    assert(text@ =~= outcome_line(o@));
    text
}

/// The lines of a list of outcomes.
fn outcome_texts(os: &Vec<ToolOutcome>) -> (r: Vec<String>)
    ensures
        r@.map_values(|l: String| l@) == outcome_lines(outcome_views(os@)),
{
    let mut out: Vec<String> = Vec::new();
    let mut i: usize = 0;
    while i < os.len()
        invariant
            i <= os@.len(),
            out@.len() == i,
            forall|k: int| 0 <= k < i ==> (#[trigger] out@[k])@ == outcome_line(os@[k]@),
        decreases os@.len() - i,
    {
        out.push(outcome_text(&os[i]));
        i = i + 1;
    }
    assert(out@.map_values(|l: String| l@) =~= outcome_lines(outcome_views(os@)));
    out
}

} // verus!

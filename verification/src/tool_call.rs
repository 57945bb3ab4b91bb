//! Tool calls: their data, how they are found in a model reply, the
//! clean-up of `run_command` calls, and shape-checked argument reads.
use vstd::prelude::*;
use crate::error::{Error, ErrorView};
use crate::provider::Provider;
use crate::text::chars_of;

verus! {

/// A JSON value, as `serde_json` holds it.
#[verifier::external_type_specification]
#[verifier::external_body]
pub struct ExJsonValue(serde_json::Value);

/// The content of a JSON value that this library reads: its kind, the
/// text of a string, the items of an array and the fields of an object.
/// Numbers are not read, so their value is left out.
pub enum JsonView {
    Null,
    Bool(bool),
    Number,
    Str(Seq<char>),
    Array(Seq<JsonView>),
    Object(Map<Seq<char>, JsonView>),
}

/// What a `serde_json::Value` holds.
pub uninterp spec fn json_model(v: serde_json::Value) -> JsonView;

/// The JSON value that `serde_json::from_str` reads from a text, if the
/// text is JSON.
pub uninterp spec fn parse_json(text: Seq<char>) -> Option<JsonView>;

/// Reads a JSON value from a text (`serde_json::from_str`); `None` where
/// the text is not JSON.
#[verifier::external_body]
fn json_from_str(text: &str) -> (r: Option<serde_json::Value>)
    ensures
        r is Some <==> parse_json(text@) is Some,
        r matches Some(v) ==> Some(json_model(v)) == parse_json(text@),
{
    serde_json::from_str(text).ok()
}

/// The field `key` of a JSON object (`serde_json::Value::get` with a
/// string key): `None` where the value is not an object or has no such
/// field.
#[verifier::external_body]
fn json_get<'a>(v: &'a serde_json::Value, key: &str) -> (r: Option<&'a serde_json::Value>)
    ensures
        match json_model(*v) {
            JsonView::Object(m) => {
                &&& r is Some <==> m.contains_key(key@)
                &&& r matches Some(x) ==> json_model(*x) == m[key@]
            },
            _ => r is None,
        },
{
    v.get(key)
}

/// The items of a JSON array (`serde_json::Value::as_array`).
#[verifier::external_body]
fn json_as_array(v: &serde_json::Value) -> (r: Option<&Vec<serde_json::Value>>)
    ensures
        match json_model(*v) {
            JsonView::Array(items) => r matches Some(a) && a@.len() == items.len() && forall|i: int|
                0 <= i < items.len() ==> json_model(#[trigger] a@[i]) == items[i],
            _ => r is None,
        },
{
    v.as_array()
}

/// The text of a JSON string (`serde_json::Value::as_str`).
#[verifier::external_body]
fn json_str(v: &serde_json::Value) -> (r: Option<&str>)
    ensures
        match json_model(*v) {
            JsonView::Str(s) => r matches Some(t) && t@ == s,
            _ => r is None,
        },
{
    v.as_str()
}

/// Whether a JSON value is an object (`serde_json::Value::is_object`).
#[verifier::external_body]
fn json_is_object(v: &serde_json::Value) -> (r: bool)
    ensures
        r == (json_model(*v) is Object),
{
    v.is_object()
}

/// A copy of a JSON value (`serde_json::Value::clone`).
#[verifier::external_body]
fn json_copy(v: &serde_json::Value) -> (r: serde_json::Value)
    ensures
        json_model(r) == json_model(*v),
{
    v.clone()
}

/// The empty JSON object (`serde_json::Map::new`).
#[verifier::external_body]
fn json_empty_object() -> (r: serde_json::Value)
    ensures
        json_model(r) == JsonView::Object(Map::empty()),
{
    serde_json::Value::Object(serde_json::Map::new())
}

/// Sets the field `key` of a JSON object to the string `text`
/// (`serde_json::Value::as_object_mut`, then `serde_json::Map::insert`);
/// any other JSON value is left as it is.
#[verifier::external_body]
fn json_set_str(v: &mut serde_json::Value, key: &str, text: String)
    ensures
        match json_model(*old(v)) {
            JsonView::Object(m) => json_model(*final(v)) == JsonView::Object(
                m.insert(key@, JsonView::Str(text@)),
            ),
            _ => *final(v) == *old(v),
        },
{
    if let Some(map) = v.as_object_mut() {
        map.insert(key.to_string(), serde_json::Value::String(text));
    }
}

/// The reply shape a tool call was parsed from, one per provider.
#[derive(Debug, Clone, Copy, PartialEq, Eq, Hash, Structural)]
pub enum ToolCallSource {
    OpenAi,
    Sambanova,
    Gemini,
    Ollama,
    OpenRouter,
    Zen,
}

/// The reply shape of each provider.
pub open spec fn source_of_provider(p: Provider) -> ToolCallSource {
    match p {
        Provider::OpenAI => ToolCallSource::OpenAi,
        Provider::Sambanova => ToolCallSource::Sambanova,
        Provider::Gemini => ToolCallSource::Gemini,
        Provider::Ollama => ToolCallSource::Ollama,
        Provider::OpenRouter => ToolCallSource::OpenRouter,
        Provider::Zen => ToolCallSource::Zen,
    }
}

impl ToolCallSource {
    /// The reply shape used by a provider.
    pub fn from_provider(provider: &Provider) -> (r: ToolCallSource)
        ensures
            r == source_of_provider(*provider),
    {
        match provider {
            Provider::OpenAI => ToolCallSource::OpenAi,
            Provider::Sambanova => ToolCallSource::Sambanova,
            Provider::Gemini => ToolCallSource::Gemini,
            Provider::Ollama => ToolCallSource::Ollama,
            Provider::OpenRouter => ToolCallSource::OpenRouter,
            Provider::Zen => ToolCallSource::Zen,
        }
    }
}

/// One tool invocation requested by the model.
#[derive(Debug)]
pub struct ToolCall {
    /// The provider's call id, where it gave one.
    pub id: Option<String>,
    /// The name of the tool to run.
    pub name: String,
    /// The arguments, as JSON.
    pub arguments: serde_json::Value,
    /// The reply shape the call was parsed from.
    pub source: ToolCallSource,
}

/// The value of a [`ToolCall`].
pub struct CallView {
    pub id: Option<Seq<char>>,
    pub name: Seq<char>,
    pub arguments: JsonView,
    pub source: ToolCallSource,
}

impl View for ToolCall {
    type V = CallView;

    open spec fn view(&self) -> CallView {
        CallView {
            id: match self.id {
                Some(s) => Some(s@),
                None => None,
            },
            name: self.name@,
            arguments: json_model(self.arguments),
            source: self.source,
        }
    }
}

/// The views of a list of calls.
pub open spec fn calls_view(cs: Seq<ToolCall>) -> Seq<CallView> {
    cs.map_values(|c: ToolCall| c@)
}

/// The entries of a reply that stand for tool calls: the reply itself
/// where it is an array, else its `tool_calls` array, else the
/// `tool_calls` array of its `message` object.
pub open spec fn call_entries(j: JsonView) -> Option<Seq<JsonView>> {
    match j {
        JsonView::Array(items) => Some(items),
        JsonView::Object(m) => {
            if m.contains_key("tool_calls"@) && m["tool_calls"@] is Array {
                Some(m["tool_calls"@]->Array_0)
            } else if m.contains_key("message"@) && m["message"@] is Object && m["message"@]->Object_0.contains_key(
                "tool_calls"@,
            ) && m["message"@]->Object_0["tool_calls"@] is Array {
                Some(m["message"@]->Object_0["tool_calls"@]->Array_0)
            } else {
                None
            }
        },
        _ => None,
    }
}

/// The arguments of a call's `function` object: a JSON text is read as
/// the JSON it holds (kept as text where it is not JSON), any other value
/// is taken as it is, and missing arguments are the empty object.
pub open spec fn arguments_of(f: Map<Seq<char>, JsonView>) -> JsonView {
    if !f.contains_key("arguments"@) {
        JsonView::Object(Map::empty())
    } else {
        match f["arguments"@] {
            JsonView::Str(s) => match parse_json(s) {
                Some(a) => a,
                None => JsonView::Str(s),
            },
            other => other,
        }
    }
}

/// The tool call an entry stands for: an object whose `function` object
/// has a string `name`; its `id` is kept where it is a string.
pub open spec fn call_of(e: JsonView, source: ToolCallSource) -> Option<CallView> {
    match e {
        JsonView::Object(m) => {
            if m.contains_key("function"@) && m["function"@] is Object && m["function"@]->Object_0.contains_key(
                "name"@,
            ) && m["function"@]->Object_0["name"@] is Str {
                let f = m["function"@]->Object_0;
                Some(
                    CallView {
                        id: if m.contains_key("id"@) && m["id"@] is Str {
                            Some(m["id"@]->Str_0)
                        } else {
                            None
                        },
                        name: f["name"@]->Str_0,
                        arguments: arguments_of(f),
                        source,
                    },
                )
            } else {
                None
            }
        },
        _ => None,
    }
}

/// The tool calls of a list of entries, in order; entries that stand for
/// no call are skipped.
pub open spec fn calls_from(es: Seq<JsonView>, source: ToolCallSource) -> Seq<CallView>
    decreases es.len(),
{
    if es.len() == 0 {
        Seq::empty()
    } else {
        calls_from(es.drop_last(), source) + match call_of(es.last(), source) {
            Some(c) => seq![c],
            None => Seq::empty(),
        }
    }
}

/// The tool calls a model reply asks for: none where the reply is not
/// JSON or has no call entries.
pub open spec fn tool_calls_in(reply: Seq<char>, source: ToolCallSource) -> Seq<CallView> {
    match parse_json(reply) {
        Some(j) => match call_entries(j) {
            Some(es) => calls_from(es, source),
            None => Seq::empty(),
        },
        None => Seq::empty(),
    }
}

/// The call entries of a parsed reply.
fn entries_of(v: &serde_json::Value) -> (r: Option<&Vec<serde_json::Value>>)
    ensures
        match call_entries(json_model(*v)) {
            Some(es) => r matches Some(a) && a@.len() == es.len() && forall|i: int|
                0 <= i < es.len() ==> json_model(#[trigger] a@[i]) == es[i],
            None => r is None,
        },
{
    if let Some(a) = json_as_array(v) {
        return Some(a);
    }
    if let Some(tc) = json_get(v, "tool_calls") {
        proof { reveal_strlit("tool_calls"); }
        if let Some(a) = json_as_array(tc) {
            return Some(a);
        }
    }
    proof { reveal_strlit("tool_calls"); reveal_strlit("message"); }
    if let Some(msg) = json_get(v, "message") {
        if let Some(tc) = json_get(msg, "tool_calls") {
            if let Some(a) = json_as_array(tc) {
                return Some(a);
            }
        }
    }
    None
}

/// The arguments of a `function` object.
fn arguments_from(f: &serde_json::Value) -> (r: serde_json::Value)
    requires
        json_model(*f) is Object,
    ensures
        json_model(r) == arguments_of(json_model(*f)->Object_0),
{
    proof { reveal_strlit("arguments"); }
    match json_get(f, "arguments") {
        None => json_empty_object(),
        Some(a) => match json_str(a) {
            Some(s) => match json_from_str(s) {
                Some(p) => p,
                None => json_copy(a),
            },
            None => json_copy(a),
        },
    }
}

/// The tool call an entry stands for.
fn call_from(e: &serde_json::Value, source: ToolCallSource) -> (r: Option<ToolCall>)
    ensures
        match call_of(json_model(*e), source) {
            Some(c) => r matches Some(t) && t@ == c,
            None => r is None,
        },
{
    proof {
        reveal_strlit("function");
        reveal_strlit("name");
        reveal_strlit("id");
    }
    let f = match json_get(e, "function") {
        Some(f) => f,
        None => return None,
    };
    let n = match json_get(f, "name") {
        Some(n) => n,
        None => return None,
    };
    let name = match json_str(n) {
        Some(s) => String::from_str(s),
        None => return None,
    };
    let id = match json_get(e, "id") {
        Some(i) => match json_str(i) {
            Some(s) => Some(String::from_str(s)),
            None => None,
        },
        None => None,
    };
    let arguments = arguments_from(f);
    Some(ToolCall { id, name, arguments, source })
}

/// Find the tool calls a model reply asks for: the reply is read as JSON;
/// its call entries are an array at the top, a top-level `tool_calls`
/// array, or the `tool_calls` array of its `message`; each entry with a
/// `function` object naming the tool is one call. Plain text, malformed
/// JSON and JSON without call entries give no calls.
pub fn parse_tool_calls(reply: &str, source: ToolCallSource) -> (r: Vec<ToolCall>)
    ensures
        calls_view(r@) == tool_calls_in(reply@, source),
{
    let mut out: Vec<ToolCall> = Vec::new();
    let v = match json_from_str(reply) {
        Some(v) => v,
        None => {
            assert(calls_view(out@) =~= Seq::<CallView>::empty());
            return out;
        },
    };
    let items = match entries_of(&v) {
        Some(a) => a,
        None => {
            assert(calls_view(out@) =~= Seq::<CallView>::empty());
            return out;
        },
    };
    let ghost es = call_entries(json_model(v))->Some_0;
    let mut i: usize = 0;
    while i < items.len()
        invariant
            i <= items@.len(),
            items@.len() == es.len(),
            forall|k: int| 0 <= k < es.len() ==> json_model(#[trigger] items@[k]) == es[k],
            calls_view(out@) == calls_from(es.take(i as int), source),
        decreases items@.len() - i,
    {
        let ghost before = out@;
        let c = call_from(&items[i], source);
        proof {
            assert(es.take(i + 1).drop_last() =~= es.take(i as int));
            assert(es.take(i + 1).last() == es[i as int]);
        }
        match c {
            Some(t) => {
                let ghost tv = t@;
                out.push(t);
                assert(calls_view(out@) =~= calls_view(before) + seq![tv]);
            },
            None => {
                assert(calls_view(out@) =~= calls_view(before) + Seq::<CallView>::empty());
            },
        }
        i = i + 1;
    }
    assert(es.take(es.len() as int) =~= es);
    out
}

/// The calls found in a reply do not depend on the source, except that
/// each call records it: for any two sources the same calls are found, in
/// the same order, with the same ids, names and arguments.
pub proof fn lemma_calls_do_not_depend_on_source(reply: Seq<char>, s1: ToolCallSource, s2: ToolCallSource)
    ensures
        tool_calls_in(reply, s1).len() == tool_calls_in(reply, s2).len(),
        forall|i: int|
            0 <= i < tool_calls_in(reply, s1).len() ==> {
                &&& (#[trigger] tool_calls_in(reply, s1)[i]).id == tool_calls_in(reply, s2)[i].id
                &&& tool_calls_in(reply, s1)[i].name == tool_calls_in(reply, s2)[i].name
                &&& tool_calls_in(reply, s1)[i].arguments == tool_calls_in(reply, s2)[i].arguments
                &&& tool_calls_in(reply, s1)[i].source == s1
            },
{
    match parse_json(reply) {
        Some(j) => match call_entries(j) {
            Some(es) => lemma_calls_from_source(es, s1, s2),
            None => {},
        },
        None => {},
    }
}

proof fn lemma_calls_from_source(es: Seq<JsonView>, s1: ToolCallSource, s2: ToolCallSource)
    ensures
        calls_from(es, s1).len() == calls_from(es, s2).len(),
        forall|i: int|
            0 <= i < calls_from(es, s1).len() ==> {
                &&& (#[trigger] calls_from(es, s1)[i]).id == calls_from(es, s2)[i].id
                &&& calls_from(es, s1)[i].name == calls_from(es, s2)[i].name
                &&& calls_from(es, s1)[i].arguments == calls_from(es, s2)[i].arguments
                &&& calls_from(es, s1)[i].source == s1
            },
    decreases es.len(),
{
    if es.len() > 0 {
        lemma_calls_from_source(es.drop_last(), s1, s2);
        let a = calls_from(es.drop_last(), s1);
        let b = calls_from(es.drop_last(), s2);
        let x = calls_from(es, s1);
        let y = calls_from(es, s2);
        assert forall|i: int| 0 <= i < x.len() implies {
            &&& (#[trigger] x[i]).id == y[i].id
            &&& x[i].name == y[i].name
            &&& x[i].arguments == y[i].arguments
            &&& x[i].source == s1
        } by {
            if i < a.len() {
                assert(x[i] == a[i] && y[i] == b[i]);
            }
        }
    }
}

/// Every source reads the same shapes: a reply that is an object with a
/// `tool_calls` array gives one call per entry of that array that names a
/// tool, in order, whatever the source.
pub proof fn lemma_tool_calls_field_read_by_every_source(
    reply: Seq<char>,
    m: Map<Seq<char>, JsonView>,
    items: Seq<JsonView>,
    source: ToolCallSource,
)
    requires
        parse_json(reply) == Some(JsonView::Object(m)),
        m.contains_key("tool_calls"@),
        m["tool_calls"@] == JsonView::Array(items),
    ensures
        tool_calls_in(reply, source) == calls_from(items, source),
{
}

/// Normalization changes nothing but the `command` argument of a
/// `run_command` call: the name, id and source stay; every other argument
/// stays, with the same value; non-object arguments and other calls stay
/// as they are; and the new command is the old one with at most a leading
/// `the `, `an ` or `a ` removed.
pub proof fn lemma_normalize_touches_only_command(c: CallView)
    ensures
        normalize_view(c).name == c.name,
        normalize_view(c).id == c.id,
        normalize_view(c).source == c.source,
        c.name != "run_command"@ ==> normalize_view(c) == c,
        !(c.arguments is Object) ==> normalize_view(c).arguments == c.arguments,
        c.arguments is Object ==> {
            let m = c.arguments->Object_0;
            &&& normalize_view(c).arguments is Object
            &&& normalize_view(c).arguments->Object_0.dom() == m.dom()
            &&& forall|k: Seq<char>|
                k != "command"@ && #[trigger] m.contains_key(k) ==> normalize_view(c).arguments->Object_0[k] == m[k]
        },
        c.name == "run_command"@ && c.arguments is Object && c.arguments->Object_0.contains_key("command"@)
            && c.arguments->Object_0["command"@] is Str ==> {
            let old_cmd = c.arguments->Object_0["command"@]->Str_0;
            let new_arg = normalize_view(c).arguments->Object_0["command"@];
            &&& new_arg is Str
            &&& (old_cmd == new_arg->Str_0 || old_cmd == "the "@ + new_arg->Str_0 || old_cmd == "an "@
                + new_arg->Str_0 || old_cmd == "a "@ + new_arg->Str_0)
        },
{
    if c.arguments is Object {
        let m = c.arguments->Object_0;
        if c.name == "run_command"@ && m.contains_key("command"@) && m["command"@] is Str {
            let x = m["command"@]->Str_0;
            let m2 = m.insert("command"@, JsonView::Str(normalized_command(x)));
            assert(m2.dom() =~= m.dom());
            if x.len() >= 4 && x.take(4) == "the "@ {
                assert(x =~= "the "@ + x.skip(4));
            } else if x.len() >= 3 && x.take(3) == "an "@ {
                assert(x =~= "an "@ + x.skip(3));
            } else if x.len() >= 2 && x.take(2) == "a "@ {
                assert(x =~= "a "@ + x.skip(2));
            }
        }
    }
}

/// A shell command without a leading English article (`the `, `an `, `a `)
/// that a model sometimes puts in front of it.
pub open spec fn normalized_command(c: Seq<char>) -> Seq<char> {
    if c.len() >= 4 && c.take(4) == "the "@ {
        c.skip(4)
    } else if c.len() >= 3 && c.take(3) == "an "@ {
        c.skip(3)
    } else if c.len() >= 2 && c.take(2) == "a "@ {
        c.skip(2)
    } else {
        c
    }
}

/// Removes a leading English article from a shell command.
pub fn normalize_command(c: &str) -> (r: String)
    ensures
        r@ == normalized_command(c@),
{
    let v = chars_of(c);
    let n = v.len();
    proof {
        reveal_strlit("the ");
        reveal_strlit("an ");
        reveal_strlit("a ");
    }
    if n >= 4 && v[0] == 't' && v[1] == 'h' && v[2] == 'e' && v[3] == ' ' {
        assert(c@.take(4) =~= "the "@);
        String::from_str(c.substring_char(4, n))
    } else if n >= 3 && v[0] == 'a' && v[1] == 'n' && v[2] == ' ' {
        assert(n >= 4 ==> c@.take(4) != "the "@) by {
            if n >= 4 { assert(c@.take(4)[0] != "the "@[0]); }
        }
        assert(c@.take(3) =~= "an "@);
        String::from_str(c.substring_char(3, n))
    } else if n >= 2 && v[0] == 'a' && v[1] == ' ' {
        assert(n >= 4 ==> c@.take(4) != "the "@) by {
            if n >= 4 { assert(c@.take(4)[0] != "the "@[0]); }
        }
        assert(n >= 3 ==> c@.take(3) != "an "@) by {
            if n >= 3 { assert(c@.take(3)[1] != "an "@[1]); }
        }
        assert(c@.take(2) =~= "a "@);
        String::from_str(c.substring_char(2, n))
    } else {
        assert(n >= 4 ==> c@.take(4) != "the "@) by {
            if n >= 4 && c@.take(4) == "the "@ {
                assert(c@.take(4)[0] == c@[0] && c@.take(4)[1] == c@[1] && c@.take(4)[2] == c@[2] && c@.take(4)[3] == c@[3]);
            }
        }
        assert(n >= 3 ==> c@.take(3) != "an "@) by {
            if n >= 3 && c@.take(3) == "an "@ {
                assert(c@.take(3)[0] == c@[0] && c@.take(3)[1] == c@[1] && c@.take(3)[2] == c@[2]);
            }
        }
        assert(n >= 2 ==> c@.take(2) != "a "@) by {
            if n >= 2 && c@.take(2) == "a "@ {
                assert(c@.take(2)[0] == c@[0] && c@.take(2)[1] == c@[1]);
            }
        }
        String::from_str(c)
    }
}

/// A call after the clean-up of `run_command` calls: a `run_command` call
/// whose arguments are an object with a string `command` gets that command
/// normalized; every other call stays as it is.
pub open spec fn normalize_view(c: CallView) -> CallView {
    if c.name == "run_command"@ && c.arguments is Object && c.arguments->Object_0.contains_key("command"@)
        && c.arguments->Object_0["command"@] is Str {
        let m = c.arguments->Object_0;
        CallView {
            arguments: JsonView::Object(
                m.insert("command"@, JsonView::Str(normalized_command(m["command"@]->Str_0))),
            ),
            ..c
        }
    } else {
        c
    }
}

impl ToolCall {
    /// Cleans up the command of a `run_command` call (see
    /// [`normalize_view`]).
    pub fn normalize_run_command(&mut self)
        ensures
            final(self)@ == normalize_view(old(self)@),
    {
        let target = "run_command";
        proof {
            reveal_strlit("run_command");
            reveal_strlit("command");
        }
        let wanted = String::from_str(target);
        if self.name == wanted {
            let cmd = match json_get(&self.arguments, "command") {
                Some(v) => match json_str(v) {
                    Some(s) => Some(normalize_command(s)),
                    None => None,
                },
                None => None,
            };
            match cmd {
                Some(c) => json_set_str(&mut self.arguments, "command", c),
                None => {},
            }
        }
    }
}

/// The error of an argument of the wrong shape.
pub open spec fn argument_error(key: Seq<char>, shape: Seq<char>) -> ErrorView {
    ErrorView::InvalidArguments("argument `"@ + key + "` must be "@ + shape)
}

fn invalid_argument(key: &str, shape: &str) -> (r: Error)
    ensures
        r@ == argument_error(key@, shape@),
{
    let head = "argument `";
    let mid = "` must be ";
    proof {
        reveal_strlit("argument `");
        reveal_strlit("` must be ");
    }
    Error::InvalidArguments(String::from_str(head).concat(key).concat(mid).concat(shape))
}

/// The string argument `key` of a call; `Error::InvalidArguments` where the
/// arguments have no such field or it is not a string.
pub fn arg_str<'a>(call: &'a ToolCall, key: &str) -> (r: Result<&'a str, Error>)
    ensures
        match json_model(call.arguments) {
            JsonView::Object(m) if m.contains_key(key@) && m[key@] is Str => r matches Ok(s) && s@ == m[key@]->Str_0,
            _ => r matches Err(e) && e@ == argument_error(key@, "a string"@),
        },
{
    let shape = "a string";
    match json_get(&call.arguments, key) {
        Some(v) => match json_str(v) {
            Some(s) => Ok(s),
            None => Err(invalid_argument(key, shape)),
        },
        None => Err(invalid_argument(key, shape)),
    }
}

/// The object argument `key` of a call; `Error::InvalidArguments` where
/// the arguments have no such field or it is not an object.
pub fn arg_object<'a>(call: &'a ToolCall, key: &str) -> (r: Result<&'a serde_json::Value, Error>)
    ensures
        match json_model(call.arguments) {
            JsonView::Object(m) if m.contains_key(key@) && m[key@] is Object => r matches Ok(v) && json_model(*v) == m[key@],
            _ => r matches Err(e) && e@ == argument_error(key@, "an object"@),
        },
{
    let shape = "an object";
    match json_get(&call.arguments, key) {
        Some(v) => {
            if json_is_object(v) {
                Ok(v)
            } else {
                Err(invalid_argument(key, shape))
            }
        },
        None => Err(invalid_argument(key, shape)),
    }
}

} // verus!

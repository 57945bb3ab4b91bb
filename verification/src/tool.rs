use vstd::prelude::*;
use crate::error::{Error, ErrorView};
use crate::tool_call::ToolCall;

verus! {

/// Holds of every value and text.
pub open spec fn may_be_named<T: ?Sized>(t: &T, s: Seq<char>) -> bool {
    true
}

/// Holds of every value, call and result.
pub open spec fn may_answer<T: ?Sized>(t: &T, call: &ToolCall, r: &Result<String, Error>, b: bool) -> bool {
    true
}

/// The name of `t` where its type says nothing more: some text that
/// depends on the tool alone.
pub closed spec fn unspecified_name<T: ?Sized>(t: &T) -> Seq<char> {
    choose|s: Seq<char>| #[trigger] may_be_named(t, s)
}

/// What holds of the results of `t`'s runs where its type says nothing
/// more: some relation between the tool, the call and the result.
pub closed spec fn unspecified_answer<T: ?Sized>(t: &T, call: &ToolCall, r: &Result<String, Error>) -> bool {
    choose|b: bool| #[trigger] may_answer(t, call, r, b)
}

/// A tool the agent can invoke. `name` must match `ToolCall::name`.
///
/// A tool answers to one name: `name` returns the same text whenever it is
/// asked of the same tool. A tool's type may say what that name is
/// (`spec_name`) and what its runs give (`run_post`); where it does not,
/// they are some text and some relation that depend on the tool alone.
pub trait Tool: Send + Sync {
    /// The name this tool answers to.
    open spec fn spec_name(&self) -> Seq<char> {
        unspecified_name(self)
    }

    /// What holds of a result of running this tool on `call`.
    open spec fn run_post(&self, call: &ToolCall, r: &Result<String, Error>) -> bool {
        unspecified_answer(self, call, r)
    }

    /// The tool name used by the model.
    fn name(&self) -> (r: &'static str)
        ensures
            r@ == self.spec_name(),
    ;

    /// Execute the tool for a parsed tool call.
    fn run(&self, call: &ToolCall) -> (r: Result<String, Error>)
        ensures
            self.run_post(call, &r),
    ;
}

/// The names of the tools of a registry, in order.
pub open spec fn tool_names(registry: Seq<Box<dyn Tool>>) -> Seq<Seq<char>> {
    registry.map_values(|t: Box<dyn Tool>| t.spec_name())
}

/// Whether some entry of `names` is `name`.
pub open spec fn has_tool(names: Seq<Seq<char>>, name: Seq<char>) -> bool {
    exists|i: int| 0 <= i < names.len() && names[i] == name
}

/// `i` is the first position of `name` in `names`.
pub open spec fn is_first_match(names: Seq<Seq<char>>, name: Seq<char>, i: int) -> bool {
    &&& 0 <= i < names.len()
    &&& names[i] == name
    &&& forall|j: int| 0 <= j < i ==> names[j] != name
}

/// What dispatching `call` to `registry` may give: `Error::UnknownTool` with
/// the call's name where no tool answers to it; otherwise a result of the
/// first tool that does.
pub open spec fn dispatched(registry: Seq<Box<dyn Tool>>, call: &ToolCall, r: &Result<String, Error>) -> bool {
    &&& !has_tool(tool_names(registry), call.name@) ==> r is Err && r->Err_0@ == ErrorView::UnknownTool(call.name@)
    &&& forall|i: int| #[trigger] is_first_match(tool_names(registry), call.name@, i) ==> registry[i].run_post(call, r)
}

/// Dispatch one tool call to the first tool whose `name` matches and hand
/// back what it returned; when no tool matches, the result is
/// `Error::UnknownTool` with the call's name. Names are asked of the tools
/// in order until one matches; arguments are not checked.
pub fn dispatch(call: &ToolCall, registry: &[Box<dyn Tool>]) -> (r: Result<String, Error>)
    ensures
        dispatched(registry@, call, &r),
{
    let ghost names = tool_names(registry@);
    let mut i: usize = 0;
    while i < registry.len()
        invariant
            i <= registry@.len(),
            names == tool_names(registry@),
            forall|j: int| 0 <= j < i ==> names[j] != call.name@,
        decreases registry@.len() - i,
    {
        let n = registry[i].name();
        assert(names[i as int] == n@);
        let candidate = String::from_str(n);
        if candidate == call.name {
            let r = registry[i].run(call);
            proof {
                assert forall|k: int| #[trigger] is_first_match(names, call.name@, k) implies registry@[k].run_post(
                    call,
                    &r,
                ) by {
                    assert(k == i);
                }
            }
            return r;
        }
        i = i + 1;
    }
    Err(Error::UnknownTool(call.name.clone()))
}

} // verus!

//! What an orchestration tells the model and what it makes of the answers.
use crate::agent::{
    call_content, call_message, carried_out, first_tool_error, fresh_orchestration, messages_after,
    names_unknown, orchestrated, plans, request_error, takes, tool_error, tool_has_name, tool_named,
    tool_value, tools_error, without_end_slashes, without_thinking, AgentAction, AgentActionView,
    AgentEvent, Completion, OrchestrationView, PlannedCall, ToolCall, ToolDef,
};
use crate::json::{field, items_at, json_parsed, lemma_lookup_push, text_at, JsonView};
use crate::sequence::lemma_first_index;
use crate::text::{first_at, is_blank, lowered, trimmed};
use vstd::prelude::*;

verus! {

/// The model is told each tool by its own name and description, as a function that takes one
/// text, its input.
pub proof fn model_is_told_the_tool(t: ToolDef)
    ensures
        ({
            let v = tool_value(t);
            let function = field(v, "function"@)->0;
            let parameters = field(function, "parameters"@)->0;
            let properties = field(parameters, "properties"@)->0;
            let input = field(properties, "input"@)->0;
            let required = items_at(parameters, "required"@);
            &&& text_at(v, "type"@) == Some("function"@)
            &&& field(v, "function"@) is Some
            &&& text_at(function, "name"@) == Some(t.name@)
            &&& text_at(function, "description"@) == Some(t.description@)
            &&& field(function, "parameters"@) is Some
            &&& text_at(parameters, "type"@) == Some("object"@)
            &&& field(parameters, "properties"@) is Some && field(properties, "input"@) is Some
            &&& properties->Obj_0.len() == 1
            &&& text_at(input, "type"@) == Some("string"@)
            &&& required is Some && required->0.len() == 1
            &&& required->0[0] == JsonView::Str("input"@)
        }),
{
    broadcast use lemma_lookup_push;

    reveal_strlit("type");
    reveal_strlit("function");
    reveal_strlit("name");
    reveal_strlit("description");
    reveal_strlit("parameters");
    reveal_strlit("properties");
    reveal_strlit("required");
    reveal_strlit("input");
    assert("type"@.len() == 4);
    assert("name"@.len() == 4);
    assert("type"@[0] == 't');
    assert("name"@[0] == 'n');
    assert("input"@.len() == 5);
    assert("function"@.len() == 8);
    assert("required"@.len() == 8);
    assert("function"@[0] == 'f');
    assert("required"@[0] == 'r');
    assert("parameters"@.len() == 10);
    assert("properties"@.len() == 10);
    assert("parameters"@[1] == 'a');
    assert("properties"@[1] == 'r');
    assert("description"@.len() == 11);
}

/// An orchestration begins with what the system is to be and what the user asks, in this order,
/// and with an empty account.
pub proof fn conversation_begins_with_the_request(system: Seq<char>, user: Seq<char>)
    ensures
        ({
            let o = fresh_orchestration(system, user);
            &&& o.messages.len() == 2
            &&& text_at(o.messages[0], "role"@) == Some("system"@)
            &&& text_at(o.messages[0], "content"@) == Some(system)
            &&& text_at(o.messages[1], "role"@) == Some("user"@)
            &&& text_at(o.messages[1], "content"@) == Some(user)
            &&& o.total == 0 && o.asked == 0 && o.waiting is None
        }),
{
    broadcast use lemma_lookup_push;

    reveal_strlit("role");
    reveal_strlit("content");
    assert("role"@.len() == 4);
    assert("content"@.len() == 7);
}

/// A round carries out as many of its calls as there are, up to eight, and up to what is left
/// of twenty-four.
pub proof fn round_takes_what_the_budget_leaves(calls: int, total: int)
    requires
        calls >= 0,
        0 <= total <= 24,
    ensures
        ({
            let n = carried_out(calls, total);
            &&& 0 <= n && n <= calls && n <= 8 && total + n <= 24
            &&& n == calls || n == 8 || total + n == 24
        }),
{
}

/// Whether a message reports a call to the model.
pub open spec fn reports(
    message: JsonView,
    call: ToolCall,
    result: Option<Seq<char>>,
    carried: bool,
) -> bool {
    &&& text_at(message, "role"@) == Some("tool"@)
    &&& text_at(message, "tool_call_id"@) == Some(call.id@)
    &&& text_at(message, "content"@) is Some
    &&& carried && result is Some ==> text_at(message, "content"@) == result
    &&& !carried ==> text_at(message, "content"@) == Some("工具调用预算已用尽，本次调用未执行。"@)
    &&& carried && result is None ==> text_at(message, "content"@) == Some(
        "工具调用未返回结果。"@,
    )
}

/// After a round the model is told everything that was said before, then its own answer, then
/// for each of its calls, in their order and by their own marks, what the call gave; a call that
/// was left out for want of budget is told so.
pub proof fn every_call_is_reported(
    messages: Seq<JsonView>,
    completion: Completion,
    results: Seq<Option<String>>,
    total: int,
)
    requires
        0 <= total <= 24,
    ensures
        ({
            let after = messages_after(messages, completion, results, total);
            let calls = completion.tool_calls@;
            let n = carried_out(calls.len() as int, total);
            &&& after.len() == messages.len() + 1 + calls.len()
            &&& forall|i: int| 0 <= i < messages.len() ==> #[trigger] after[i] == messages[i]
            &&& after[messages.len() as int] == completion.assistant_message@
            &&& forall|i: int|
                0 <= i < calls.len() ==> reports(
                    after[messages.len() + 1 + i],
                    #[trigger] calls[i],
                    if i < results.len() && results[i] is Some {
                        Some(results[i]->0@)
                    } else {
                        None
                    },
                    i < n,
                )
        }),
{
    let after = messages_after(messages, completion, results, total);
    let calls = completion.tool_calls@;
    let n = carried_out(calls.len() as int, total);
    assert forall|i: int| 0 <= i < calls.len() implies reports(
        after[messages.len() + 1 + i],
        #[trigger] calls[i],
        if i < results.len() && results[i] is Some {
            Some(results[i]->0@)
        } else {
            None
        },
        i < n,
    ) by {
        broadcast use lemma_lookup_push;

        reveal_strlit("role");
        reveal_strlit("tool_call_id");
        reveal_strlit("content");
        assert("role"@.len() == 4);
        assert("content"@.len() == 7);
        assert("tool_call_id"@.len() == 12);
        assert(after[messages.len() + 1 + i] == call_message(
            calls[i].id@,
            call_content(results, total, calls.len() as int, i),
        ));
    }
}

/// Whether a tool has a name and an instruction.
pub open spec fn is_tool(t: ToolDef, name: Seq<char>, system: Seq<char>) -> bool {
    t.name@ == name && t.system@ == system
}

/// A call is carried out by the tool that it names, under the instruction of that tool, on the
/// text that stands under the input of its arguments, or on nothing where there is none.
pub proof fn call_goes_to_the_tool_it_names(
    p: PlannedCall,
    calls: Seq<ToolCall>,
    tools: Seq<ToolDef>,
    i: int,
)
    requires
        plans(p, calls, tools, i),
    ensures
        p.index == i && p.name@ == calls[i].name@,
        exists|k: int|
            0 <= k < tools.len() && is_tool(#[trigger] tools[k], calls[i].name@, p.system@),
        json_parsed(calls[i].arguments@) matches Some(v) && text_at(v, "input"@) is Some ==> Some(
            p.input@,
        ) == text_at(json_parsed(calls[i].arguments@)->0, "input"@),
        json_parsed(calls[i].arguments@) is None || text_at(
            json_parsed(calls[i].arguments@)->0,
            "input"@,
        ) is None ==> p.input@.len() == 0,
{
    let f = tool_has_name(calls[i].name@);
    let k = lemma_first_index(tools, f);
    assert(f(tools[k]));
    assert(is_tool(tools[k], calls[i].name@, p.system@));
}

/// An answer that asks for no calls ends the orchestration: with the answer where it is
/// complete, and else with an error; one that names an unknown tool in what would be carried
/// out ends it too. Otherwise its calls are carried out before anything else is said.
pub proof fn answer_is_taken_or_carried_out(
    o: OrchestrationView,
    c: Completion,
    tools: Seq<ToolDef>,
)
    ensures
        ({
            let (after, action) = orchestrated(o, AgentEvent::Answered(Ok(c)), tools);
            let n = carried_out(c.tool_calls.len() as int, o.total);
            &&& after.messages == o.messages && after.total == o.total && after.asked == o.asked
            &&& c.tool_calls.len() == 0 && c.completed ==> action == AgentActionView::Finish(
                trimmed(without_thinking(c.content@)),
            )
            &&& c.tool_calls.len() == 0 && !c.completed ==> action is Fail
            &&& c.tool_calls.len() > 0 ==> action is Fail || action == AgentActionView::Call(n)
            &&& c.tool_calls.len() > 0 ==> (action is Fail <==> exists|i: int|
                0 <= i < n && has_no_tool(tools, (#[trigger] c.tool_calls@[i]).name@))
            &&& action is Call ==> after.waiting == Some(c)
        }),
{
    let n = carried_out(c.tool_calls.len() as int, o.total);
    assert forall|name: Seq<char>| has_no_tool(tools, name) == (#[trigger] tool_named(
        tools,
        name,
    ) is None) by {
        let f = tool_has_name(name);
        let k = lemma_first_index(tools, f);
        if k < tools.len() {
            assert(f(tools[k]));
            assert(tools[k].name@ == name);
        } else {
            assert forall|j: int| 0 <= j < tools.len() implies (#[trigger] tools[j]).name@ != name by {
                assert(!f(tools[j]));
            }
        }
    }
    if exists|i: int| 0 <= i < n && has_no_tool(tools, (#[trigger] c.tool_calls@[i]).name@) {
        let i = choose|i: int|
            0 <= i < n && has_no_tool(tools, (#[trigger] c.tool_calls@[i]).name@);
        assert(tool_named(tools, c.tool_calls@[i].name@) is None);
        assert(names_unknown(c.tool_calls@, tools, n));
    }
    if names_unknown(c.tool_calls@, tools, n) {
        let i = choose|i: int|
            0 <= i < n && tool_named(tools, (#[trigger] c.tool_calls@[i]).name@) is None;
        assert(has_no_tool(tools, c.tool_calls@[i].name@));
    }
}

/// Whether no tool has a name.
pub open spec fn has_no_tool(tools: Seq<ToolDef>, name: Seq<char>) -> bool {
    forall|k: int| 0 <= k < tools.len() ==> (#[trigger] tools[k]).name@ != name
}

/// What the model thinks aloud is taken out of its answer: what stands between the marks goes
/// with them, whatever their case, and what stands around it stays.
pub proof fn thinking_is_taken_out(
    before: Seq<char>,
    open: Seq<char>,
    thought: Seq<char>,
    close: Seq<char>,
    after: Seq<char>,
)
    requires
        open.len() == "<think>"@.len(),
        close.len() == "</think>"@.len(),
        first_at(lowered(before + open + thought + close + after), "<think>"@) == Some(
            before.len() as int,
        ),
        first_at(lowered(thought + close + after), "</think>"@) == Some(thought.len() as int),
    ensures
        without_thinking(before + open + thought + close + after) == before + without_thinking(
            after,
        ),
{
    let text = before + open + thought + close + after;
    let tail = text.subrange((before.len() + "<think>"@.len()) as int, text.len() as int);
    reveal_strlit("<think>");
    reveal_strlit("</think>");
    assert(tail =~= thought + close + after);
    assert(text.subrange(0, before.len() as int) =~= before);
    assert(tail.subrange((thought.len() + "</think>"@.len()) as int, tail.len() as int) =~= after);
}

/// A thought that is not closed takes the rest of the answer with it.
pub proof fn open_thought_takes_the_rest(before: Seq<char>, open: Seq<char>, thought: Seq<char>)
    requires
        open.len() == "<think>"@.len(),
        first_at(lowered(before + open + thought), "<think>"@) == Some(before.len() as int),
        first_at(lowered(thought), "</think>"@) is None,
    ensures
        without_thinking(before + open + thought) == before,
{
    let text = before + open + thought;
    assert(text.subrange((before.len() + "<think>"@.len()) as int, text.len() as int) =~= thought);
    assert(text.subrange(0, before.len() as int) =~= before);
}

/// Slashes at the end of an address do not matter, and nothing else is taken from it.
pub proof fn end_slashes_do_not_matter(base: Seq<char>)
    ensures
        without_end_slashes(base.push('/')) == without_end_slashes(base),
        base.len() > 0 && base.last() != '/' ==> without_end_slashes(base) == base,
        without_end_slashes(Seq::empty()) == Seq::<char>::empty(),
{
    assert(base.push('/').drop_last() =~= base);
}

/// Whether a tool is complete and nothing of it is too long.
pub open spec fn tool_is_complete(t: ToolDef) -> bool {
    &&& !is_blank(t.name@) && t.name@.len() <= 100
    &&& !is_blank(t.description@) && t.description@.len() <= 2000
    &&& !is_blank(t.system@) && t.system@.len() <= 2_000_000
}

/// Whether two tools at different places have different names.
pub open spec fn names_differ(tools: Seq<ToolDef>) -> bool {
    forall|i: int, j: int|
        0 <= i < j < tools.len() ==> trimmed((#[trigger] tools[i]).name@) != trimmed(
            (#[trigger] tools[j]).name@,
        )
}

proof fn lemma_tools(tools: Seq<ToolDef>, k: int)
    requires
        0 <= k <= tools.len(),
    ensures
        first_tool_error(tools, k) is None <==> forall|j: int|
            0 <= j < k ==> #[trigger] tool_error(tools, j) is None,
    decreases k,
{
    if k > 0 {
        lemma_tools(tools, k - 1);
        if first_tool_error(tools, k) is None {
            assert forall|j: int| 0 <= j < k implies #[trigger] tool_error(tools, j) is None by {
                if j == k - 1 {
                    assert(tool_error(tools, k - 1) is None);
                }
            }
        }
    }
}

/// A request is accepted just where its texts are not too long and it has one to thirty-two
/// tools, each of them complete and each with a name of its own.
pub proof fn accepted_request_is_complete(
    system: Seq<char>,
    user: Seq<char>,
    model: Option<Seq<char>>,
    tools: Seq<ToolDef>,
)
    ensures
        request_error(system, user, model, tools) is None <==> {
            &&& system.len() <= 2_000_000 && user.len() <= 2_000_000
            &&& model is Some ==> model->0.len() <= 200
            &&& 1 <= tools.len() <= 32
            &&& forall|i: int| 0 <= i < tools.len() ==> tool_is_complete(#[trigger] tools[i])
            &&& names_differ(tools)
        },
{
    lemma_tools(tools, tools.len() as int);
    if tools_error(tools) is None {
        assert forall|i: int| 0 <= i < tools.len() implies tool_is_complete(#[trigger] tools[i]) by {
            assert(tool_error(tools, i) is None);
        }
        assert forall|i: int, j: int| 0 <= i < j < tools.len() implies trimmed(
            (#[trigger] tools[i]).name@,
        ) != trimmed((#[trigger] tools[j]).name@) by {
            assert(tool_error(tools, j) is None);
        }
    }
    if (forall|i: int| 0 <= i < tools.len() ==> tool_is_complete(#[trigger] tools[i]))
        && names_differ(tools) {
        assert forall|k: int| 0 <= k < tools.len() implies #[trigger] tool_error(
            tools,
            k,
        ) is None by {
            assert(tool_is_complete(tools[k]));
        }
    }
}

/// What an orchestration does is what it comes to: calls are carried out one for one, from the
/// first on, each as the answer asks for it.
pub proof fn orchestration_does_what_it_comes_to(
    action: AgentAction,
    next: (OrchestrationView, AgentActionView),
    tools: Seq<ToolDef>,
)
    requires
        takes(action, next, tools),
    ensures
        match action {
            AgentAction::Ask => next.1 is Ask,
            AgentAction::Call(v) => next.1 == AgentActionView::Call(v.len() as int) && forall|i: int|
                0 <= i < v.len() ==> (#[trigger] v@[i]).index == i && v@[i].name@
                    == next.0.waiting->0.tool_calls@[i].name@,
            AgentAction::Finish(s) => next.1 == AgentActionView::Finish(s@),
            AgentAction::Fail(s) => next.1 == AgentActionView::Fail(s@),
        },
{
    if let AgentAction::Call(v) = action {
        assert forall|i: int| 0 <= i < v.len() implies (#[trigger] v@[i]).index == i && v@[i].name@
            == next.0.waiting->0.tool_calls@[i].name@ by {
            assert(plans(v@[i], next.0.waiting->0.tool_calls@, tools, i));
        }
    }
}

} // verus!

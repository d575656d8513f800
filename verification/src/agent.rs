//! Orchestration by a language model that may call tools, within a budget.
use crate::json::{
    fields, items_view, json_array, json_parsed, json_text_value, no_members, parse, text_at, Json,
    JsonView,
};
use crate::text::{
    blank, chars_of, concat2, decimal, decimal_u64, find, first_at, is_blank, lowered, opt_view,
    owned, same, string_between, string_of, to_ascii_lowercase, trim, trimmed,
};
use vstd::prelude::*;

verus! {

/// A tool that the model may call: its description, and the instructions that carry it out.
#[derive(Debug)]
pub struct ToolDef {
    pub name: String,
    pub description: String,
    pub system: String,
}

/// The longest text of an orchestration, in characters.
pub const MAX_AGENT_TEXT_CHARS: usize = 2_000_000;

/// The longest model name, in characters.
pub const MAX_AGENT_MODEL_CHARS: usize = 200;

/// The largest number of tools.
pub const MAX_AGENT_TOOLS: usize = 32;

/// The longest tool name, in characters.
pub const MAX_TOOL_NAME_CHARS: usize = 100;

/// The longest tool description, in characters.
pub const MAX_TOOL_DESCRIPTION_CHARS: usize = 2_000;

/// How many tool calls one round may carry out.
pub const MAX_TOOL_CALLS_PER_STEP: usize = 8;

/// How many tool calls an orchestration may carry out.
pub const MAX_TOOL_CALLS_TOTAL: usize = 24;

/// How many rounds an orchestration may take.
pub const MAX_STEPS: usize = 6;

// ---------------------------------------------------------------------------
// Requests
// ---------------------------------------------------------------------------

/// The error of the tool at a place of the list, where it has one.
pub open spec fn tool_error(tools: Seq<ToolDef>, k: int) -> Option<Seq<char>> {
    let t = tools[k];
    if is_blank(t.name@) {
        Some("tools.name 不能为空"@)
    } else if t.name@.len() > MAX_TOOL_NAME_CHARS {
        Some("tools.name 超过 100 个字符"@)
    } else if exists|j: int| 0 <= j < k && trimmed((#[trigger] tools[j]).name@) == trimmed(t.name@) {
        Some("tools.name 重复: "@ + trimmed(t.name@))
    } else if is_blank(t.description@) {
        Some("tools.description 不能为空"@)
    } else if t.description@.len() > MAX_TOOL_DESCRIPTION_CHARS {
        Some("tools.description 超过 2000 个字符"@)
    } else if is_blank(t.system@) {
        Some("tools.system 不能为空"@)
    } else if t.system@.len() > MAX_AGENT_TEXT_CHARS {
        Some("tools.system 超过 2000000 个字符"@)
    } else {
        None
    }
}

/// The first error among the first `k` tools.
pub open spec fn first_tool_error(tools: Seq<ToolDef>, k: int) -> Option<Seq<char>>
    decreases k,
{
    if k <= 0 {
        None
    } else {
        match first_tool_error(tools, k - 1) {
            Some(e) => Some(e),
            None => tool_error(tools, k - 1),
        }
    }
}

/// The error of a list of tools, where it has one: from 1 to 32 tools with different names,
/// all complete and none too long.
pub open spec fn tools_error(tools: Seq<ToolDef>) -> Option<Seq<char>> {
    if tools.len() == 0 || tools.len() > MAX_AGENT_TOOLS {
        Some("tools 数量必须在 1 到 32 之间"@)
    } else {
        first_tool_error(tools, tools.len() as int)
    }
}

proof fn lemma_first_tool_error_stays(tools: Seq<ToolDef>, k: int, n: int)
    requires
        0 <= k <= n,
        first_tool_error(tools, k) is Some,
    ensures
        first_tool_error(tools, n) == first_tool_error(tools, k),
    decreases n - k,
{
    if k < n {
        lemma_first_tool_error_stays(tools, k, n - 1);
    }
}

fn char_count(s: &str) -> (r: usize)
    ensures
        r == s@.len(),
{
    chars_of(s).len()
}

fn name_repeats(tools: &[ToolDef], k: usize, name: &str) -> (r: bool)
    requires
        k <= tools@.len(),
    ensures
        r == exists|j: int| 0 <= j < k && trimmed((#[trigger] tools@[j]).name@) == name@,
{
    let mut j: usize = 0;
    while j < k
        invariant
            j <= k <= tools@.len(),
            forall|i: int| 0 <= i < j ==> trimmed((#[trigger] tools@[i]).name@) != name@,
        decreases k - j,
    {
        if same(trim(tools[j].name.as_str()).as_str(), name) {
            return true;
        }
        j += 1;
    }
    false
}

fn check_tool(tools: &[ToolDef], k: usize) -> (r: Option<String>)
    requires
        k < tools@.len(),
    ensures
        opt_view(r) == tool_error(tools@, k as int),
{
    let t = &tools[k];
    let name = trim(t.name.as_str());
    if name.as_str().is_empty() {
        return Some(owned("tools.name 不能为空"));
    }
    if char_count(t.name.as_str()) > MAX_TOOL_NAME_CHARS {
        return Some(owned("tools.name 超过 100 个字符"));
    }
    if name_repeats(tools, k, name.as_str()) {
        return Some(concat2("tools.name 重复: ", name.as_str()));
    }
    if blank(t.description.as_str()) {
        return Some(owned("tools.description 不能为空"));
    }
    if char_count(t.description.as_str()) > MAX_TOOL_DESCRIPTION_CHARS {
        return Some(owned("tools.description 超过 2000 个字符"));
    }
    if blank(t.system.as_str()) {
        return Some(owned("tools.system 不能为空"));
    }
    if char_count(t.system.as_str()) > MAX_AGENT_TEXT_CHARS {
        return Some(owned("tools.system 超过 2000000 个字符"));
    }
    None
}

/// Checks the tools of an orchestration.
pub fn validate_agent_tools(tools: &[ToolDef]) -> (r: Result<(), String>)
    ensures
        match tools_error(tools@) {
            Some(e) => r matches Err(f) && f@ == e,
            None => r is Ok,
        },
{
    if tools.len() == 0 || tools.len() > MAX_AGENT_TOOLS {
        return Err(owned("tools 数量必须在 1 到 32 之间"));
    }
    let mut k: usize = 0;
    while k < tools.len()
        invariant
            k <= tools@.len(),
            0 < tools@.len() <= MAX_AGENT_TOOLS,
            first_tool_error(tools@, k as int) is None,
        decreases tools@.len() - k,
    {
        match check_tool(tools, k) {
            Some(e) => {
                proof {
                    lemma_first_tool_error_stays(tools@, k + 1, tools@.len() as int);
                }
                return Err(e);
            },
            None => {},
        }
        k += 1;
    }
    Ok(())
}

/// The error of an orchestration request, where it has one.
pub open spec fn request_error(
    system: Seq<char>,
    user: Seq<char>,
    model: Option<Seq<char>>,
    tools: Seq<ToolDef>,
) -> Option<Seq<char>> {
    if system.len() > MAX_AGENT_TEXT_CHARS {
        Some("system 超过 2000000 个字符"@)
    } else if user.len() > MAX_AGENT_TEXT_CHARS {
        Some("input 超过 2000000 个字符"@)
    } else if model is Some && model->0.len() > MAX_AGENT_MODEL_CHARS {
        Some("model 超过 200 个字符"@)
    } else {
        tools_error(tools)
    }
}

/// The tools of an accepted list have names, and no two of them have the same one.
pub proof fn accepted_tools_are_told_apart(tools: Seq<ToolDef>)
    requires
        tools_error(tools) is None,
    ensures
        forall|i: int| 0 <= i < tools.len() ==> !is_blank((#[trigger] tools[i]).name@),
        forall|i: int, j: int|
            0 <= i < j < tools.len() ==> trimmed((#[trigger] tools[i]).name@) != trimmed(
                (#[trigger] tools[j]).name@,
            ),
{
    assert forall|k: int| 0 <= k < tools.len() implies tool_error(tools, k) is None by {
        if tool_error(tools, k) is Some || first_tool_error(tools, k + 1) is Some {
            lemma_first_tool_error_stays(tools, k + 1, tools.len() as int);
        }
    }
    assert forall|i: int| 0 <= i < tools.len() implies !is_blank((#[trigger] tools[i]).name@) by {
        assert(tool_error(tools, i) is None);
    }
    assert forall|i: int, j: int| 0 <= i < j < tools.len() implies trimmed(
        (#[trigger] tools[i]).name@,
    ) != trimmed((#[trigger] tools[j]).name@) by {
        assert(tool_error(tools, j) is None);
    }
}

/// Checks an orchestration request.
pub fn validate_agent_request(
    system: &str,
    user: &str,
    model: Option<&str>,
    tools: &[ToolDef],
) -> (r: Result<(), String>)
    ensures
        match request_error(system@, user@, opt_view(model), tools@) {
            Some(e) => r matches Err(f) && f@ == e,
            None => r is Ok,
        },
{
    if char_count(system) > MAX_AGENT_TEXT_CHARS {
        return Err(owned("system 超过 2000000 个字符"));
    }
    if char_count(user) > MAX_AGENT_TEXT_CHARS {
        return Err(owned("input 超过 2000000 个字符"));
    }
    match model {
        Some(model) => if char_count(model) > MAX_AGENT_MODEL_CHARS {
            return Err(owned("model 超过 200 个字符"));
        },
        None => {},
    }
    validate_agent_tools(tools)
}

/// The address for chat completions: without the slashes at the end of the base address.
pub open spec fn without_end_slashes(s: Seq<char>) -> Seq<char>
    decreases s.len(),
{
    if s.len() > 0 && s.last() == '/' {
        without_end_slashes(s.drop_last())
    } else {
        s
    }
}

/// The address for chat completions.
pub fn chat_url(base: &str) -> (r: String)
    ensures
        r@ == without_end_slashes(base@) + "/chat/completions"@,
{
    let cs = chars_of(base);
    let mut to: usize = cs.len();
    assert(cs@.take(to as int) =~= cs@);
    while to > 0 && cs[to - 1] == '/'
        invariant
            to <= cs.len(),
            without_end_slashes(cs@) == without_end_slashes(cs@.take(to as int)),
        decreases to,
    {
        proof {
            assert(cs@.take(to as int).last() == cs@[to - 1]);
            assert(cs@.take(to as int).drop_last() =~= cs@.take(to - 1));
        }
        to -= 1;
    }
    proof {
        if to > 0 {
            assert(cs@.take(to as int).last() == cs@[to - 1]);
        }
        assert(cs@.take(to as int) =~= cs@.subrange(0, to as int));
    }
    concat2(string_between(&cs, 0, to).as_str(), "/chat/completions")
}

// ---------------------------------------------------------------------------
// Answers
// ---------------------------------------------------------------------------

/// An answer without the parts in which the model thinks aloud; a part that is not closed
/// takes the rest with it. The bounds that are tested hold of every first position.
pub open spec fn without_thinking(text: Seq<char>) -> Seq<char>
    decreases text.len(),
{
    match first_at(lowered(text), "<think>"@) {
        None => text,
        Some(start) => if !(0 <= start && start + "<think>"@.len() <= text.len()) {
            text
        } else {
            let tail = text.subrange(start + "<think>"@.len(), text.len() as int);
            match first_at(lowered(tail), "</think>"@) {
                None => text.subrange(0, start),
                Some(close) => if !(0 <= close && close + "</think>"@.len() <= tail.len()
                    && "<think>"@.len() + "</think>"@.len() > 0) {
                    text.subrange(0, start)
                } else {
                    text.subrange(0, start) + without_thinking(
                        tail.subrange(close + "</think>"@.len(), tail.len() as int),
                    )
                },
            }
        },
    }
}

fn rest_of(cs: &Vec<char>, from: usize) -> (r: Vec<char>)
    requires
        from <= cs.len(),
    ensures
        r@ == cs@.subrange(from as int, cs.len() as int),
{
    let mut out: Vec<char> = Vec::new();
    let mut i: usize = from;
    while i < cs.len()
        invariant
            from <= i <= cs.len(),
            out@ == cs@.subrange(from as int, i as int),
        decreases cs.len() - i,
    {
        out.push(cs[i]);
        i += 1;
        assert(out@ =~= cs@.subrange(from as int, i as int));
    }
    out
}

fn find_lowered(cs: &Vec<char>, p: &str) -> (r: Option<usize>)
    ensures
        (match r {
            Some(at) => Some(at as int),
            None => None,
        }) == first_at(lowered(cs@), p@),
        r matches Some(at) ==> at + p@.len() <= cs.len(),
{
    let low = chars_of(to_ascii_lowercase(string_of(cs).as_str()).as_str());
    assert(low@.len() == cs@.len());
    find(&low, &chars_of(p))
}

/// Takes the parts in which the model thinks aloud out of an answer.
pub fn strip_thinking(text: &str) -> (r: String)
    ensures
        r@ == trimmed(without_thinking(text@)),
{
    proof {
        reveal_strlit("<think>");
        reveal_strlit("</think>");
        assert("<think>"@.len() == 7 && "</think>"@.len() == 8);
    }
    let mut remaining = chars_of(text);
    let mut output = String::new();
    assert(output@ + without_thinking(remaining@) =~= without_thinking(text@));
    loop
        invariant_except_break
            "<think>"@.len() == 7,
            "</think>"@.len() == 8,
            output@ + without_thinking(remaining@) == without_thinking(text@),
        ensures
            output@ == without_thinking(text@),
        decreases remaining.len(),
    {
        let found: Option<usize> = find_lowered(&remaining, "<think>");
        let start: usize = match found {
            Some(start) => start,
            None => {
                output.append(string_of(&remaining).as_str());
                break;
            },
        };
        let ghost before = output@;
        let ghost text_here = remaining@;
        output.append(string_between(&remaining, 0, start).as_str());
        let tail = rest_of(&remaining, start + 7);
        let closed: Option<usize> = find_lowered(&tail, "</think>");
        match closed {
            Some(close) => {
                remaining = rest_of(&tail, close + 8);
                assert(output@ + without_thinking(remaining@) =~= before + without_thinking(
                    text_here,
                ));
            },
            None => {
                break;
            },
        }
    }
    trim(output.as_str())
}

/// The text of a complete answer; an answer that was cut off is not used.
pub fn finished_text(completed: bool, content: &str) -> (r: Result<String, String>)
    ensures
        if completed {
            r matches Ok(s) && s@ == trimmed(without_thinking(content@))
        } else {
            r matches Err(e) && e@
                == "文本服务返回不完整结果（可能被截断），未使用该结果；请重试或缩短输入"@
        },
{
    if !completed {
        return Err(
            owned("文本服务返回不完整结果（可能被截断），未使用该结果；请重试或缩短输入"),
        );
    }
    Ok(strip_thinking(content))
}

// ---------------------------------------------------------------------------
// Rounds
// ---------------------------------------------------------------------------

/// A tool as it is described to the model.
pub open spec fn tool_value(t: ToolDef) -> JsonView {
    let input = JsonView::Obj(
        no_members()
            .push(("type"@, JsonView::Str("string"@)))
            .push(("description"@, JsonView::Str("该步骤的任务输入内容"@))),
    );
    let parameters = JsonView::Obj(
        no_members()
            .push(("type"@, JsonView::Str("object"@)))
            .push(("properties"@, JsonView::Obj(no_members().push(("input"@, input)))))
            .push(
                ("required"@, JsonView::Arr(Seq::empty().push(JsonView::Str("input"@)))),
            ),
    );
    let function = JsonView::Obj(
        no_members()
            .push(("name"@, JsonView::Str(t.name@)))
            .push(("description"@, JsonView::Str(t.description@)))
            .push(("parameters"@, parameters)),
    );
    JsonView::Obj(
        no_members()
            .push(("type"@, JsonView::Str("function"@)))
            .push(("function"@, function)),
    )
}

fn tool_json(t: &ToolDef) -> (r: Json)
    ensures
        r@ == tool_value(*t),
{
    let input = fields().text("type", "string").text(
        "description",
        "该步骤的任务输入内容",
    ).object();
    let mut required: Vec<Json> = Vec::new();
    required.push(json_text_value("input"));
    assert(items_view(required@) =~= Seq::empty().push(JsonView::Str("input"@)));
    let parameters = fields().text("type", "object").with(
        "properties",
        fields().with("input", input).object(),
    ).with("required", json_array(required)).object();
    let function = fields().text("name", t.name.as_str()).text(
        "description",
        t.description.as_str(),
    ).with("parameters", parameters).object();
    fields().text("type", "function").with("function", function).object()
}

/// The tools as they are described to the model.
pub fn tools_json(tools: &[ToolDef]) -> (r: Vec<Json>)
    ensures
        items_view(r@) == Seq::new(tools@.len(), |i: int| tool_value(tools@[i])),
{
    let mut out: Vec<Json> = Vec::new();
    let mut i: usize = 0;
    while i < tools.len()
        invariant
            i <= tools@.len(),
            out.len() == i,
            forall|j: int| 0 <= j < i ==> (#[trigger] out@[j])@ == tool_value(tools@[j]),
        decreases tools@.len() - i,
    {
        out.push(tool_json(&tools[i]));
        i += 1;
    }
    assert(items_view(out@) =~= Seq::new(tools@.len(), |i: int| tool_value(tools@[i])));
    out
}

/// A message to the model.
pub open spec fn message_value(role: Seq<char>, content: Seq<char>) -> JsonView {
    JsonView::Obj(
        no_members()
            .push(("role"@, JsonView::Str(role)))
            .push(("content"@, JsonView::Str(content))),
    )
}

/// The messages with which an orchestration begins.
pub fn first_messages(system: &str, user: &str) -> (r: Vec<Json>)
    ensures
        items_view(r@) == Seq::empty().push(message_value("system"@, system@)).push(
            message_value("user"@, user@),
        ),
{
    let mut out: Vec<Json> = Vec::new();
    out.push(fields().text("role", "system").text("content", system).object());
    out.push(fields().text("role", "user").text("content", user).object());
    assert(items_view(out@) =~= Seq::empty().push(message_value("system"@, system@)).push(
        message_value("user"@, user@),
    ));
    out
}

/// A tool call that the model asks for.
#[derive(Debug)]
pub struct ToolCall {
    pub id: String,
    pub name: String,
    pub arguments: String,
}

/// A tool call that is carried out.
#[derive(Debug)]
pub struct PlannedCall {
    pub index: usize,
    pub system: String,
    pub input: String,
    pub name: String,
}

/// How many calls of a round are carried out, after `total` in earlier rounds.
pub open spec fn round_budget(total: int) -> int {
    if total >= MAX_TOOL_CALLS_TOTAL {
        0
    } else if MAX_TOOL_CALLS_TOTAL - total < MAX_TOOL_CALLS_PER_STEP {
        MAX_TOOL_CALLS_TOTAL - total
    } else {
        MAX_TOOL_CALLS_PER_STEP as int
    }
}

/// How many of a number of calls are carried out.
pub open spec fn carried_out(calls: int, total: int) -> int {
    if calls < round_budget(total) {
        calls
    } else {
        round_budget(total)
    }
}

/// The text under `input` of the arguments of a call, else nothing.
pub open spec fn input_of(arguments: Option<JsonView>) -> Seq<char> {
    match arguments {
        Some(v) => match text_at(v, "input"@) {
            Some(s) => s,
            None => Seq::empty(),
        },
        None => Seq::empty(),
    }
}

/// What a tool call hands to its tool.
pub open spec fn call_input(arguments: Seq<char>) -> Seq<char> {
    input_of(json_parsed(arguments))
}

/// The text under `input` of the arguments of a call, which may not be JSON.
pub fn tool_input(arguments: Option<&Json>) -> (r: String)
    ensures
        r@ == input_of(opt_view(arguments)),
{
    match arguments {
        Some(v) => match v.text_at("input") {
            Some(s) => owned(s),
            None => String::new(),
        },
        None => String::new(),
    }
}

/// The first tool of a name.
pub open spec fn tool_named(tools: Seq<ToolDef>, name: Seq<char>) -> Option<ToolDef> {
    crate::sequence::find_first(tools, tool_has_name(name))
}

/// Whether a tool has a name.
pub open spec fn tool_has_name(name: Seq<char>) -> spec_fn(ToolDef) -> bool {
    |t: ToolDef| t.name@ == name
}

/// Whether a planned call carries out the call of an index.
pub open spec fn plans(p: PlannedCall, calls: Seq<ToolCall>, tools: Seq<ToolDef>, i: int) -> bool {
    &&& p.index == i
    &&& p.name@ == calls[i].name@
    &&& p.input@ == call_input(calls[i].arguments@)
    &&& tool_named(tools, calls[i].name@) matches Some(t) && p.system@ == t.system@
}

fn find_tool<'a>(tools: &'a [ToolDef], name: &str) -> (r: Option<&'a ToolDef>)
    ensures
        (match r {
            Some(t) => Some(*t),
            None => None,
        }) == tool_named(tools@, name@),
{
    let ghost p = tool_has_name(name@);
    let mut i: usize = 0;
    while i < tools.len()
        invariant
            i <= tools@.len(),
            p == tool_has_name(name@),
            forall|j: int| 0 <= j < i ==> !p(#[trigger] tools@[j]),
        decreases tools@.len() - i,
    {
        if same(tools[i].name.as_str(), name) {
            proof {
                crate::sequence::lemma_find_first(tools@, p, i as int);
            }
            return Some(&tools[i]);
        }
        i += 1;
    }
    proof {
        crate::sequence::lemma_find_first(tools@, p, i as int);
    }
    None
}

/// Plans the calls of a round: the first ones, as far as the budget goes; a call of an unknown
/// tool among them is an error.
pub fn plan_calls(calls: &Vec<ToolCall>, tools: &[ToolDef], total: usize) -> (r: Result<
    Vec<PlannedCall>,
    String,
>)
    ensures
        ({
            let n = carried_out(calls.len() as int, total as int);
            if exists|i: int| 0 <= i < n && tool_named(tools@, (#[trigger] calls@[i]).name@) is None {
                r matches Err(e) && e@ == "未知工具"@
            } else {
                r matches Ok(v) && v.len() == n && forall|i: int|
                    0 <= i < n ==> plans(#[trigger] v@[i], calls@, tools@, i)
            }
        }),
{
    let budget: usize = if total >= MAX_TOOL_CALLS_TOTAL {
        0
    } else if MAX_TOOL_CALLS_TOTAL - total < MAX_TOOL_CALLS_PER_STEP {
        MAX_TOOL_CALLS_TOTAL - total
    } else {
        MAX_TOOL_CALLS_PER_STEP
    };
    let n: usize = if calls.len() < budget {
        calls.len()
    } else {
        budget
    };
    let mut out: Vec<PlannedCall> = Vec::new();
    let mut i: usize = 0;
    while i < n
        invariant
            i <= n <= calls.len(),
            n == carried_out(calls.len() as int, total as int),
            out.len() == i,
            forall|j: int| 0 <= j < i ==> plans(#[trigger] out@[j], calls@, tools@, j),
            forall|j: int| 0 <= j < i ==> tool_named(tools@, (#[trigger] calls@[j]).name@) is Some,
        decreases n - i,
    {
        let call = &calls[i];
        let arguments = parse(call.arguments.as_str());
        let input = tool_input(arguments.as_ref());
        match find_tool(tools, call.name.as_str()) {
            Some(t) => {
                out.push(
                    PlannedCall {
                        index: i,
                        system: t.system.clone(),
                        input,
                        name: call.name.clone(),
                    },
                );
            },
            None => return Err(owned("未知工具")),
        }
        i += 1;
    }
    Ok(out)
}

/// What the model asked for in a round.
#[derive(Debug)]
pub struct Completion {
    pub tool_calls: Vec<ToolCall>,
    pub completed: bool,
    pub content: String,
    pub assistant_message: Json,
}

/// What an orchestration does next.
#[derive(Debug)]
pub enum AgentStep {
    /// Hand out the answer.
    Finish(String),
    /// Carry out these calls, then take their results.
    Call(Vec<PlannedCall>),
}

/// Decides what a round does: an answer without calls ends the orchestration, where it is
/// complete; calls are carried out within the budget.
pub fn agent_step(completion: &Completion, tools: &[ToolDef], total: usize) -> (r: Result<
    AgentStep,
    String,
>)
    ensures
        if completion.tool_calls.len() == 0 {
            if completion.completed {
                r matches Ok(AgentStep::Finish(s)) && s@ == trimmed(
                    without_thinking(completion.content@),
                )
            } else {
                r matches Err(e) && e@
                    == "文本服务返回不完整结果（可能被截断），未保存文档；请重试或缩短输入"@
            }
        } else {
            let n = carried_out(completion.tool_calls.len() as int, total as int);
            let calls = completion.tool_calls@;
            if exists|i: int| 0 <= i < n && tool_named(tools@, (#[trigger] calls[i]).name@) is None {
                r matches Err(e) && e@ == "未知工具"@
            } else {
                r matches Ok(AgentStep::Call(v)) && v.len() == n && forall|i: int|
                    0 <= i < n ==> plans(#[trigger] v@[i], calls, tools@, i)
            }
        },
{
    if completion.tool_calls.len() == 0 {
        if !completion.completed {
            return Err(
                owned("文本服务返回不完整结果（可能被截断），未保存文档；请重试或缩短输入"),
            );
        }
        return Ok(AgentStep::Finish(strip_thinking(completion.content.as_str())));
    }
    match plan_calls(&completion.tool_calls, tools, total) {
        Ok(v) => Ok(AgentStep::Call(v)),
        Err(e) => Err(e),
    }
}

/// What is reported to the model for a call.
pub open spec fn call_content(
    results: Seq<Option<String>>,
    total: int,
    calls: int,
    i: int,
) -> Seq<char> {
    if i >= carried_out(calls, total) {
        "工具调用预算已用尽，本次调用未执行。"@
    } else if i < results.len() && results[i] is Some {
        results[i]->0@
    } else {
        "工具调用未返回结果。"@
    }
}

/// The message that reports a call to the model.
pub open spec fn call_message(id: Seq<char>, content: Seq<char>) -> JsonView {
    JsonView::Obj(
        no_members()
            .push(("role"@, JsonView::Str("tool"@)))
            .push(("tool_call_id"@, JsonView::Str(id)))
            .push(("content"@, JsonView::Str(content))),
    )
}

/// The messages after a round: what the model said, then one report for each of its calls, in
/// their order.
pub open spec fn messages_after(
    messages: Seq<JsonView>,
    completion: Completion,
    results: Seq<Option<String>>,
    total: int,
) -> Seq<JsonView> {
    let calls = completion.tool_calls@;
    messages.push(completion.assistant_message@) + Seq::new(
        calls.len(),
        |i: int|
            call_message(calls[i].id@, call_content(results, total, calls.len() as int, i)),
    )
}

/// The answer of an orchestration whose budget is used up.
pub open spec fn budget_text(total: int, skipped: int) -> Seq<char> {
    "编排已停止：工具调用达到预算上限（每轮最多 8 次、全程最多 24 次），已执行 "@ + decimal(total as nat)
        + " 次，另有 "@ + decimal(skipped as nat) + " 次调用未执行。"@
}

/// Takes the results of the calls of a round. The orchestration ends with an answer where a
/// call was left out for want of budget.
pub fn take_results(
    messages: &mut Vec<Json>,
    completion: &Completion,
    results: &Vec<Option<String>>,
    total: &mut usize,
) -> (r: Option<String>)
    requires
        *old(total) <= MAX_TOOL_CALLS_TOTAL,
    ensures
        items_view(final(messages)@) == messages_after(
            items_view(old(messages)@),
            *completion,
            results@,
            *old(total) as int,
        ),
        *final(total) == *old(total) + carried_out(
            completion.tool_calls.len() as int,
            *old(total) as int,
        ),
        *final(total) <= MAX_TOOL_CALLS_TOTAL,
        ({
            let skipped = completion.tool_calls.len() - carried_out(
                completion.tool_calls.len() as int,
                *old(total) as int,
            );
            opt_view(r) == if skipped > 0 {
                Some(budget_text(*final(total) as int, skipped as int))
            } else {
                None
            }
        }),
{
    let before: usize = *total;
    let calls = &completion.tool_calls;
    let budget: usize = if MAX_TOOL_CALLS_TOTAL - before < MAX_TOOL_CALLS_PER_STEP {
        MAX_TOOL_CALLS_TOTAL - before
    } else {
        MAX_TOOL_CALLS_PER_STEP
    };
    let n: usize = if calls.len() < budget {
        calls.len()
    } else {
        budget
    };
    let ghost start = items_view(messages@);
    messages.push(completion.assistant_message.copy());
    let ghost base = start.push(completion.assistant_message@);
    assert(items_view(messages@) =~= base);
    let mut i: usize = 0;
    while i < calls.len()
        invariant
            i <= calls.len(),
            *calls == completion.tool_calls,
            n == carried_out(calls.len() as int, before as int),
            items_view(messages@) =~= base + Seq::new(
                i as nat,
                |i: int|
                    call_message(
                        calls@[i].id@,
                        call_content(results@, before as int, calls.len() as int, i),
                    ),
            ),
        decreases calls.len() - i,
    {
        let content = if i >= n {
            owned("工具调用预算已用尽，本次调用未执行。")
        } else if i < results.len() {
            match &results[i] {
                Some(s) => s.clone(),
                None => owned("工具调用未返回结果。"),
            }
        } else {
            owned("工具调用未返回结果。")
        };
        let ghost so_far = items_view(messages@);
        let message = fields().text("role", "tool").text("tool_call_id", calls[i].id.as_str()).text(
            "content",
            content.as_str(),
        ).object();
        messages.push(message);
        assert(items_view(messages@) =~= so_far.push(message@));
        i += 1;
    }
    *total = before + n;
    let skipped: usize = calls.len() - n;
    if skipped > 0 {
        let mut out = owned(
            "编排已停止：工具调用达到预算上限（每轮最多 8 次、全程最多 24 次），已执行 ",
        );
        out.append(decimal_u64((before + n) as u64).as_str());
        out.append(" 次，另有 ");
        out.append(decimal_u64(skipped as u64).as_str());
        out.append(" 次调用未执行。");
        Some(out)
    } else {
        None
    }
}

/// Whether another round may be taken after a number of rounds.
pub fn next_round(steps: usize) -> (r: Result<(), String>)
    ensures
        r is Ok <==> steps < MAX_STEPS,
        r matches Err(e) ==> e@ == "编排超过步数上限"@,
{
    if steps < MAX_STEPS {
        Ok(())
    } else {
        Err(owned("编排超过步数上限"))
    }
}

/// Where an orchestration stands.
#[derive(Debug)]
pub struct Orchestration {
    /// What has been said so far.
    pub messages: Vec<Json>,
    /// How many calls were carried out and reported.
    pub total: usize,
    /// How often the model was asked.
    pub asked: usize,
    /// The answer whose calls are being carried out.
    pub waiting: Option<Completion>,
}

/// Where an orchestration stands, in the terms of its messages.
pub struct OrchestrationView {
    pub messages: Seq<JsonView>,
    pub total: int,
    pub asked: int,
    pub waiting: Option<Completion>,
}

impl View for Orchestration {
    type V = OrchestrationView;

    open spec fn view(&self) -> OrchestrationView {
        OrchestrationView {
            messages: items_view(self.messages@),
            total: self.total as int,
            asked: self.asked as int,
            waiting: self.waiting,
        }
    }
}

/// What happens to an orchestration.
#[derive(Debug)]
pub enum AgentEvent {
    /// It begins.
    Begin,
    /// The model has answered.
    Answered(Result<Completion, String>),
    /// The calls were carried out; a call without a result gave none.
    Called(Result<Vec<Option<String>>, String>),
}

/// What an orchestration does next.
#[derive(Debug)]
pub enum AgentAction {
    /// Ask the model.
    Ask,
    /// Carry out these calls.
    Call(Vec<PlannedCall>),
    /// Hand out this answer.
    Finish(String),
    /// Fail with this text.
    Fail(String),
}

/// What an orchestration does next: of calls, how many.
pub enum AgentActionView {
    Ask,
    Call(int),
    Finish(Seq<char>),
    Fail(Seq<char>),
}

/// The orchestration of a request before it begins.
pub open spec fn fresh_orchestration(system: Seq<char>, user: Seq<char>) -> OrchestrationView {
    OrchestrationView {
        messages: Seq::empty().push(message_value("system"@, system)).push(
            message_value("user"@, user),
        ),
        total: 0,
        asked: 0,
        waiting: None,
    }
}

/// Makes the orchestration of a request.
pub fn new_orchestration(system: &str, user: &str) -> (r: Orchestration)
    ensures
        r@ == fresh_orchestration(system@, user@),
{
    Orchestration { messages: first_messages(system, user), total: 0, asked: 0, waiting: None }
}

/// Whether an orchestration is within its budget.
pub open spec fn within_budget(o: OrchestrationView) -> bool {
    0 <= o.total <= MAX_TOOL_CALLS_TOTAL && 0 <= o.asked <= MAX_STEPS
}

/// Whether an event can happen: calls are reported exactly where some are being carried out.
pub open spec fn can_happen(o: OrchestrationView, event: AgentEvent) -> bool {
    event is Called <==> o.waiting is Some
}

/// Whether one of the first `n` calls names an unknown tool.
pub open spec fn names_unknown(calls: Seq<ToolCall>, tools: Seq<ToolDef>, n: int) -> bool {
    exists|i: int| 0 <= i < n && tool_named(tools, (#[trigger] calls[i]).name@) is None
}

/// What an orchestration does where it may ask the model again: it stops after the last round.
pub open spec fn asks_again(o: OrchestrationView) -> (OrchestrationView, AgentActionView) {
    if o.asked < MAX_STEPS {
        (OrchestrationView { asked: o.asked + 1, ..o }, AgentActionView::Ask)
    } else {
        (o, AgentActionView::Fail("编排超过步数上限"@))
    }
}

/// What an event makes of an orchestration, and what it does next.
pub open spec fn orchestrated(o: OrchestrationView, event: AgentEvent, tools: Seq<ToolDef>) -> (
    OrchestrationView,
    AgentActionView,
) {
    match event {
        AgentEvent::Begin => asks_again(o),
        AgentEvent::Answered(Err(e)) => (o, AgentActionView::Fail(e@)),
        AgentEvent::Answered(Ok(c)) => {
            let n = carried_out(c.tool_calls.len() as int, o.total);
            if c.tool_calls.len() == 0 {
                if c.completed {
                    (o, AgentActionView::Finish(trimmed(without_thinking(c.content@))))
                } else {
                    (
                        o,
                        AgentActionView::Fail(
                            "文本服务返回不完整结果（可能被截断），未保存文档；请重试或缩短输入"@,
                        ),
                    )
                }
            } else if names_unknown(c.tool_calls@, tools, n) {
                (o, AgentActionView::Fail("未知工具"@))
            } else {
                (OrchestrationView { waiting: Some(c), ..o }, AgentActionView::Call(n))
            }
        },
        AgentEvent::Called(Err(e)) => (o, AgentActionView::Fail(e@)),
        AgentEvent::Called(Ok(results)) => {
            let c = o.waiting->0;
            let n = carried_out(c.tool_calls.len() as int, o.total);
            let reported = OrchestrationView {
                messages: messages_after(o.messages, c, results@, o.total),
                total: o.total + n,
                waiting: None,
                ..o
            };
            if c.tool_calls.len() > n {
                (
                    reported,
                    AgentActionView::Finish(budget_text(o.total + n, c.tool_calls.len() - n)),
                )
            } else {
                asks_again(reported)
            }
        },
    }
}

/// Whether an action is the one that an orchestration takes; planned calls carry out the first
/// calls of the answer, in their order.
pub open spec fn takes(action: AgentAction, next: (OrchestrationView, AgentActionView), tools: Seq<
    ToolDef,
>) -> bool {
    match next.1 {
        AgentActionView::Ask => action is Ask,
        AgentActionView::Call(n) => action matches AgentAction::Call(v) && v.len() == n && forall|
            i: int,
        |
            0 <= i < n ==> plans(#[trigger] v@[i], next.0.waiting->0.tool_calls@, tools, i),
        AgentActionView::Finish(s) => action matches AgentAction::Finish(t) && t@ == s,
        AgentActionView::Fail(s) => action matches AgentAction::Fail(t) && t@ == s,
    }
}

fn ask_again(o: &mut Orchestration) -> (r: AgentAction)
    ensures
        final(o)@ == asks_again(old(o)@).0,
        takes(r, asks_again(old(o)@), Seq::empty()),
{
    match next_round(o.asked) {
        Ok(_) => {
            o.asked = o.asked + 1;
            AgentAction::Ask
        },
        Err(e) => AgentAction::Fail(e),
    }
}

/// Decides what an orchestration does after an event.
pub fn orchestrate(o: &mut Orchestration, event: AgentEvent, tools: &[ToolDef]) -> (r: AgentAction)
    requires
        within_budget(old(o)@),
        can_happen(old(o)@, event),
    ensures
        final(o)@ == orchestrated(old(o)@, event, tools@).0,
        takes(r, orchestrated(old(o)@, event, tools@), tools@),
        within_budget(final(o)@),
{
    match event {
        AgentEvent::Begin => ask_again(o),
        AgentEvent::Answered(Err(e)) => AgentAction::Fail(e),
        AgentEvent::Answered(Ok(completion)) => match agent_step(&completion, tools, o.total) {
            Ok(AgentStep::Finish(text)) => AgentAction::Finish(text),
            Ok(AgentStep::Call(planned)) => {
                o.waiting = Some(completion);
                AgentAction::Call(planned)
            },
            Err(e) => AgentAction::Fail(e),
        },
        AgentEvent::Called(Err(e)) => AgentAction::Fail(e),
        AgentEvent::Called(Ok(results)) => match o.waiting.take() {
            Some(completion) => {
                let stopped = take_results(&mut o.messages, &completion, &results, &mut o.total);
                match stopped {
                    Some(text) => AgentAction::Finish(text),
                    None => ask_again(o),
                }
            },
            // Calls are reported only while some are being carried out.
            None => AgentAction::Ask,
        },
    }
}

/// What a course of events brings: where the orchestration stands, how often the model was
/// asked, and how many calls were carried out.
pub open spec fn course(o: OrchestrationView, events: Seq<AgentEvent>, tools: Seq<ToolDef>) -> (
    OrchestrationView,
    int,
    int,
)
    decreases events.len(),
{
    if events.len() == 0 {
        (o, 0, 0)
    } else {
        let before = course(o, events.drop_last(), tools);
        let (after, action) = orchestrated(before.0, events.last(), tools);
        match action {
            AgentActionView::Ask => (after, before.1 + 1, before.2),
            AgentActionView::Call(n) => (after, before.1, before.2 + n),
            _ => (after, before.1, before.2),
        }
    }
}

/// Whether all events of a course can happen, one after the other.
pub open spec fn course_can_happen(
    o: OrchestrationView,
    events: Seq<AgentEvent>,
    tools: Seq<ToolDef>,
) -> bool
    decreases events.len(),
{
    events.len() > 0 ==> course_can_happen(o, events.drop_last(), tools) && can_happen(
        course(o, events.drop_last(), tools).0,
        events.last(),
    )
}

/// An orchestration keeps its budget over its whole course, whatever the model answers: the
/// model is asked at most six times and at most twenty-four calls are carried out.
pub proof fn whole_budget_is_kept(
    system: Seq<char>,
    user: Seq<char>,
    events: Seq<AgentEvent>,
    tools: Seq<ToolDef>,
)
    requires
        course_can_happen(fresh_orchestration(system, user), events, tools),
    ensures
        ({
            let (o, asked, calls) = course(fresh_orchestration(system, user), events, tools);
            &&& asked == o.asked
            &&& asked <= MAX_STEPS
            &&& calls <= MAX_TOOL_CALLS_TOTAL
            &&& within_budget(o)
        }),
{
    lemma_course(fresh_orchestration(system, user), events, tools);
}

proof fn lemma_course(o: OrchestrationView, events: Seq<AgentEvent>, tools: Seq<ToolDef>)
    requires
        o.asked == 0,
        o.total == 0,
        o.waiting is None,
        course_can_happen(o, events, tools),
    ensures
        ({
            let (after, asked, calls) = course(o, events, tools);
            &&& within_budget(after)
            &&& asked == after.asked
            &&& calls <= MAX_TOOL_CALLS_TOTAL
            &&& after.waiting is Some ==> calls == after.total + carried_out(
                after.waiting->0.tool_calls.len() as int,
                after.total,
            )
            &&& after.waiting is None ==> calls == after.total
        }),
    decreases events.len(),
{
    if events.len() > 0 {
        lemma_course(o, events.drop_last(), tools);
    }
}

/// However many calls the model asks for, a round carries out at most eight of them and an
/// orchestration at most twenty-four.
pub proof fn budget_is_kept(calls: int, total: int)
    requires
        calls >= 0,
        0 <= total <= MAX_TOOL_CALLS_TOTAL,
    ensures
        0 <= carried_out(calls, total) <= MAX_TOOL_CALLS_PER_STEP,
        total + carried_out(calls, total) <= MAX_TOOL_CALLS_TOTAL,
{
}

/// An answer without a mark of thinking is handed out as it is, but for the white space
/// around it.
pub proof fn plain_answer_is_kept(text: Seq<char>)
    requires
        first_at(lowered(text), "<think>"@) is None,
    ensures
        trimmed(without_thinking(text)) == trimmed(text),
{
}

} // verus!

//! The decisions of the agent loop around a response's tool calls: at the
//! top of each round (stop when cancelled, ask for compaction when the
//! context is full), before each call (stop when cancelled, activate a
//! skill, or run the tool), and after it (what is reported, what is saved
//! to the session, and what joins the context). The caller runs the hooks
//! and the tools, reads skill files and sends the events.

use vstd::prelude::*;
use crate::agent::{
    blocked_tool_result, hook_instruction_pair, missing_skill_name_result, requested_skill, skill_activation_result,
    skill_activation_text, skill_name_of, AgentResponse, SkillFile, HOOK_INSTRUCTION_TOOL,
};
use crate::agent_events::{AbortReason, AgentEvent, CompactionReason};
use crate::config::str_equal;
use crate::session::{duplicate_blocks, AgentMessage, ContentBlock, ToolCall};
use crate::text::trimmed;
use vstd::string::StringExecFns;

verus! {

broadcast use vstd::string::group_string_axioms;

/// The message that asks the model to go on after a compaction the loop
/// asked for.
pub const CONTINUE_MESSAGE: &'static str = "Continue the current task from where you left off.";

/// The name of the tool that activates a skill.
pub const ACTIVATE_SKILL_TOOL: &'static str = "activate_skill";

/// At the top of a round of the agent loop: end the turn as cancelled when
/// the user cancelled; otherwise, when the context needs compacting, ask for
/// it (with `input_tokens` as the total and a request to go on); otherwise
/// stream the next response (`None`).
pub fn loop_top_step(cancelled: bool, needs_compaction: bool, input_tokens: u32) -> (r: Option<Vec<AgentEvent>>)
    ensures
        cancelled ==> (r matches Some(ev) && ev@ == seq![AgentEvent::Done(Err(AbortReason::UserCancelled))]),
        !cancelled && needs_compaction ==> (r matches Some(ev) && ev@.len() == 1 && (ev@[0] matches
            AgentEvent::NeedsCompaction { total_tokens, reason, retry_user_message: Some(m) }
            && total_tokens == input_tokens && reason == CompactionReason::Threshold && m@ == CONTINUE_MESSAGE@)),
        !cancelled && !needs_compaction ==> r is None,
{
    if cancelled {
        return Some(vec![AgentEvent::Done(Err(AbortReason::UserCancelled))]);
    }
    if needs_compaction {
        let ev = AgentEvent::NeedsCompaction {
            total_tokens: input_tokens,
            reason: CompactionReason::Threshold,
            retry_user_message: Some(String::from_str(CONTINUE_MESSAGE)),
        };
        return Some(vec![ev]);
    }
    None
}

/// What to do with the next tool call.
pub enum ToolCallRoute {
    /// The user cancelled: send these events and end the turn.
    Cancel(Vec<AgentEvent>),
    /// It activates a skill: see [`skill_call`].
    Skill,
    /// Run its `PreToolUse` hooks, then the tool.
    Run,
}

/// Before a tool call: stop when cancelled, else activate a skill for an
/// `activate_skill` call, else run it.
pub fn route_tool_call(cancelled: bool, tc: &ToolCall) -> (r: ToolCallRoute)
    ensures
        cancelled ==> (r matches ToolCallRoute::Cancel(ev) && ev@ == seq![AgentEvent::Done(Err(AbortReason::UserCancelled))]),
        !cancelled && tc.name@ == ACTIVATE_SKILL_TOOL@ ==> r is Skill,
        !cancelled && tc.name@ != ACTIVATE_SKILL_TOOL@ ==> r is Run,
{
    if cancelled {
        return ToolCallRoute::Cancel(vec![AgentEvent::Done(Err(AbortReason::UserCancelled))]);
    }
    if str_equal(tc.name.as_str(), ACTIVATE_SKILL_TOOL) {
        ToolCallRoute::Skill
    } else {
        ToolCallRoute::Run
    }
}

/// What one tool call leaves: the events to send, in order, and the
/// messages that join the context, each with whether it is ephemeral (kept
/// out of the history comparison).
pub struct ToolCallRecord {
    pub events: Vec<AgentEvent>,
    pub context: Vec<(AgentMessage, bool)>,
}

/// `m` is an assistant message holding only the call `tc`.
pub open spec fn is_call_message(m: AgentMessage, tc: ToolCall) -> bool {
    m matches AgentMessage::Assistant { content, usage } && content@ == seq![ContentBlock::ToolCall { tool_call: tc }]
        && usage is None
}

/// `m` is the tool result `result` of the call `tc`.
pub open spec fn is_result_message(m: AgentMessage, tc: ToolCall, result: Seq<char>) -> bool {
    m matches AgentMessage::Tool { tool_call_id, tool_name, tool_arguments, result: r } && tool_call_id == tc.id
        && tool_name == tc.name && tool_arguments == tc.arguments && r@ == result
}

/// `e` saves to the session the assistant message holding only `tc`.
pub open spec fn saves_call(e: AgentEvent, tc: ToolCall) -> bool {
    e matches AgentEvent::SaveAssistantMessage { content, usage } && content@ == seq![
        ContentBlock::ToolCall { tool_call: tc },
    ] && usage is None
}

/// `e` saves to the session the result `result` of `tc`.
pub open spec fn saves_result(e: AgentEvent, tc: ToolCall, result: Seq<char>) -> bool {
    e matches AgentEvent::SaveToolResult { tool_call_id, tool_name, tool_args, result: r } && tool_call_id == tc.id
        && tool_name == tc.name && tool_args == tc.arguments && r@ == result
}

/// The context gets the call `tc` and its result `result`, both persisted.
pub open spec fn call_in_context(ctx: Seq<(AgentMessage, bool)>, tc: ToolCall, result: Seq<char>) -> bool {
    &&& ctx.len() >= 2
    &&& is_call_message(ctx[0].0, tc) && !ctx[0].1
    &&& is_result_message(ctx[1].0, tc, result) && !ctx[1].1
}

/// The event that shows a tool call starting.
pub open spec fn start_event_of(tc: ToolCall) -> AgentEvent {
    AgentEvent::ToolCallStart { tool_call_id: tc.id, tool_name: tc.name, tool_args: tc.arguments }
}

/// The event that shows a tool call starting.
pub fn tool_call_start_event(tc: &ToolCall) -> (e: AgentEvent)
    ensures
        e == start_event_of(*tc),
{
    AgentEvent::ToolCallStart { tool_call_id: tc.id.clone(), tool_name: tc.name.clone(), tool_args: tc.arguments.clone() }
}

fn call_message(tc: &ToolCall) -> (m: AgentMessage)
    ensures
        is_call_message(m, *tc),
{
    let mut blocks: Vec<ContentBlock> = Vec::new();
    blocks.push(ContentBlock::ToolCall { tool_call: tc.duplicate() });
    assert(blocks@ =~= seq![ContentBlock::ToolCall { tool_call: *tc }]);
    AgentMessage::Assistant { content: blocks, usage: None }
}

fn result_message(tc: &ToolCall, result: &String) -> (m: AgentMessage)
    ensures
        is_result_message(m, *tc, result@),
{
    AgentMessage::Tool {
        tool_call_id: tc.id.clone(),
        tool_name: tc.name.clone(),
        tool_arguments: tc.arguments.clone(),
        result: result.clone(),
    }
}

fn save_call_event(tc: &ToolCall) -> (e: AgentEvent)
    ensures
        saves_call(e, *tc),
{
    let mut blocks: Vec<ContentBlock> = Vec::new();
    blocks.push(ContentBlock::ToolCall { tool_call: tc.duplicate() });
    assert(blocks@ =~= seq![ContentBlock::ToolCall { tool_call: *tc }]);
    AgentEvent::SaveAssistantMessage { content: blocks, usage: None }
}

fn save_result_event(tc: &ToolCall, result: &String) -> (e: AgentEvent)
    ensures
        saves_result(e, *tc, result@),
{
    AgentEvent::SaveToolResult {
        tool_call_id: tc.id.clone(),
        tool_name: tc.name.clone(),
        tool_args: tc.arguments.clone(),
        result: result.clone(),
    }
}

/// The call and its result, persisted, as context entries.
fn call_context(tc: &ToolCall, result: &String) -> (ctx: Vec<(AgentMessage, bool)>)
    ensures
        call_in_context(ctx@, *tc, result@),
        ctx@.len() == 2,
{
    vec![(call_message(tc), false), (result_message(tc, result), false)]
}

/// An `activate_skill` call, with `file` what was found for the skill it
/// names: without a name, an `unknown` activation and an error result; with
/// one, the activation and its text. Either way the call and its result are
/// saved and join the context; no start or done event is sent. The name of
/// the activated skill is returned.
pub fn skill_call(tc: &ToolCall, file: SkillFile) -> (r: (ToolCallRecord, Option<String>))
    ensures
        r.0.context@.len() == 2,
        r.0.events@.len() == 3,
        requested_skill(tc.arguments@).len() == 0 ==> {
            &&& r.1 is None
            &&& r.0.events@[0] matches AgentEvent::SkillActivation { skill_name } && skill_name@ == "unknown"@
            &&& saves_call(r.0.events@[1], *tc)
            &&& saves_result(r.0.events@[2], *tc, "Error: skill name is required"@)
            &&& call_in_context(r.0.context@, *tc, "Error: skill name is required"@)
        },
        requested_skill(tc.arguments@).len() > 0 ==> {
            let name = requested_skill(tc.arguments@);
            let text = skill_activation_text(name, file);
            &&& r.1 matches Some(n) && n@ == name
            &&& r.0.events@[0] matches AgentEvent::SkillActivation { skill_name } && skill_name@ == name
            &&& saves_call(r.0.events@[1], *tc)
            &&& saves_result(r.0.events@[2], *tc, text)
            &&& call_in_context(r.0.context@, *tc, text)
        },
{
    let name = skill_name_of(tc);
    if name.as_str().unicode_len() == 0 {
        proof {
            reveal_strlit("unknown");
        }
        let error = missing_skill_name_result();
        let events = vec![
            AgentEvent::SkillActivation { skill_name: String::from_str("unknown") },
            save_call_event(tc),
            save_result_event(tc, &error),
        ];
        let context = call_context(tc, &error);
        return (ToolCallRecord { events, context }, None);
    }
    let text = skill_activation_result(name.as_str(), file);
    let events = vec![
        AgentEvent::SkillActivation { skill_name: name.clone() },
        save_call_event(tc),
        save_result_event(tc, &text),
    ];
    let context = call_context(tc, &text);
    (ToolCallRecord { events, context }, Some(name))
}

/// A call a `PreToolUse` hook blocked with `error`: it is shown starting
/// and done with the error, the call and the error are saved, and both join
/// the context.
pub fn blocked_call(tc: &ToolCall, error: &str) -> (r: ToolCallRecord)
    ensures
        ({
            let text = "Tool call blocked by hook: "@ + error@;
            &&& r.events@.len() == 4
            &&& r.events@[0] == start_event_of(*tc)
            &&& r.events@[1] matches AgentEvent::ToolCallDone { tool_call_id, result, has_error, rtk_original }
                && tool_call_id == tc.id && result@ == text && has_error && rtk_original is None
            &&& saves_call(r.events@[2], *tc)
            &&& saves_result(r.events@[3], *tc, text)
            &&& r.context@.len() == 2
            &&& call_in_context(r.context@, *tc, text)
        }),
{
    let text = blocked_tool_result(error);
    let events = vec![
        tool_call_start_event(tc),
        AgentEvent::ToolCallDone { tool_call_id: tc.id.clone(), result: text.clone(), has_error: true, rtk_original: None },
        save_call_event(tc),
        save_result_event(tc, &text),
    ];
    let context = call_context(tc, &text);
    ToolCallRecord { events, context }
}

/// A call whose tool ran with `outcome` (its output, or its error message)
/// and whose `PostToolUse` hooks left `instructions`: it is shown done; the
/// assistant message saved for it holds, for the first call of the
/// response, the response's blocks and usage before the call, else the call
/// alone; its result is saved; the call and its result join the context,
/// followed (ephemeral) by the hook instructions as a synthetic call and
/// result when there are any.
pub fn finished_call(
    tc: &ToolCall,
    response: &AgentResponse,
    first: bool,
    outcome: Result<String, String>,
    rtk_original: Option<String>,
    instructions: &str,
) -> (r: ToolCallRecord)
    ensures
        ({
            let (text, failed) = match outcome {
                Ok(t) => (t@, false),
                Err(e) => (e@, true),
            };
            &&& r.events@.len() == 3
            &&& r.events@[0] matches AgentEvent::ToolCallDone { tool_call_id, result, has_error, rtk_original: o }
                && tool_call_id == tc.id && result@ == text && has_error == failed && o == rtk_original
            &&& r.events@[1] matches AgentEvent::SaveAssistantMessage { content, usage } && (if first {
                content@ == response.content@.push(ContentBlock::ToolCall { tool_call: *tc }) && usage == response.usage
            } else {
                content@ == seq![ContentBlock::ToolCall { tool_call: *tc }] && usage is None
            })
            &&& saves_result(r.events@[2], *tc, text)
            &&& call_in_context(r.context@, *tc, text)
            &&& instructions@.len() == 0 ==> r.context@.len() == 2
            &&& instructions@.len() > 0 ==> {
                &&& r.context@.len() == 4
                &&& r.context@[2].1 && r.context@[3].1
                &&& r.context@[2].0 matches AgentMessage::Assistant { content, usage } && usage is None
                    && content@.len() == 1 && (content@[0] matches ContentBlock::ToolCall { tool_call: h }
                    && h.id@ == "hook_instruction"@ && h.name@ == HOOK_INSTRUCTION_TOOL@ && h.arguments@ == "{}"@)
                &&& r.context@[3].0 matches AgentMessage::Tool { tool_call_id, tool_name, tool_arguments, result }
                    && tool_call_id@ == "hook_instruction"@ && tool_name@ == HOOK_INSTRUCTION_TOOL@
                    && tool_arguments@ == "{}"@ && result@ == trimmed(instructions@)
            }
        }),
{
    let (text, failed) = match outcome {
        Ok(t) => (t, false),
        Err(e) => (e, true),
    };
    let saved = if first {
        let mut blocks = duplicate_blocks(&response.content);
        blocks.push(ContentBlock::ToolCall { tool_call: tc.duplicate() });
        AgentEvent::SaveAssistantMessage { content: blocks, usage: response.usage }
    } else {
        save_call_event(tc)
    };
    let events = vec![
        AgentEvent::ToolCallDone { tool_call_id: tc.id.clone(), result: text.clone(), has_error: failed, rtk_original },
        saved,
        save_result_event(tc, &text),
    ];
    let mut context = call_context(tc, &text);
    match hook_instruction_pair(instructions) {
        Some((hook_call, hook_result)) => {
            let ghost hc = hook_call;
            let call = AgentMessage::Assistant {
                content: vec![ContentBlock::ToolCall { tool_call: hook_call.duplicate() }],
                usage: None,
            };
            let result = AgentMessage::Tool {
                tool_call_id: hook_call.id,
                tool_name: hook_call.name,
                tool_arguments: hook_call.arguments,
                result: hook_result,
            };
            context.push((call, true));
            context.push((result, true));
        },
        None => {},
    }
    ToolCallRecord { events, context }
}

} // verus!

//! What the agent reports while it works, and how each report changes the
//! application: streamed text and thinking, tool calls, retries, usage,
//! compaction, hooks and the end of the turn. Session writes, hook runs
//! and restarts are left to the caller as actions.

use vstd::prelude::*;
use crate::app::{pushed_system, App, AppState, ChatMessage, ModalState};
use crate::text::utf8_len;
use crate::display::HookDisplay;
use crate::hooks::{HookEvent, HookResult};
use crate::session::{ContentBlock, Usage};
use crate::text::{decimal, decimal_string};
use vstd::string::StringExecFns;

verus! {

broadcast use vstd::string::group_string_axioms;

/// Why a turn ended early.
#[derive(Clone, Debug, PartialEq, Eq)]
pub enum AbortReason {
    /// The user cancelled.
    UserCancelled,
    /// The stream was aborted.
    StreamAborted,
    /// An error, with its message.
    Error(String),
}

/// Why compaction was asked for.
#[derive(Clone, Copy, Debug, PartialEq, Eq, Structural)]
pub enum CompactionReason {
    /// The context passed the compaction threshold.
    Threshold,
    /// The provider reported a context overflow.
    Overflow,
}

/// A report from the agent.
pub enum AgentEvent {
    Token(String),
    ThinkingStart,
    ThinkingEnd,
    Reasoning(String),
    ToolCallStart { tool_call_id: String, tool_name: String, tool_args: String },
    ToolCallDone { tool_call_id: String, result: String, has_error: bool, rtk_original: Option<String> },
    ToolOutput(String),
    RetryStart { attempt: u32, max_attempts: u32, delay_ms: u64, error: String },
    RetryEnd { success: bool, attempt: u32 },
    Usage(Usage),
    Compaction { tokens_saved: u32, message_count: u32 },
    CompactionProgress { message: String },
    CompactionDone { tokens_before: u32, tokens_after: u32, messages_removed: u32 },
    CompactionError { message: String },
    SaveAssistantMessage { content: Vec<ContentBlock>, usage: Option<Usage> },
    SaveToolResult { tool_call_id: String, tool_name: String, tool_args: String, result: String },
    HookMessage {
        event: HookEvent,
        hook_name: String,
        success: bool,
        stdout: String,
        stderr: String,
        tool_name: Option<String>,
    },
    SkillActivation { skill_name: String },
    NeedsCompaction { total_tokens: u32, reason: CompactionReason, retry_user_message: Option<String> },
    Done(Result<(), AbortReason>),
}

/// What the caller must do after an event, beyond the changes made to the
/// application.
pub enum EventAction {
    /// Nothing more.
    Nothing,
    /// Record `n` streamed bytes in the token-rate tracker.
    RecordStreamed(usize),
    /// Stop timing the stream (a tool ran).
    PauseTiming,
    /// Give the provider's output token count to the rate tracker.
    ApplyProviderUsage(u32),
    /// Save an assistant message to the session.
    SaveAssistant { content: Vec<ContentBlock>, usage: Option<Usage> },
    /// Save a tool result to the session.
    SaveToolResult { tool_call_id: String, tool_name: String, tool_args: String, result: String },
    /// Record the skill as activated in the session.
    PersistSkill(String),
    /// Drain the events left, run the `PreCompact` hooks, then compact.
    Compact { reason: CompactionReason, retry_user_message: Option<String> },
    /// Drain the events left, run the `Stop` hooks, then end the turn.
    RunStopHooks,
    /// Drain the events left; the turn is over.
    Finish,
}

/// The parts of the application an agent event never touches: the input,
/// the history of sent messages, the model, the working directory, the
/// session flag, the hooks and the layout.
pub open spec fn event_frame(a: App, b: App) -> bool {
    &&& b.editor == a.editor
    &&& b.sent_messages == a.sent_messages
    &&& b.model_name == a.model_name
    &&& b.context_window == a.context_window
    &&& b.cwd == a.cwd
    &&& b.has_active_session == a.has_active_session
    &&& b.hook_registry == a.hook_registry
    &&& b.terminal_height == a.terminal_height
    &&& b.input_area_height == a.input_area_height
    &&& b.activity_frame == a.activity_frame
}

/// `after` is `before` with streamed text `t` added: appended to the last
/// entry when it is the assistant's, else as a new assistant entry.
pub open spec fn token_pushed(before: Seq<ChatMessage>, after: Seq<ChatMessage>, t: Seq<char>) -> bool {
    if before.len() > 0 && before.last() is Assistant {
        &&& after.len() == before.len()
        &&& after.drop_last() == before.drop_last()
        &&& after.last() matches ChatMessage::Assistant(s) && (before.last() matches ChatMessage::Assistant(p)
            && s@ == p@ + t)
    } else {
        &&& after.len() == before.len() + 1
        &&& after.drop_last() == before
        &&& after.last() matches ChatMessage::Assistant(s) && s@ == t
    }
}

/// `after` is `before` with streamed reasoning `t` appended to the last
/// entry when it is a thinking entry; unchanged otherwise.
pub open spec fn reasoning_pushed(before: Seq<ChatMessage>, after: Seq<ChatMessage>, t: Seq<char>) -> bool {
    if before.len() > 0 && before.last() is Thinking {
        &&& after.len() == before.len()
        &&& after.drop_last() == before.drop_last()
        &&& after.last() matches ChatMessage::Thinking(s) && (before.last() matches ChatMessage::Thinking(p)
            && s@ == p@ + t)
    } else {
        after == before
    }
}

/// Whether `m` is the chat entry of tool call `id`.
pub open spec fn is_call_of(m: ChatMessage, id: Seq<char>) -> bool {
    m matches ChatMessage::ToolCall { id: t, .. } && t@ == id
}

/// The position of the most recent entry of tool call `id`, if any.
pub open spec fn last_call_of(ms: Seq<ChatMessage>, id: Seq<char>) -> Option<int>
    decreases ms.len(),
{
    if ms.len() == 0 {
        None
    } else if is_call_of(ms.last(), id) {
        Some(ms.len() - 1)
    } else {
        last_call_of(ms.drop_last(), id)
    }
}

/// The position of the most recent tool call entry, if any.
pub open spec fn last_tool_call(ms: Seq<ChatMessage>) -> Option<int>
    decreases ms.len(),
{
    if ms.len() == 0 {
        None
    } else if ms.last() is ToolCall {
        Some(ms.len() - 1)
    } else {
        last_tool_call(ms.drop_last())
    }
}

/// A tool call entry with its result recorded.
pub open spec fn with_result(m: ChatMessage, result: String, has_error: bool) -> ChatMessage {
    match m {
        ChatMessage::ToolCall { id, name, args, output, .. } => ChatMessage::ToolCall {
            id,
            name,
            args,
            result: Some(result),
            has_error,
            output,
        },
        other => other,
    }
}

/// `b` is the tool call entry `a` with `t` added to its output.
pub open spec fn output_appended(a: ChatMessage, b: ChatMessage, t: Seq<char>) -> bool {
    &&& a matches ChatMessage::ToolCall { id, name, args, result, has_error, output }
    &&& b matches ChatMessage::ToolCall { id: id2, name: name2, args: args2, result: result2, has_error: e2, output: o2 }
    &&& id2 == id && name2 == name && args2 == args && result2 == result && e2 == has_error
    &&& o2@ == output@ + t
}

/// `a + b`, or the largest `u32` when that overflows.
pub open spec fn saturating_sum(a: u32, b: u32) -> u32 {
    if a + b > u32::MAX {
        u32::MAX
    } else {
        (a + b) as u32
    }
}

/// Follow output unless pinned.
pub open spec fn follows(a: App, b: App) -> bool {
    b.chat.auto_scroll == (a.chat.auto_scroll || !a.chat.pinned_scroll) && b.chat.pinned_scroll == a.chat.pinned_scroll
}

/// The message for a retry that starts.
pub open spec fn retry_start_text(attempt: u32, max_attempts: u32, delay_ms: u64, error: Seq<char>) -> Seq<char> {
    "Retrying... (attempt "@ + decimal(attempt as nat + 1) + "/"@ + decimal(max_attempts as nat) + ", "@
        + decimal(delay_ms as nat) + "ms delay) — "@ + error
}

/// The message for a retry series that ends.
pub open spec fn retry_end_text(success: bool, attempt: u32) -> Seq<char> {
    (if success { "Retry succeeded after "@ } else { "Retry failed after "@ }) + decimal(attempt as nat)
        + " attempt(s)."@
}

fn push_message(app: &mut App, m: ChatMessage)
    ensures
        final(app).chat.messages@ == old(app).chat.messages@.push(m),
        event_frame(*old(app), *final(app)),
        final(app).chat.auto_scroll == old(app).chat.auto_scroll,
        final(app).chat.pinned_scroll == old(app).chat.pinned_scroll,
        final(app).modal == old(app).modal,
        final(app).display == old(app).display,
        final(app).usage == old(app).usage,
        final(app).active_skills == old(app).active_skills,
{
    app.chat.messages.push(m);
}

/// Append streamed text to the last assistant entry, or start one.
fn push_token(app: &mut App, token: String)
    ensures
        token_pushed(old(app).chat.messages@, final(app).chat.messages@, token@),
        event_frame(*old(app), *final(app)),
        final(app).modal == old(app).modal,
        final(app).display == old(app).display,
        final(app).chat.auto_scroll == old(app).chat.auto_scroll,
        final(app).chat.pinned_scroll == old(app).chat.pinned_scroll,
        final(app).usage == old(app).usage,
        final(app).active_skills == old(app).active_skills,
{
    let n = app.chat.messages.len();
    if n > 0 {
        if let ChatMessage::Assistant(_) = &app.chat.messages[n - 1] {
            let last = app.chat.messages.pop();
            match last {
                Some(ChatMessage::Assistant(mut s)) => {
                    s.append(token.as_str());
                    app.chat.messages.push(ChatMessage::Assistant(s));
                },
                _ => {},
            }
            assert(app.chat.messages@.drop_last() =~= old(app).chat.messages@.drop_last());
            return;
        }
    }
    app.chat.messages.push(ChatMessage::Assistant(token));
    assert(app.chat.messages@.drop_last() =~= old(app).chat.messages@);
}

/// Append streamed reasoning to the last thinking entry, if the chat ends
/// with one.
fn push_reasoning(app: &mut App, text: String)
    ensures
        reasoning_pushed(old(app).chat.messages@, final(app).chat.messages@, text@),
        event_frame(*old(app), *final(app)),
        final(app).modal == old(app).modal,
        final(app).display == old(app).display,
        final(app).chat.auto_scroll == old(app).chat.auto_scroll,
        final(app).chat.pinned_scroll == old(app).chat.pinned_scroll,
        final(app).usage == old(app).usage,
        final(app).active_skills == old(app).active_skills,
{
    let n = app.chat.messages.len();
    if n > 0 {
        if let ChatMessage::Thinking(_) = &app.chat.messages[n - 1] {
            let last = app.chat.messages.pop();
            match last {
                Some(ChatMessage::Thinking(mut s)) => {
                    s.append(text.as_str());
                    app.chat.messages.push(ChatMessage::Thinking(s));
                },
                Some(other) => {
                    app.chat.messages.push(other);
                },
                None => {},
            }
            assert(app.chat.messages@.drop_last() =~= old(app).chat.messages@.drop_last());
        }
    }
}

/// Apply an event to the application; returns what remains to do.
pub fn apply_agent_event(app: &mut App, event: AgentEvent) -> (act: EventAction)
    ensures
        final(app).display == old(app).display,
        event_frame(*old(app), *final(app)),
        !(event is Usage) ==> final(app).usage == old(app).usage,
        !(event is SkillActivation) ==> final(app).active_skills == old(app).active_skills,
        !(event is Token || event is ThinkingStart || event is ToolCallStart) ==> final(app).modal == old(app).modal,
        match event {
            AgentEvent::Token(t) => {
                &&& act matches EventAction::RecordStreamed(n) && n == utf8_len(t@)
                &&& final(app).modal == (ModalState {
                    state: if old(app).modal.state == AppState::ToolExec { AppState::Streaming } else { old(app).modal.state },
                    ..old(app).modal
                })
                &&& token_pushed(old(app).chat.messages@, final(app).chat.messages@, t@)
                &&& follows(*old(app), *final(app))
            },
            AgentEvent::ThinkingStart => {
                &&& act is Nothing
                &&& final(app).modal == (ModalState {
                    state: if old(app).modal.state == AppState::ToolExec { AppState::Streaming } else { old(app).modal.state },
                    ..old(app).modal
                })
                &&& final(app).chat.messages@.drop_last() == old(app).chat.messages@
                &&& final(app).chat.messages@.len() == old(app).chat.messages@.len() + 1
                &&& final(app).chat.messages@.last() matches ChatMessage::Thinking(s) && s@.len() == 0
                &&& follows(*old(app), *final(app))
            },
            AgentEvent::ThinkingEnd => act is Nothing && *final(app) == *old(app),
            AgentEvent::Reasoning(t) => {
                &&& act matches EventAction::RecordStreamed(n) && n == utf8_len(t@)
                &&& reasoning_pushed(old(app).chat.messages@, final(app).chat.messages@, t@)
                &&& follows(*old(app), *final(app))
            },
            AgentEvent::ToolCallStart { tool_call_id, tool_name, tool_args } => {
                &&& act is Nothing
                &&& final(app).modal == (ModalState { state: AppState::ToolExec, ..old(app).modal })
                &&& final(app).chat.messages@ == old(app).chat.messages@.push(ChatMessage::ToolCall {
                    id: tool_call_id,
                    name: tool_name,
                    args: tool_args,
                    result: None,
                    has_error: false,
                    output: final(app).chat.messages@.last()->output,
                })
                &&& final(app).chat.messages@.last()->output@.len() == 0
                &&& follows(*old(app), *final(app))
            },
            AgentEvent::ToolCallDone { tool_call_id, result, has_error, .. } => {
                &&& act is PauseTiming
                &&& final(app).chat.messages@ == (match last_call_of(old(app).chat.messages@, tool_call_id@) {
                    Some(k) => old(app).chat.messages@.update(k, with_result(old(app).chat.messages@[k], result, has_error)),
                    None => old(app).chat.messages@,
                })
                &&& follows(*old(app), *final(app))
            },
            AgentEvent::ToolOutput(t) => {
                &&& act is Nothing
                &&& final(app).chat.messages@.len() == old(app).chat.messages@.len()
                &&& match last_tool_call(old(app).chat.messages@) {
                    Some(k) => {
                        &&& forall|j: int|
                            0 <= j < old(app).chat.messages@.len() && j != k ==> #[trigger] final(app).chat.messages@[j]
                                == old(app).chat.messages@[j]
                        &&& output_appended(old(app).chat.messages@[k], final(app).chat.messages@[k], t@)
                    },
                    None => final(app).chat.messages@ == old(app).chat.messages@,
                }
                &&& follows(*old(app), *final(app))
            },
            AgentEvent::Compaction { tokens_saved, message_count } => {
                &&& act is Nothing
                &&& final(app).chat.messages@ == old(app).chat.messages@.push(
                    ChatMessage::Compaction { tokens_saved, messages_removed: message_count },
                )
                &&& follows(*old(app), *final(app))
            },
            AgentEvent::RetryStart { attempt, max_attempts, delay_ms, error } => {
                &&& act is Nothing
                &&& pushed_system(old(app).chat.messages@, final(app).chat.messages@, retry_start_text(attempt, max_attempts, delay_ms, error@))
                &&& follows(*old(app), *final(app))
                &&& final(app).modal.state == old(app).modal.state
            },
            AgentEvent::RetryEnd { success, attempt } => {
                &&& act is Nothing
                &&& pushed_system(old(app).chat.messages@, final(app).chat.messages@, retry_end_text(success, attempt))
                &&& follows(*old(app), *final(app))
                &&& final(app).modal.state == old(app).modal.state
            },
            AgentEvent::Usage(u) => {
                &&& act == EventAction::ApplyProviderUsage(u.completion_tokens)
                &&& final(app).usage.request_input_tokens == u.prompt_tokens
                &&& final(app).usage.request_output_tokens == u.completion_tokens
                &&& final(app).usage.session_input_tokens == saturating_sum(old(app).usage.session_input_tokens, u.prompt_tokens)
                &&& final(app).usage.session_output_tokens == saturating_sum(
                    old(app).usage.session_output_tokens,
                    u.completion_tokens,
                )
                &&& final(app).chat == old(app).chat
            },
            AgentEvent::CompactionProgress { message } => {
                &&& act is Nothing
                &&& pushed_system(old(app).chat.messages@, final(app).chat.messages@, message@)
                &&& follows(*old(app), *final(app))
            },
            AgentEvent::CompactionError { message } => {
                &&& act is Nothing
                &&& pushed_system(old(app).chat.messages@, final(app).chat.messages@, "Compaction failed: "@ + message@)
                &&& follows(*old(app), *final(app))
            },
            AgentEvent::CompactionDone { tokens_before, tokens_after, messages_removed } => {
                &&& act is Nothing
                &&& final(app).chat.messages@ == old(app).chat.messages@.push(ChatMessage::Compaction {
                    tokens_saved: if tokens_before >= tokens_after { (tokens_before - tokens_after) as u32 } else { 0 },
                    messages_removed,
                })
                &&& follows(*old(app), *final(app))
            },
            AgentEvent::SaveAssistantMessage { content, usage } => {
                &&& (old(app).has_active_session ==> act == EventAction::SaveAssistant { content, usage })
                &&& (!old(app).has_active_session ==> act is Nothing)
                &&& *final(app) == *old(app)
            },
            AgentEvent::SaveToolResult { tool_call_id, tool_name, tool_args, result } => {
                &&& (old(app).has_active_session ==> act == EventAction::SaveToolResult { tool_call_id, tool_name, tool_args, result })
                &&& (!old(app).has_active_session ==> act is Nothing)
                &&& *final(app) == *old(app)
            },
            AgentEvent::HookMessage { event: ev, hook_name, success, stdout, stderr, tool_name } => {
                &&& act is Nothing
                &&& (old(app).display.hook_display == HookDisplay::Hidden ==> *final(app) == *old(app))
                &&& (old(app).display.hook_display != HookDisplay::Hidden ==> {
                    &&& final(app).chat.messages@ == old(app).chat.messages@.push(ChatMessage::Hook { event: ev, hook_name, success, stdout, stderr, tool_name })
                    &&& follows(*old(app), *final(app))
                })
            },
            AgentEvent::SkillActivation { skill_name } => {
                &&& act matches EventAction::PersistSkill(n) && n@ == skill_name@
                &&& final(app).chat.messages@ == old(app).chat.messages@.push(ChatMessage::SkillActivation(skill_name))
                &&& exists|i: int| 0 <= i < final(app).active_skills@.len() && (#[trigger] final(app).active_skills@[i])@ == skill_name@
                &&& follows(*old(app), *final(app))
            },
            AgentEvent::NeedsCompaction { reason, retry_user_message, .. } => {
                &&& act == EventAction::Compact { reason, retry_user_message }
                &&& *final(app) == *old(app)
            },
            AgentEvent::Done(Ok(())) => act is RunStopHooks && *final(app) == *old(app),
            AgentEvent::Done(Err(AbortReason::UserCancelled)) | AgentEvent::Done(Err(AbortReason::StreamAborted)) => {
                &&& act is Finish
                &&& pushed_system(old(app).chat.messages@, final(app).chat.messages@, "Cancelled."@)
                &&& follows(*old(app), *final(app))
            },
            AgentEvent::Done(Err(AbortReason::Error(e))) => {
                &&& act is Finish
                &&& pushed_system(old(app).chat.messages@, final(app).chat.messages@, "Agent error: "@ + e@)
                &&& follows(*old(app), *final(app))
            },
        },
{
    match event {
        AgentEvent::Token(token) => {
            if app.modal.state == AppState::ToolExec {
                app.modal.state = AppState::Streaming;
            }
            let n = token.as_str().as_bytes().len();
            push_token(app, token);
            app.chat.follow_unless_pinned();
            EventAction::RecordStreamed(n)
        },
        AgentEvent::ThinkingStart => {
            if app.modal.state == AppState::ToolExec {
                app.modal.state = AppState::Streaming;
            }
            push_message(app, ChatMessage::Thinking(String::new()));
            app.chat.follow_unless_pinned();
            EventAction::Nothing
        },
        AgentEvent::ThinkingEnd => EventAction::Nothing,
        AgentEvent::Reasoning(text) => {
            let n = text.as_str().as_bytes().len();
            push_reasoning(app, text);
            app.chat.follow_unless_pinned();
            EventAction::RecordStreamed(n)
        },
        AgentEvent::ToolCallStart { tool_call_id, tool_name, tool_args } => {
            app.modal.state = AppState::ToolExec;
            push_message(
                app,
                ChatMessage::ToolCall {
                    id: tool_call_id,
                    name: tool_name,
                    args: tool_args,
                    result: None,
                    has_error: false,
                    output: String::new(),
                },
            );
            app.chat.follow_unless_pinned();
            EventAction::Nothing
        },
        AgentEvent::ToolCallDone { tool_call_id, result, has_error, rtk_original } => {
            update_tool_call_result(app, &tool_call_id, result, has_error);
            app.chat.follow_unless_pinned();
            EventAction::PauseTiming
        },
        AgentEvent::ToolOutput(text) => {
            append_tool_output(app, text);
            app.chat.follow_unless_pinned();
            EventAction::Nothing
        },
        AgentEvent::RetryStart { attempt, max_attempts, delay_ms, error } => {
            let mut m = String::from_str("Retrying... (attempt ");
            m.append(decimal_string(attempt as u64 + 1).as_str());
            m.append("/");
            m.append(decimal_string(max_attempts as u64).as_str());
            m.append(", ");
            m.append(decimal_string(delay_ms).as_str());
            m.append("ms delay) — ");
            m.append(error.as_str());
            app.chat.add_system_message(m);
            app.chat.follow_unless_pinned();
            EventAction::Nothing
        },
        AgentEvent::RetryEnd { success, attempt } => {
            let mut m = if success {
                String::from_str("Retry succeeded after ")
            } else {
                String::from_str("Retry failed after ")
            };
            m.append(decimal_string(attempt as u64).as_str());
            m.append(" attempt(s).");
            app.chat.add_system_message(m);
            app.chat.follow_unless_pinned();
            EventAction::Nothing
        },
        AgentEvent::Usage(u) => {
            app.usage.request_input_tokens = u.prompt_tokens;
            app.usage.request_output_tokens = u.completion_tokens;
            app.usage.session_input_tokens = app.usage.session_input_tokens.saturating_add(u.prompt_tokens);
            app.usage.session_output_tokens = app.usage.session_output_tokens.saturating_add(u.completion_tokens);
            EventAction::ApplyProviderUsage(u.completion_tokens)
        },
        AgentEvent::Compaction { tokens_saved, message_count } => {
            push_message(app, ChatMessage::Compaction { tokens_saved, messages_removed: message_count });
            app.chat.follow_unless_pinned();
            EventAction::Nothing
        },
        AgentEvent::CompactionProgress { message } => {
            app.chat.add_system_message(message);
            app.chat.follow_unless_pinned();
            EventAction::Nothing
        },
        AgentEvent::CompactionDone { tokens_before, tokens_after, messages_removed } => {
            let saved = if tokens_before >= tokens_after { tokens_before - tokens_after } else { 0 };
            push_message(app, ChatMessage::Compaction { tokens_saved: saved, messages_removed });
            app.chat.follow_unless_pinned();
            EventAction::Nothing
        },
        AgentEvent::CompactionError { message } => {
            let mut m = String::from_str("Compaction failed: ");
            m.append(message.as_str());
            app.chat.add_system_message(m);
            app.chat.follow_unless_pinned();
            EventAction::Nothing
        },
        AgentEvent::SaveAssistantMessage { content, usage } => {
            if app.has_active_session {
                EventAction::SaveAssistant { content, usage }
            } else {
                EventAction::Nothing
            }
        },
        AgentEvent::SaveToolResult { tool_call_id, tool_name, tool_args, result } => {
            if app.has_active_session {
                EventAction::SaveToolResult { tool_call_id, tool_name, tool_args, result }
            } else {
                EventAction::Nothing
            }
        },
        AgentEvent::HookMessage { event, hook_name, success, stdout, stderr, tool_name } => {
            if app.display.hook_display != HookDisplay::Hidden {
                push_message(app, ChatMessage::Hook { event, hook_name, success, stdout, stderr, tool_name });
                app.chat.follow_unless_pinned();
            }
            EventAction::Nothing
        },
        AgentEvent::SkillActivation { skill_name } => {
            add_active_skill(app, &skill_name);
            let persisted = skill_name.clone();
            push_message(app, ChatMessage::SkillActivation(skill_name));
            app.chat.follow_unless_pinned();
            EventAction::PersistSkill(persisted)
        },
        AgentEvent::NeedsCompaction { reason, retry_user_message, .. } => {
            EventAction::Compact { reason, retry_user_message }
        },
        AgentEvent::Done(Ok(())) => EventAction::RunStopHooks,
        AgentEvent::Done(Err(AbortReason::UserCancelled)) | AgentEvent::Done(Err(AbortReason::StreamAborted)) => {
            app.chat.add_system_message(String::from_str("Cancelled."));
            app.chat.follow_unless_pinned();
            EventAction::Finish
        },
        AgentEvent::Done(Err(AbortReason::Error(e))) => {
            let mut m = String::from_str("Agent error: ");
            m.append(e.as_str());
            app.chat.add_system_message(m);
            app.chat.follow_unless_pinned();
            EventAction::Finish
        },
    }
}

/// Add a skill to the active set (once).
fn add_active_skill(app: &mut App, name: &String)
    ensures
        event_frame(*old(app), *final(app)),
        exists|i: int| 0 <= i < final(app).active_skills@.len() && (#[trigger] final(app).active_skills@[i])@ == name@,
        final(app).chat == old(app).chat,
        final(app).modal == old(app).modal,
        final(app).display == old(app).display,
        final(app).usage == old(app).usage,
{
    let mut i: usize = 0;
    while i < app.active_skills.len()
        invariant
            i <= app.active_skills@.len(),
        decreases app.active_skills@.len() - i,
    {
        if crate::config::str_equal(app.active_skills[i].as_str(), name.as_str()) {
            return;
        }
        i = i + 1;
    }
    app.active_skills.push(name.clone());
    assert(app.active_skills@[app.active_skills@.len() - 1]@ == name@);
}

proof fn lemma_last_call_of(ms: Seq<ChatMessage>, id: Seq<char>, k: int)
    requires
        -1 <= k < ms.len(),
        k >= 0 ==> is_call_of(ms[k], id),
        forall|j: int| k < j < ms.len() ==> !is_call_of(#[trigger] ms[j], id),
    ensures
        last_call_of(ms, id) == (if k >= 0 { Some(k) } else { None::<int> }),
    decreases ms.len(),
{
    if ms.len() > 0 && k < ms.len() - 1 {
        assert(!is_call_of(ms[ms.len() - 1], id));
        lemma_last_call_of(ms.drop_last(), id, k);
    }
}

proof fn lemma_last_tool_call(ms: Seq<ChatMessage>, k: int)
    requires
        -1 <= k < ms.len(),
        k >= 0 ==> ms[k] is ToolCall,
        forall|j: int| k < j < ms.len() ==> !(#[trigger] ms[j] is ToolCall),
    ensures
        last_tool_call(ms) == (if k >= 0 { Some(k) } else { None::<int> }),
    decreases ms.len(),
{
    if ms.len() > 0 && k < ms.len() - 1 {
        assert(!(ms[ms.len() - 1] is ToolCall));
        lemma_last_tool_call(ms.drop_last(), k);
    }
}

/// Record the result of the tool call `id` in its chat entry (the most
/// recent entry of that call); no entry changes when there is none.
fn update_tool_call_result(app: &mut App, id: &String, result: String, has_error: bool)
    ensures
        final(app).chat.messages@ == (match last_call_of(old(app).chat.messages@, id@) {
            Some(k) => old(app).chat.messages@.update(k, with_result(old(app).chat.messages@[k], result, has_error)),
            None => old(app).chat.messages@,
        }),
        event_frame(*old(app), *final(app)),
        final(app).modal == old(app).modal,
        final(app).display == old(app).display,
        final(app).chat.auto_scroll == old(app).chat.auto_scroll,
        final(app).chat.pinned_scroll == old(app).chat.pinned_scroll,
        final(app).usage == old(app).usage,
        final(app).active_skills == old(app).active_skills,
{
    let ghost ms = app.chat.messages@;
    let mut k = app.chat.messages.len();
    while k > 0
        invariant
            k <= ms.len(),
            ms == old(app).chat.messages@,
            *app == *old(app),
            forall|j: int| k <= j < ms.len() ==> !is_call_of(#[trigger] ms[j], id@),
        decreases k,
    {
        k = k - 1;
        let matches_id = match &app.chat.messages[k] {
            ChatMessage::ToolCall { id: tid, .. } => crate::config::str_equal(tid.as_str(), id.as_str()),
            _ => false,
        };
        if matches_id {
            proof {
                lemma_last_call_of(ms, id@, k as int);
            }
            let old_msg = app.chat.messages.remove(k);
            let updated = match old_msg {
                ChatMessage::ToolCall { id: tid, name, args, output, .. } => ChatMessage::ToolCall {
                    id: tid,
                    name,
                    args,
                    result: Some(result),
                    has_error,
                    output,
                },
                other => other,
            };
            app.chat.messages.insert(k, updated);
            assert(app.chat.messages@ =~= ms.update(k as int, with_result(ms[k as int], result, has_error)));
            return;
        }
    }
    proof {
        lemma_last_call_of(ms, id@, -1);
    }
}

/// Append streamed tool output to the most recent tool call entry; no
/// entry changes when there is none.
fn append_tool_output(app: &mut App, text: String)
    ensures
        final(app).chat.messages@.len() == old(app).chat.messages@.len(),
        match last_tool_call(old(app).chat.messages@) {
            Some(k) => {
                &&& forall|j: int|
                    0 <= j < old(app).chat.messages@.len() && j != k ==> #[trigger] final(app).chat.messages@[j]
                        == old(app).chat.messages@[j]
                &&& output_appended(old(app).chat.messages@[k], final(app).chat.messages@[k], text@)
            },
            None => final(app).chat.messages@ == old(app).chat.messages@,
        },
        event_frame(*old(app), *final(app)),
        final(app).modal == old(app).modal,
        final(app).display == old(app).display,
        final(app).chat.auto_scroll == old(app).chat.auto_scroll,
        final(app).chat.pinned_scroll == old(app).chat.pinned_scroll,
        final(app).usage == old(app).usage,
        final(app).active_skills == old(app).active_skills,
{
    let ghost ms = app.chat.messages@;
    let mut k = app.chat.messages.len();
    while k > 0
        invariant
            k <= ms.len(),
            ms == old(app).chat.messages@,
            *app == *old(app),
            forall|j: int| k <= j < ms.len() ==> !(#[trigger] ms[j] is ToolCall),
        decreases k,
    {
        k = k - 1;
        let is_tool = match &app.chat.messages[k] {
            ChatMessage::ToolCall { .. } => true,
            _ => false,
        };
        if is_tool {
            proof {
                lemma_last_tool_call(ms, k as int);
            }
            let old_msg = app.chat.messages.remove(k);
            let updated = match old_msg {
                ChatMessage::ToolCall { id, name, args, result, has_error, mut output } => {
                    output.append(text.as_str());
                    ChatMessage::ToolCall { id, name, args, result, has_error, output }
                },
                other => other,
            };
            app.chat.messages.insert(k, updated);
            assert(app.chat.messages@ =~= ms.update(k as int, updated));
            return;
        }
    }
    proof {
        lemma_last_tool_call(ms, -1);
    }
}

/// Show a hook run (unless hook messages are hidden) and say whether it
/// blocked. The view follows the chat.
pub fn record_hook_run(app: &mut App, event: HookEvent, hook_name: &String, result: &HookResult) -> (blocked: bool)
    ensures
        blocked == (result.exit_code == 2),
        old(app).display.hook_display == HookDisplay::Hidden ==> final(app).chat == old(app).chat,
        old(app).display.hook_display != HookDisplay::Hidden ==> final(app).chat.messages@ == old(app).chat.messages@.push(
            ChatMessage::Hook {
                event,
                hook_name: *hook_name,
                success: result.exit_code == 0,
                stdout: result.stdout,
                stderr: result.stderr,
                tool_name: None,
            },
        ) && final(app).chat.auto_scroll,
        final(app).modal == old(app).modal,
        final(app).display == old(app).display,
{
    if app.display.hook_display != HookDisplay::Hidden {
        push_message(
            app,
            ChatMessage::Hook {
                event,
                hook_name: hook_name.clone(),
                success: result.success(),
                stdout: result.stdout.clone(),
                stderr: result.stderr.clone(),
                tool_name: None,
            },
        );
        app.chat.follow();
    }
    result.blocked()
}

/// A `PreCompact` hook blocked compaction: report it and go idle.
pub fn compaction_blocked(app: &mut App, error: &str)
    ensures
        pushed_system(old(app).chat.messages@, final(app).chat.messages@, "Compaction blocked by hook: "@ + error@),
        follows(*old(app), *final(app)),
        final(app).modal.state == AppState::Idle,
{
    let mut m = String::from_str("Compaction blocked by hook: ");
    m.append(error);
    app.chat.add_system_message(m);
    app.chat.follow_unless_pinned();
    app.modal.state = AppState::Idle;
}

/// A `Stop` hook blocked the end of the turn: report it; the caller
/// restarts the agent with the hook's error as the next user message.
pub fn stop_blocked(app: &mut App, error: &str)
    ensures
        pushed_system(old(app).chat.messages@, final(app).chat.messages@, "Agent blocked from stopping: "@ + error@),
        follows(*old(app), *final(app)),
        final(app).modal.state == old(app).modal.state,
        final(app).modal == old(app).modal,
        final(app).display == old(app).display,
        event_frame(*old(app), *final(app)),
{
    let mut m = String::from_str("Agent blocked from stopping: ");
    m.append(error);
    app.chat.add_system_message(m);
    app.chat.follow_unless_pinned();
}

/// The message shown when the agent restarts after a compaction.
pub fn restart_message(reason: CompactionReason) -> (s: &'static str)
    ensures
        s@ == (match reason {
            CompactionReason::Overflow => "Context overflow recovered. Retrying your message..."@,
            CompactionReason::Threshold => "Context compacted. Continuing task..."@,
        }),
{
    match reason {
        CompactionReason::Overflow => "Context overflow recovered. Retrying your message...",
        CompactionReason::Threshold => "Context compacted. Continuing task...",
    }
}

/// What a key does while the agent works.
pub enum StreamingKeyAction {
    /// Nothing.
    Ignore,
    /// The view scrolled.
    Scrolled,
    /// Abort the background compaction; the turn is over.
    AbortCompaction,
    /// Ask the agent to stop (cooperative cancellation).
    CancelAgent,
}

/// Keys during a turn: PgUp/PgDown scroll; Ctrl+C or Esc abort a pending
/// compaction, or else ask a working agent to stop.
pub fn streaming_key(app: &mut App, key: &crate::keys::KeyEvent, compaction_pending: bool) -> (r: StreamingKeyAction)
    ensures
        key.code == crate::keys::KeyCode::PageUp ==> r is Scrolled,
        key.code == crate::keys::KeyCode::PageDown ==> r is Scrolled,
        key.code != crate::keys::KeyCode::PageUp && key.code != crate::keys::KeyCode::PageDown
            && compaction_pending && (crate::keys::is_ctrl_char(*key, 'c') || key.code == crate::keys::KeyCode::Esc) ==> {
            &&& r is AbortCompaction
            &&& pushed_system(old(app).chat.messages@, final(app).chat.messages@, "Compaction cancelled."@)
            &&& final(app).modal.state == AppState::Idle
            &&& final(app).chat.auto_scroll
        },
        key.code != crate::keys::KeyCode::PageUp && key.code != crate::keys::KeyCode::PageDown
            && !compaction_pending && (crate::keys::is_ctrl_char(*key, 'c') || key.code == crate::keys::KeyCode::Esc)
            && (old(app).modal.state == AppState::Streaming || old(app).modal.state == AppState::ToolExec
            || old(app).modal.state == AppState::Compacting) ==> {
            &&& r is CancelAgent
            &&& pushed_system(old(app).chat.messages@, final(app).chat.messages@, "Cancelling... (press again to force quit)"@)
            &&& final(app).chat.auto_scroll
        },
{
    match key.code {
        crate::keys::KeyCode::PageUp => {
            let page = crate::app::get_chat_visible_height(app);
            app.chat.scroll_up(page);
            return StreamingKeyAction::Scrolled;
        },
        crate::keys::KeyCode::PageDown => {
            let page = crate::app::get_chat_visible_height(app);
            app.chat.scroll_down(page);
            return StreamingKeyAction::Scrolled;
        },
        _ => {},
    }
    let cancel_key = (key.code == crate::keys::KeyCode::Char('c') && key.ctrl) || key.code == crate::keys::KeyCode::Esc;
    if compaction_pending && cancel_key {
        app.chat.add_system_message(String::from_str("Compaction cancelled."));
        app.chat.follow();
        app.modal.state = AppState::Idle;
        return StreamingKeyAction::AbortCompaction;
    }
    if app.is_working() && cancel_key {
        app.chat.add_system_message(String::from_str("Cancelling... (press again to force quit)"));
        app.chat.follow();
        return StreamingKeyAction::CancelAgent;
    }
    StreamingKeyAction::Ignore
}

/// The turn is over (after `Finish`, or after the `Stop` hooks let it
/// stop): back to idle, the view snapping to the bottom unless pinned.
pub fn end_turn(app: &mut App)
    ensures
        final(app).modal == (ModalState { state: AppState::Idle, ..old(app).modal }),
        final(app).chat.messages@ == old(app).chat.messages@,
        follows(*old(app), *final(app)),
        event_frame(*old(app), *final(app)),
        final(app).display == old(app).display,
        final(app).usage == old(app).usage,
        final(app).active_skills == old(app).active_skills,
{
    app.modal.state = AppState::Idle;
    app.chat.follow_unless_pinned();
}

/// The `Stop` hooks ran after a finished turn; `blocked` is the error of
/// the hook that blocked stopping, if one did. Blocked: the error is shown
/// and the agent must start again with it as the user's message (returned),
/// still streaming. Otherwise the turn ends (see [`end_turn`]).
pub fn stop_hooks_done(app: &mut App, blocked: Option<String>) -> (restart: Option<String>)
    ensures
        follows(*old(app), *final(app)),
        event_frame(*old(app), *final(app)),
        final(app).display == old(app).display,
        match blocked {
            Some(e) => {
                &&& restart == Some(e)
                &&& pushed_system(old(app).chat.messages@, final(app).chat.messages@, "Agent blocked from stopping: "@ + e@)
                &&& final(app).modal == (ModalState { state: AppState::Streaming, ..old(app).modal })
            },
            None => {
                &&& restart is None
                &&& final(app).chat.messages@ == old(app).chat.messages@
                &&& final(app).modal == (ModalState { state: AppState::Idle, ..old(app).modal })
            },
        },
{
    match blocked {
        Some(e) => {
            stop_blocked(app, e.as_str());
            app.modal.state = AppState::Streaming;
            Some(e)
        },
        None => {
            end_turn(app);
            None
        },
    }
}

/// The agent asked for compaction: the application shows it compacting
/// until the compaction task ends.
pub fn compaction_started(app: &mut App)
    ensures
        final(app).modal == (ModalState { state: AppState::Compacting, ..old(app).modal }),
        final(app).chat == old(app).chat,
        event_frame(*old(app), *final(app)),
        final(app).display == old(app).display,
{
    app.modal.state = AppState::Compacting;
}

} // verus!

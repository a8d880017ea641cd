//! The decisions of the agent loop: what follows a streaming attempt (a
//! retry, an end of turn, a compaction request, or the response), and what
//! follows a response (end the turn, save it, or run its tool calls). The
//! caller streams, sleeps, runs tools and sends the events.

use vstd::prelude::*;
use crate::agent::{
    accumulate_request_usage, classify_response, non_retryable_error_message, response_kind, retry_decision,
    tool_call_parts, two_pow, AgentResponse, RequestTokenUsage, ResponseKind, RetryDecision, RetryDelay,
};
use crate::agent_events::{AbortReason, AgentEvent, CompactionReason};
use crate::session::{ToolCall, Usage};
use crate::text::decimal;
use vstd::string::StringExecFns;

verus! {

broadcast use vstd::string::group_string_axioms;

/// How one streaming attempt ended.
pub enum StreamOutcome {
    /// A response arrived.
    Response(AgentResponse),
    /// The user cancelled.
    UserCancelled,
    /// The stream was aborted.
    StreamAborted,
    /// The provider reported that the context is too long.
    ContextOverflow,
    /// A transient provider error (network, rate limit, server error), with
    /// its message and the server's `Retry-After` in milliseconds.
    Retryable { message: String, retry_after_ms: Option<u64> },
    /// Any other error, with its message.
    Failed(String),
}

/// What the loop does after a streaming attempt.
pub enum StreamStep {
    /// Send these events (the last is `Done` or `NeedsCompaction`) and end
    /// the turn.
    End(Vec<AgentEvent>),
    /// Announce retry `attempt` of `max_attempts` after `error`, wait the
    /// delay (jittered for a backoff), drop a trailing assistant message
    /// from the context when `pop_assistant`, and stream again.
    Retry { attempt: u32, max_attempts: u32, delay: RetryDelay, error: String, pop_assistant: bool },
    /// Send these events, then handle the response of this kind.
    Proceed { events: Vec<AgentEvent>, response: AgentResponse, kind: ResponseKind },
}

/// The retry limits under which deciding about one more failure needs no
/// more than machine integers.
pub open spec fn retry_fits(retry_count: u32, max_retries: u32, base_delay_ms: u64, retry_after_ms: Option<u64>) -> bool {
    &&& retry_count < u32::MAX
    &&& retry_count + 1 <= max_retries ==> max_retries < u32::MAX
    &&& retry_count + 1 <= max_retries && retry_after_ms is None ==> retry_count < 64 && base_delay_ms
        * two_pow(retry_count as nat) <= u64::MAX
}

/// The step after failure number `retry_count + 1` with `message`: give up
/// (report the failed retries and end the turn with an error) past the
/// limit, else retry after the server's delay or the backoff.
pub open spec fn retry_step_ok(
    retry_count: u32,
    max_retries: u32,
    base_delay_ms: u64,
    retry_after_ms: Option<u64>,
    message: Seq<char>,
    pop_assistant: bool,
    r: (u32, StreamStep),
) -> bool {
    &&& r.0 == retry_count + 1
    &&& r.0 > max_retries ==> {
        &&& r.1 matches StreamStep::End(ev)
        &&& ev@.len() == 2
        &&& ev@[0] == AgentEvent::RetryEnd { success: false, attempt: retry_count }
        &&& ev@[1] matches AgentEvent::Done(Err(AbortReason::Error(m)))
        &&& m@ == "Provider error after "@ + decimal(r.0 as nat) + " retries: "@ + message
    }
    &&& r.0 <= max_retries ==> {
        &&& r.1 matches StreamStep::Retry { attempt, max_attempts, delay, error, pop_assistant: pop }
        &&& attempt == r.0
        &&& max_attempts == max_retries + 1
        &&& error@ == message
        &&& pop == pop_assistant
        &&& delay == (match retry_after_ms {
            Some(ms) => RetryDelay::Server(ms),
            None => RetryDelay::Backoff((base_delay_ms * two_pow(retry_count as nat)) as u64),
        })
    }
}

fn retry_step(
    retry_count: u32,
    max_retries: u32,
    base_delay_ms: u64,
    retry_after_ms: Option<u64>,
    message: String,
    pop_assistant: bool,
) -> (r: (u32, StreamStep))
    requires
        retry_fits(retry_count, max_retries, base_delay_ms, retry_after_ms),
    ensures
        retry_step_ok(retry_count, max_retries, base_delay_ms, retry_after_ms, message@, pop_assistant, r),
{
    let (count, decision) = retry_decision(retry_count, max_retries, base_delay_ms, retry_after_ms, message.as_str());
    match decision {
        RetryDecision::GiveUp { attempt, message: m } => {
            let events = vec![
                AgentEvent::RetryEnd { success: false, attempt },
                AgentEvent::Done(Err(AbortReason::Error(m))),
            ];
            (count, StreamStep::End(events))
        },
        RetryDecision::Wait { attempt, max_attempts, delay } => {
            (count, StreamStep::Retry { attempt, max_attempts, delay, error: message, pop_assistant })
        },
    }
}

/// The step after a streaming attempt, and the retry count that follows.
/// An empty response and a transient error are retried while the policy
/// allows (an empty response is also dropped from the context); a
/// cancellation or abort ends the turn with that reason; a context overflow
/// asks for compaction with the user's message to send again
/// (`context_tokens` is the request's token total); any other error ends
/// the turn with an error. A response after retries is announced as a
/// successful retry, and the count starts again from zero.
pub fn stream_step(
    retry_count: u32,
    max_retries: u32,
    base_delay_ms: u64,
    context_tokens: u32,
    user_message: &str,
    outcome: StreamOutcome,
) -> (r: (u32, StreamStep))
    requires
        outcome matches StreamOutcome::Response(resp) && response_kind(resp.content@) == ResponseKind::Empty
            ==> retry_fits(retry_count, max_retries, base_delay_ms, None),
        outcome matches StreamOutcome::Retryable { retry_after_ms, .. } ==> retry_fits(
            retry_count,
            max_retries,
            base_delay_ms,
            retry_after_ms,
        ),
    ensures
        match outcome {
            StreamOutcome::Response(resp) => if response_kind(resp.content@) == ResponseKind::Empty {
                retry_step_ok(retry_count, max_retries, base_delay_ms, None, "Provider returned empty response"@, true, r)
            } else {
                &&& r.0 == 0
                &&& r.1 matches StreamStep::Proceed { events, response, kind }
                &&& response == resp
                &&& kind == response_kind(resp.content@)
                &&& retry_count > 0 ==> events@ == seq![AgentEvent::RetryEnd { success: true, attempt: retry_count }]
                &&& retry_count == 0 ==> events@.len() == 0
            },
            StreamOutcome::UserCancelled => {
                &&& r.0 == retry_count
                &&& r.1 matches StreamStep::End(ev)
                &&& ev@ == seq![AgentEvent::Done(Err(AbortReason::UserCancelled))]
            },
            StreamOutcome::StreamAborted => {
                &&& r.0 == retry_count
                &&& r.1 matches StreamStep::End(ev)
                &&& ev@ == seq![AgentEvent::Done(Err(AbortReason::StreamAborted))]
            },
            StreamOutcome::ContextOverflow => {
                &&& r.0 == retry_count
                &&& r.1 matches StreamStep::End(ev)
                &&& ev@.len() == 1
                &&& ev@[0] matches AgentEvent::NeedsCompaction { total_tokens, reason, retry_user_message: Some(m) }
                &&& total_tokens == context_tokens
                &&& reason == CompactionReason::Overflow
                &&& m@ == user_message@
            },
            StreamOutcome::Retryable { message, retry_after_ms } => retry_step_ok(
                retry_count,
                max_retries,
                base_delay_ms,
                retry_after_ms,
                message@,
                false,
                r,
            ),
            StreamOutcome::Failed(e) => {
                &&& r.0 == retry_count
                &&& r.1 matches StreamStep::End(ev)
                &&& ev@.len() == 1
                &&& ev@[0] matches AgentEvent::Done(Err(AbortReason::Error(m)))
                &&& m@ == "Error: "@ + e@ + " — try sending your message again."@
            },
        },
{
    match outcome {
        StreamOutcome::Response(resp) => {
            let kind = classify_response(&resp);
            if kind == ResponseKind::Empty {
                let msg = String::from_str("Provider returned empty response");
                return retry_step(retry_count, max_retries, base_delay_ms, None, msg, true);
            }
            let mut events: Vec<AgentEvent> = Vec::new();
            if retry_count > 0 {
                events.push(AgentEvent::RetryEnd { success: true, attempt: retry_count });
            }
            (0, StreamStep::Proceed { events, response: resp, kind })
        },
        StreamOutcome::UserCancelled => (retry_count, StreamStep::End(vec![AgentEvent::Done(Err(AbortReason::UserCancelled))])),
        StreamOutcome::StreamAborted => (retry_count, StreamStep::End(vec![AgentEvent::Done(Err(AbortReason::StreamAborted))])),
        StreamOutcome::ContextOverflow => {
            let ev = AgentEvent::NeedsCompaction {
                total_tokens: context_tokens,
                reason: CompactionReason::Overflow,
                retry_user_message: Some(String::from_str(user_message)),
            };
            (retry_count, StreamStep::End(vec![ev]))
        },
        StreamOutcome::Retryable { message, retry_after_ms } => {
            retry_step(retry_count, max_retries, base_delay_ms, retry_after_ms, message, false)
        },
        StreamOutcome::Failed(e) => {
            let m = non_retryable_error_message(e.as_str());
            (retry_count, StreamStep::End(vec![AgentEvent::Done(Err(AbortReason::Error(m)))]))
        },
    }
}

/// What the loop does with a response.
pub enum ResponseStep {
    /// Send these events and end the turn.
    End(Vec<AgentEvent>),
    /// Send these events, then run these tool calls in order.
    RunTools { events: Vec<AgentEvent>, tool_calls: Vec<ToolCall> },
}

/// The usage event of a response, when it has a usage report.
pub open spec fn usage_events(u: Option<Usage>) -> Seq<AgentEvent> {
    match u {
        Some(x) => seq![AgentEvent::Usage(x)],
        None => Seq::empty(),
    }
}

/// The request's token counts after a response (unchanged without a usage
/// report).
pub open spec fn usage_after(current: RequestTokenUsage, u: Option<Usage>) -> RequestTokenUsage {
    match u {
        Some(x) => RequestTokenUsage {
            input_tokens: if current.input_tokens >= x.prompt_tokens { current.input_tokens } else { x.prompt_tokens },
            output_tokens: if current.output_tokens >= x.completion_tokens { current.output_tokens } else { x.completion_tokens },
            estimated: false,
        },
        None => current,
    }
}

/// The step after a non-empty response of kind `kind`: a reasoning-only
/// response reports its usage and ends the turn unsaved (the counts stay);
/// a final response folds and reports its usage, is saved, and ends the
/// turn; a response with tool calls folds and reports its usage and has its
/// calls run.
pub fn response_step(current: RequestTokenUsage, resp: AgentResponse, kind: ResponseKind) -> (r: (RequestTokenUsage, ResponseStep))
    requires
        kind == response_kind(resp.content@),
        kind != ResponseKind::Empty,
    ensures
        kind == ResponseKind::ReasoningOnly ==> {
            &&& r.0 == current
            &&& r.1 matches ResponseStep::End(ev)
            &&& ev@ == usage_events(resp.usage).push(AgentEvent::Done(Ok(())))
        },
        kind == ResponseKind::Final ==> {
            &&& r.0 == usage_after(current, resp.usage)
            &&& r.1 matches ResponseStep::End(ev)
            &&& ev@ == usage_events(resp.usage).push(
                AgentEvent::SaveAssistantMessage { content: resp.content, usage: resp.usage },
            ).push(AgentEvent::Done(Ok(())))
        },
        kind == ResponseKind::ToolCalls ==> {
            &&& r.0 == usage_after(current, resp.usage)
            &&& r.1 matches ResponseStep::RunTools { events, tool_calls }
            &&& events@ == usage_events(resp.usage)
            &&& tool_calls@ == tool_call_parts(resp.content@)
        },
{
    let mut events: Vec<AgentEvent> = Vec::new();
    match resp.usage {
        Some(u) => events.push(AgentEvent::Usage(u)),
        None => {},
    }
    assert(events@ == usage_events(resp.usage));
    if kind == ResponseKind::ReasoningOnly {
        events.push(AgentEvent::Done(Ok(())));
        return (current, ResponseStep::End(events));
    }
    let usage = match resp.usage {
        Some(u) => accumulate_request_usage(current, &u),
        None => current,
    };
    if kind == ResponseKind::Final {
        let AgentResponse { content, usage: u } = resp;
        events.push(AgentEvent::SaveAssistantMessage { content, usage: u });
        events.push(AgentEvent::Done(Ok(())));
        return (usage, ResponseStep::End(events));
    }
    let tool_calls = resp.tool_calls();
    (usage, ResponseStep::RunTools { events, tool_calls })
}

} // verus!

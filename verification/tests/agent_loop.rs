use respondami::agent::{AgentResponse, RequestTokenUsage, ResponseKind, RetryDelay};
use respondami::agent_events::{AbortReason, AgentEvent, CompactionReason};
use respondami::agent_loop::{response_step, stream_step, ResponseStep, StreamOutcome, StreamStep};
use respondami::session::{ContentBlock, ToolCall, Usage};

fn text_response(t: &str, usage: Option<Usage>) -> AgentResponse {
    AgentResponse { content: vec![ContentBlock::Text { text: t.to_string() }], usage }
}

fn no_usage() -> RequestTokenUsage {
    RequestTokenUsage { input_tokens: 0, output_tokens: 0, estimated: true }
}

#[test]
fn empty_response_is_retried_with_backoff() {
    let empty = AgentResponse { content: Vec::new(), usage: None };
    let (count, step) = stream_step(0, 3, 2000, 0, "hi", StreamOutcome::Response(empty));
    assert_eq!(count, 1);
    match step {
        StreamStep::Retry { attempt, max_attempts, delay, error, pop_assistant } => {
            assert_eq!(attempt, 1);
            assert_eq!(max_attempts, 4);
            assert_eq!(delay, RetryDelay::Backoff(2000));
            assert_eq!(error, "Provider returned empty response");
            assert!(pop_assistant);
        }
        _ => panic!("expected a retry"),
    }
}

#[test]
fn backoff_doubles_with_each_retry() {
    let empty = AgentResponse { content: Vec::new(), usage: None };
    let (count, step) = stream_step(2, 3, 2000, 0, "hi", StreamOutcome::Response(empty));
    assert_eq!(count, 3);
    assert!(matches!(step, StreamStep::Retry { delay: RetryDelay::Backoff(8000), attempt: 3, .. }));
}

#[test]
fn retries_run_out() {
    let empty = AgentResponse { content: Vec::new(), usage: None };
    let (count, step) = stream_step(3, 3, 2000, 0, "hi", StreamOutcome::Response(empty));
    assert_eq!(count, 4);
    match step {
        StreamStep::End(events) => {
            assert_eq!(events.len(), 2);
            assert!(matches!(events[0], AgentEvent::RetryEnd { success: false, attempt: 3 }));
            assert!(matches!(&events[1], AgentEvent::Done(Err(AbortReason::Error(m)))
                if m == "Provider error after 4 retries: Provider returned empty response"));
        }
        _ => panic!("expected the end of the turn"),
    }
}

#[test]
fn response_after_retries_is_announced() {
    let (count, step) = stream_step(2, 3, 2000, 0, "hi", StreamOutcome::Response(text_response("ok", None)));
    assert_eq!(count, 0);
    match step {
        StreamStep::Proceed { events, kind, .. } => {
            assert_eq!(kind, ResponseKind::Final);
            assert_eq!(events.len(), 1);
            assert!(matches!(events[0], AgentEvent::RetryEnd { success: true, attempt: 2 }));
        }
        _ => panic!("expected to proceed"),
    }
}

#[test]
fn server_delay_is_used_for_transient_errors() {
    let outcome = StreamOutcome::Retryable { message: "429".to_string(), retry_after_ms: Some(5000) };
    let (count, step) = stream_step(0, 3, 2000, 0, "hi", outcome);
    assert_eq!(count, 1);
    assert!(matches!(step, StreamStep::Retry { delay: RetryDelay::Server(5000), pop_assistant: false, .. }));
}

#[test]
fn context_overflow_asks_for_compaction() {
    let (count, step) = stream_step(1, 3, 2000, 900, "hi", StreamOutcome::ContextOverflow);
    assert_eq!(count, 1);
    match step {
        StreamStep::End(events) => {
            assert!(matches!(&events[0], AgentEvent::NeedsCompaction {
                total_tokens: 900,
                reason: CompactionReason::Overflow,
                retry_user_message: Some(m),
            } if m == "hi"));
        }
        _ => panic!("expected the end of the turn"),
    }
}

#[test]
fn cancellation_and_other_errors_end_the_turn() {
    let (_, step) = stream_step(0, 3, 2000, 0, "hi", StreamOutcome::UserCancelled);
    assert!(matches!(step, StreamStep::End(ev) if matches!(ev[0], AgentEvent::Done(Err(AbortReason::UserCancelled)))));
    let (_, step) = stream_step(0, 3, 2000, 0, "hi", StreamOutcome::Failed("boom".to_string()));
    match step {
        StreamStep::End(events) => assert!(matches!(&events[0], AgentEvent::Done(Err(AbortReason::Error(m)))
            if m == "Error: boom — try sending your message again.")),
        _ => panic!("expected the end of the turn"),
    }
}

#[test]
fn final_response_is_saved_and_ends_the_turn() {
    let usage = Usage { prompt_tokens: 50, completion_tokens: 7, total_tokens: 57 };
    let (counts, step) = response_step(no_usage(), text_response("done", Some(usage)), ResponseKind::Final);
    assert_eq!(counts, RequestTokenUsage { input_tokens: 50, output_tokens: 7, estimated: false });
    match step {
        ResponseStep::End(events) => {
            assert_eq!(events.len(), 3);
            assert!(matches!(events[0], AgentEvent::Usage(u) if u == usage));
            assert!(matches!(&events[1], AgentEvent::SaveAssistantMessage { content, .. } if content.len() == 1));
            assert!(matches!(events[2], AgentEvent::Done(Ok(()))));
        }
        _ => panic!("expected the end of the turn"),
    }
}

#[test]
fn reasoning_only_response_is_not_saved() {
    let resp = AgentResponse {
        content: vec![ContentBlock::Thinking { thinking: "hmm".to_string() }, ContentBlock::Text { text: "  ".to_string() }],
        usage: None,
    };
    let (counts, step) = response_step(no_usage(), resp, ResponseKind::ReasoningOnly);
    assert_eq!(counts, no_usage());
    assert!(matches!(step, ResponseStep::End(ev) if ev.len() == 1 && matches!(ev[0], AgentEvent::Done(Ok(())))));
}

#[test]
fn tool_calls_are_run() {
    let tc = ToolCall { id: "c1".to_string(), name: "read".to_string(), arguments: "{}".to_string() };
    let resp = AgentResponse {
        content: vec![ContentBlock::Text { text: "reading".to_string() }, ContentBlock::ToolCall { tool_call: tc }],
        usage: None,
    };
    let (_, step) = response_step(no_usage(), resp, ResponseKind::ToolCalls);
    match step {
        ResponseStep::RunTools { events, tool_calls } => {
            assert!(events.is_empty());
            assert_eq!(tool_calls.len(), 1);
            assert_eq!(tool_calls[0].name, "read");
        }
        _ => panic!("expected tool calls"),
    }
}

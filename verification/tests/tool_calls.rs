use respondami::agent::{AgentResponse, SkillFile};
use respondami::agent_events::{AbortReason, AgentEvent, CompactionReason};
use respondami::session::{AgentMessage, ContentBlock, ToolCall};
use respondami::tool_calls::{
    blocked_call, finished_call, loop_top_step, route_tool_call, skill_call, tool_call_start_event, ToolCallRoute,
};

fn call(name: &str, args: &str) -> ToolCall {
    ToolCall { id: "c1".to_string(), name: name.to_string(), arguments: args.to_string() }
}

#[test]
fn loop_top_cancels_then_compacts() {
    let ev = loop_top_step(true, true, 10).unwrap();
    assert!(matches!(ev[0], AgentEvent::Done(Err(AbortReason::UserCancelled))));
    let ev = loop_top_step(false, true, 1234).unwrap();
    match &ev[0] {
        AgentEvent::NeedsCompaction { total_tokens, reason, retry_user_message } => {
            assert_eq!(*total_tokens, 1234);
            assert_eq!(*reason, CompactionReason::Threshold);
            assert_eq!(retry_user_message.as_deref(), Some("Continue the current task from where you left off."));
        }
        _ => panic!("expected a compaction request"),
    }
    assert!(loop_top_step(false, false, 0).is_none());
}

#[test]
fn routes_skill_calls_and_cancellation() {
    assert!(matches!(route_tool_call(false, &call("activate_skill", "{}")), ToolCallRoute::Skill));
    assert!(matches!(route_tool_call(false, &call("read", "{}")), ToolCallRoute::Run));
    assert!(matches!(route_tool_call(true, &call("read", "{}")), ToolCallRoute::Cancel(_)));
}

#[test]
fn blocked_call_events_in_order() {
    let tc = call("bash", "{\"command\":\"rm\"}");
    let r = blocked_call(&tc, "no");
    assert_eq!(r.events.len(), 4);
    assert!(matches!(&r.events[0], AgentEvent::ToolCallStart { tool_call_id, .. } if tool_call_id == "c1"));
    assert!(matches!(&r.events[1], AgentEvent::ToolCallDone { result, has_error: true, .. } if result == "Tool call blocked by hook: no"));
    assert!(matches!(&r.events[2], AgentEvent::SaveAssistantMessage { usage: None, .. }));
    assert!(matches!(&r.events[3], AgentEvent::SaveToolResult { result, .. } if result == "Tool call blocked by hook: no"));
    assert_eq!(r.context.len(), 2);
    assert!(matches!(&r.context[1].0, AgentMessage::Tool { result, .. } if result == "Tool call blocked by hook: no"));
    assert!(matches!(tool_call_start_event(&tc), AgentEvent::ToolCallStart { .. }));
}

#[test]
fn skill_call_without_a_name() {
    let (r, name) = skill_call(&call("activate_skill", "{}"), SkillFile::NotListed);
    assert!(name.is_none());
    assert!(matches!(&r.events[0], AgentEvent::SkillActivation { skill_name } if skill_name == "unknown"));
    assert!(matches!(&r.events[2], AgentEvent::SaveToolResult { result, .. } if result == "Error: skill name is required"));
}

#[test]
fn skill_call_with_a_name() {
    let (r, name) = skill_call(&call("activate_skill", "{\"name\":\"refine\"}"), SkillFile::NotListed);
    assert_eq!(name.as_deref(), Some("refine"));
    assert!(matches!(&r.events[0], AgentEvent::SkillActivation { skill_name } if skill_name == "refine"));
    assert!(matches!(&r.context[1].0, AgentMessage::Tool { result, .. } if result == "Skill 'refine' activated."));
}

#[test]
fn finished_first_call_saves_the_response_blocks_and_hook_instructions() {
    let tc = call("read", "{}");
    let response = AgentResponse {
        content: vec![ContentBlock::Text { text: "reading".to_string() }, ContentBlock::ToolCall { tool_call: tc.duplicate() }],
        usage: None,
    };
    let r = finished_call(&tc, &response, true, Ok("file".to_string()), None, "\n\n[PostToolUse hook 'x': ok]");
    assert!(matches!(&r.events[0], AgentEvent::ToolCallDone { result, has_error: false, .. } if result == "file"));
    match &r.events[1] {
        AgentEvent::SaveAssistantMessage { content, .. } => assert_eq!(content.len(), 3),
        _ => panic!("expected the saved assistant message"),
    }
    assert_eq!(r.context.len(), 4);
    assert!(r.context[2].1 && r.context[3].1);
    assert!(matches!(&r.context[3].0, AgentMessage::Tool { result, .. } if result == "[PostToolUse hook 'x': ok]"));
    let later = finished_call(&tc, &response, false, Err("boom".to_string()), None, "");
    assert!(matches!(&later.events[0], AgentEvent::ToolCallDone { has_error: true, .. }));
    assert_eq!(later.context.len(), 2);
}

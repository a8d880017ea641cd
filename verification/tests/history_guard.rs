use respondami::history_guard::{message_digest, HistoryGuard, HistoryViolation, MessageDigest};
use respondami::session::{AgentMessage, ContentBlock, ToolCall, Usage};

fn assistant_with(text: &str, usage: bool) -> AgentMessage {
    AgentMessage::assistant_with_blocks(
        vec![ContentBlock::Text { text: text.to_string() }],
        if usage {
            Some(Usage { prompt_tokens: 10, completion_tokens: 5, total_tokens: 15 })
        } else {
            None
        },
    )
}

fn user(msg: &str) -> AgentMessage {
    AgentMessage::user(msg.to_string())
}

fn system(content: &str) -> AgentMessage {
    AgentMessage::system(content.to_string())
}

fn tool_result(id: &str, result: &str) -> AgentMessage {
    AgentMessage::tool(id.to_string(), "read".to_string(), "{}".to_string(), result.to_string())
}

fn digests(msgs: &[AgentMessage]) -> Vec<Option<MessageDigest>> {
    msgs.iter().map(|m| Some(message_digest(m))).collect()
}

fn read_call(id: &str) -> ToolCall {
    ToolCall {
        id: id.to_string(),
        name: "read".to_string(),
        arguments: "{\"path\":\"src/main.rs\"}".to_string(),
    }
}

#[test]
fn digest_identical_messages_match() {
    let a = user("hello");
    let b = user("hello");
    assert_eq!(message_digest(&a), message_digest(&b));
}

#[test]
fn digest_differs_when_content_changes() {
    let a = user("hello");
    let b = user("world");
    assert_ne!(message_digest(&a), message_digest(&b));
}

#[test]
fn digest_usage_is_stripped_from_assistant_messages() {
    let with_usage = assistant_with("result", true);
    let without_usage = assistant_with("result", false);
    assert_eq!(message_digest(&with_usage), message_digest(&without_usage));
}

#[test]
fn digest_differs_when_assistant_content_changes() {
    let a = assistant_with("result", true);
    let b = assistant_with("different", true);
    assert_ne!(message_digest(&a), message_digest(&b));
}

#[test]
fn digest_fnv1a_known_value() {
    assert_eq!(MessageDigest::from_bytes(b"").to_hex_string(), "0xcbf29ce484222325");
    assert_eq!(MessageDigest::from_bytes(b"a").to_hex_string(), "0xaf63dc4c8601ec8c");
}

#[test]
fn guard_first_request_is_always_ok() {
    let mut guard = HistoryGuard::new();
    let first = digests(&[user("q1")]);
    assert!(guard.check_and_update(&first).is_none());
}

#[test]
fn guard_pure_append_is_ok() {
    let mut guard = HistoryGuard::new();
    let req1 = digests(&[user("q1"), assistant_with("a1", false), tool_result("t1", "r1")]);
    assert!(guard.check_and_update(&req1).is_none());
    let mut req2 = req1.clone();
    req2.push(Some(message_digest(&assistant_with("a2", false))));
    req2.push(Some(message_digest(&user("q2"))));
    assert!(guard.check_and_update(&req2).is_none());
}

#[test]
fn guard_identical_resend_is_ok_retry() {
    let mut guard = HistoryGuard::new();
    let req1 = digests(&[user("q1"), assistant_with("a1", false)]);
    assert!(guard.check_and_update(&req1).is_none());
    assert!(guard.check_and_update(&req1).is_none(), "identical resend is a retry, not a violation");
}

#[test]
fn guard_mid_list_divergence_is_violation() {
    let mut guard = HistoryGuard::new();
    let req1 = digests(&[user("q1"), assistant_with("a1", false)]);
    assert!(guard.check_and_update(&req1).is_none());
    let req2 = digests(&[user("q1"), assistant_with("a1-REWRITTEN", false)]);
    let violation = guard.check_and_update(&req2);
    assert!(violation.is_some(), "mid-list divergence must be a violation");
    let v = violation.unwrap();
    assert!(!v.shrank);
    assert_eq!(v.index, 1, "divergence reported at the second message");
    assert_ne!(v.previous, v.current);
}

#[test]
fn guard_prefix_replaced_is_violation_at_index_zero() {
    let mut guard = HistoryGuard::new();
    let req1 = digests(&[system("v1"), user("q1")]);
    assert!(guard.check_and_update(&req1).is_none());
    let req2 = digests(&[system("v2-changed"), user("q1")]);
    let v = guard.check_and_update(&req2).unwrap();
    assert_eq!(v.index, 0);
}

#[test]
fn guard_shrink_is_violation() {
    let mut guard = HistoryGuard::new();
    let req1 = digests(&[user("q1"), assistant_with("a1", false), tool_result("t1", "r1")]);
    assert!(guard.check_and_update(&req1).is_none());
    let req2 = digests(&[user("q1")]);
    let v = guard.check_and_update(&req2).unwrap();
    assert!(v.shrank, "shrink must be reported as a violation");
    assert_eq!(v.index, 1);
}

#[test]
fn guard_reset_clears_baseline() {
    let mut guard = HistoryGuard::new();
    let req1 = digests(&[user("q1"), assistant_with("a1", false)]);
    assert!(guard.check_and_update(&req1).is_none());
    guard.reset();
    let fresh = digests(&[user("totally-new")]);
    assert!(guard.check_and_update(&fresh).is_none());
}

#[test]
fn guard_ephemeral_entries_are_skipped() {
    let mut guard = HistoryGuard::new();
    let persisted = Some(message_digest(&user("q1")));
    let prev: Vec<Option<MessageDigest>> = vec![persisted, None, None];
    assert!(guard.check_and_update(&prev).is_none());
    let current: Vec<Option<MessageDigest>> = vec![persisted, None, Some(message_digest(&user("q2")))];
    assert!(
        guard.check_and_update(&current).is_none(),
        "ephemeral (None) entries must not cause false positives"
    );
}

#[test]
fn guard_ephemeral_replacement_is_not_a_violation() {
    let mut guard = HistoryGuard::new();
    let base = Some(message_digest(&assistant_with("a1", false)));
    let hook_turn_1: Vec<Option<MessageDigest>> = vec![base, None, None];
    assert!(guard.check_and_update(&hook_turn_1).is_none());
    let hook_turn_2: Vec<Option<MessageDigest>> = vec![base, None, None];
    assert!(guard.check_and_update(&hook_turn_2).is_none());
}

#[test]
fn guard_divergence_among_persisted_still_detected_with_ephemeral_present() {
    let mut guard = HistoryGuard::new();
    let req1: Vec<Option<MessageDigest>> = vec![
        Some(message_digest(&user("q1"))),
        None,
        Some(message_digest(&assistant_with("a1", false))),
    ];
    assert!(guard.check_and_update(&req1).is_none());
    let req2: Vec<Option<MessageDigest>> = vec![
        Some(message_digest(&user("q1"))),
        None,
        Some(message_digest(&assistant_with("a1-CHANGED", false))),
    ];
    let v = guard.check_and_update(&req2).unwrap();
    assert!(!v.shrank);
    assert_eq!(v.index, 2, "reported at the raw index of the changed message");
}

#[test]
fn guard_live_vs_resume_divergence() {
    let live: Vec<Option<MessageDigest>> = vec![
        Some(message_digest(&system("sys"))),
        Some(message_digest(&user("q1"))),
        Some(message_digest(&AgentMessage::assistant_with_blocks(
            vec![ContentBlock::ToolCall { tool_call: read_call("t1") }],
            None,
        ))),
        Some(message_digest(&tool_result("t1", "file contents"))),
    ];
    let mut guard = HistoryGuard::new();
    assert!(guard.check_and_update(&live).is_none());
    let resumed: Vec<Option<MessageDigest>> = vec![
        Some(message_digest(&system("sys"))),
        Some(message_digest(&user("q1"))),
        Some(message_digest(&AgentMessage::assistant_with_blocks(
            vec![
                ContentBlock::Thinking { thinking: "thinking...".to_string() },
                ContentBlock::Text { text: "reading the file".to_string() },
                ContentBlock::ToolCall { tool_call: read_call("t1") },
            ],
            Some(Usage { prompt_tokens: 100, completion_tokens: 20, total_tokens: 120 }),
        ))),
        Some(message_digest(&tool_result("t1", "file contents"))),
    ];
    let v = guard.check_and_update(&resumed).unwrap();
    assert_eq!(v.index, 2, "divergence at the assistant message position");
}

#[test]
fn guard_canonical_shape_is_silent() {
    let make = || {
        AgentMessage::assistant_with_blocks(
            vec![
                ContentBlock::Thinking { thinking: "thinking...".to_string() },
                ContentBlock::Text { text: "reading the file".to_string() },
                ContentBlock::ToolCall { tool_call: read_call("t1") },
            ],
            Some(Usage { prompt_tokens: 100, completion_tokens: 20, total_tokens: 120 }),
        )
    };
    let canonical_assistant = make();
    let same = make();
    assert_eq!(message_digest(&canonical_assistant), message_digest(&same));
    let mut guard = HistoryGuard::new();
    let first: Vec<Option<MessageDigest>> = vec![
        Some(message_digest(&system("sys"))),
        Some(message_digest(&user("q1"))),
        Some(message_digest(&canonical_assistant)),
    ];
    assert!(guard.check_and_update(&first).is_none());
    let second: Vec<Option<MessageDigest>> = vec![
        Some(message_digest(&system("sys"))),
        Some(message_digest(&user("q1"))),
        Some(message_digest(&same)),
        Some(message_digest(&tool_result("t1", "file contents"))),
    ];
    assert!(guard.check_and_update(&second).is_none(), "byte-identical prefix must be silent");
}

// Own tests.

#[test]
fn digest_wire_form_ignores_usage_but_not_blocks_order() {
    let a = AgentMessage::assistant_with_blocks(
        vec![
            ContentBlock::Text { text: "x".to_string() },
            ContentBlock::Thinking { thinking: "t".to_string() },
        ],
        None,
    );
    let b = AgentMessage::assistant_with_blocks(
        vec![
            ContentBlock::Thinking { thinking: "t".to_string() },
            ContentBlock::Text { text: "x".to_string() },
        ],
        None,
    );
    assert_ne!(message_digest(&a), message_digest(&b));
}

#[test]
fn guard_prepend_is_violation_at_zero() {
    let mut guard = HistoryGuard::new();
    let req1 = digests(&[user("q1")]);
    assert!(guard.check_and_update(&req1).is_none());
    let req2 = digests(&[user("q0"), user("q1")]);
    let v = guard.check_and_update(&req2).unwrap();
    assert_eq!(v.index, 0);
    assert!(!v.shrank);
}

#[test]
fn guard_shrink_to_empty_reports_length() {
    let mut guard = HistoryGuard::new();
    let req1 = digests(&[user("q1")]);
    assert!(guard.check_and_update(&req1).is_none());
    let v = guard.check_and_update(&[]).unwrap();
    assert!(v.shrank);
    assert_eq!(v.index, 0);
    assert_eq!(v.current, None);
}

#[test]
fn violation_report_text_for_shrink_and_divergence() {
    let shrank = HistoryViolation {
        index: 2,
        shrank: true,
        previous: Some(MessageDigest(0x1f)),
        current: None,
    };
    assert_eq!(
        shrank.to_display_string(),
        "history shrank at message 2 (previous digest 0x000000000000001f)"
    );
    let diverged = HistoryViolation {
        index: 10,
        shrank: false,
        previous: None,
        current: Some(MessageDigest(0xabcdef0123456789)),
    };
    assert_eq!(
        diverged.to_display_string(),
        "history diverged at message 10 (previous digest -, current digest 0xabcdef0123456789)"
    );
}

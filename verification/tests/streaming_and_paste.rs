use respondami::app::{paste_into_input, sanitize_paste, App, MAX_PASTE_CHARS};
use respondami::config::Config;
use respondami::session::{message_wire_json, AgentMessage, ContentBlock, Usage};
use respondami::streaming::{
    accumulate_tool_call, apply_chunk, apply_chunks, finish_stream, ChatChunk, PartialToolCall, StreamSignal, StreamState,
    ToolCallDelta,
};

fn delta(index: usize, id: Option<&str>, name: Option<&str>, args: &str) -> ToolCallDelta {
    ToolCallDelta {
        index,
        id: id.map(str::to_string),
        name: name.map(str::to_string),
        arguments: args.to_string(),
    }
}

// ─── Tool call fragments ───

#[test]
fn tool_call_fragments_accumulate_by_index() {
    let mut pending: Vec<PartialToolCall> = Vec::new();
    accumulate_tool_call(&mut pending, delta(0, Some("call_1"), Some("read"), "{\"pa"));
    accumulate_tool_call(&mut pending, delta(1, Some("call_2"), Some("bash"), "{}"));
    accumulate_tool_call(&mut pending, delta(0, None, None, "th\":1}"));
    assert_eq!(pending.len(), 2);
    assert_eq!(pending[0].id, "call_1");
    assert_eq!(pending[0].name, "read");
    assert_eq!(pending[0].arguments, "{\"path\":1}");
    assert_eq!(pending[1].name, "bash");
}

#[test]
fn tool_call_fragment_without_id_starts_empty() {
    let mut pending: Vec<PartialToolCall> = Vec::new();
    accumulate_tool_call(&mut pending, delta(3, None, None, "x"));
    assert_eq!(pending.len(), 1);
    assert_eq!(pending[0].index, 3);
    assert!(pending[0].id.is_empty());
    assert!(pending[0].name.is_empty());
}

// ─── Chunks ───

#[test]
fn content_chunks_grow_one_text_block() {
    let mut state = StreamState::new();
    let sig = apply_chunk(&mut state, ChatChunk::Content("Hel".to_string()));
    assert!(matches!(sig, StreamSignal::Token(t) if t == "Hel"));
    apply_chunk(&mut state, ChatChunk::Content("lo".to_string()));
    assert_eq!(state.blocks.len(), 1);
    assert!(matches!(&state.blocks[0], ContentBlock::Text { text } if text == "Hello"));
}

#[test]
fn thinking_opens_a_block_and_reasoning_fills_it() {
    let mut state = StreamState::new();
    assert!(matches!(apply_chunk(&mut state, ChatChunk::Thinking(true)), StreamSignal::ThinkingStart));
    assert!(state.in_thinking);
    assert!(matches!(apply_chunk(&mut state, ChatChunk::Thinking(true)), StreamSignal::Nothing));
    apply_chunk(&mut state, ChatChunk::Reasoning("plan".to_string()));
    assert!(matches!(apply_chunk(&mut state, ChatChunk::Thinking(false)), StreamSignal::ThinkingEnd));
    assert_eq!(state.blocks.len(), 1);
    assert!(matches!(&state.blocks[0], ContentBlock::Thinking { thinking } if thinking == "plan"));
    apply_chunk(&mut state, ChatChunk::Content("answer".to_string()));
    assert_eq!(state.blocks.len(), 2);
}

#[test]
fn visible_text_is_the_content_chunks_in_order() {
    let mut state = StreamState::new();
    let chunks = vec![
        ChatChunk::Content("One ".to_string()),
        ChatChunk::Thinking(true),
        ChatChunk::Reasoning("hmm".to_string()),
        ChatChunk::Thinking(false),
        ChatChunk::Content("two ".to_string()),
        ChatChunk::Content("three".to_string()),
    ];
    let mut tokens = Vec::new();
    for chunk in chunks {
        if let StreamSignal::Token(t) = apply_chunk(&mut state, chunk) {
            tokens.push(t);
        }
    }
    assert_eq!(tokens, vec!["One ", "two ", "three"]);
    let visible: String = state
        .blocks
        .iter()
        .filter_map(|b| match b {
            ContentBlock::Text { text } => Some(text.as_str()),
            _ => None,
        })
        .collect();
    assert_eq!(visible, "One two three");
}

#[test]
fn usage_chunk_is_kept() {
    let mut state = StreamState::new();
    let u = Usage { prompt_tokens: 10, completion_tokens: 5, total_tokens: 15 };
    assert!(matches!(apply_chunk(&mut state, ChatChunk::Usage(u)), StreamSignal::Nothing));
    assert_eq!(state.usage, Some(u));
}

// ─── Finishing ───

#[test]
fn finish_reformats_arguments_and_drops_unparsable_calls() {
    let mut state = StreamState::new();
    apply_chunk(&mut state, ChatChunk::Content("ok".to_string()));
    apply_chunk(&mut state, ChatChunk::ToolCall(delta(0, Some("a"), Some("read"), "{\"path\": \"x\"}")));
    apply_chunk(&mut state, ChatChunk::ToolCall(delta(1, Some("b"), Some("bash"), "   ")));
    apply_chunk(&mut state, ChatChunk::ToolCall(delta(2, Some("c"), Some("edit"), "{not json")));
    let (resp, open) = finish_stream(state, "prompt");
    assert!(!open);
    assert_eq!(resp.content.len(), 3);
    match &resp.content[1] {
        ContentBlock::ToolCall { tool_call } => {
            assert_eq!(tool_call.name, "read");
            assert_eq!(tool_call.arguments, "{\"path\":\"x\"}");
        }
        _ => panic!("expected a tool call"),
    }
    match &resp.content[2] {
        ContentBlock::ToolCall { tool_call } => {
            assert_eq!(tool_call.name, "bash");
            assert_eq!(tool_call.arguments, "{}");
        }
        _ => panic!("expected a tool call"),
    }
}

#[test]
fn finish_drops_empty_thinking_and_estimates_usage() {
    let mut state = StreamState::new();
    apply_chunk(&mut state, ChatChunk::Thinking(true));
    apply_chunk(&mut state, ChatChunk::Content("abcdefgh".to_string()));
    let (resp, open) = finish_stream(state, "12345");
    assert!(open);
    assert_eq!(resp.content.len(), 1);
    assert!(matches!(&resp.content[0], ContentBlock::Text { text } if text == "abcdefgh"));
    assert_eq!(resp.usage, Some(Usage { prompt_tokens: 2, completion_tokens: 2, total_tokens: 4 }));
}

#[test]
fn finish_keeps_reported_usage() {
    let mut state = StreamState::new();
    let u = Usage { prompt_tokens: 100, completion_tokens: 7, total_tokens: 107 };
    apply_chunk(&mut state, ChatChunk::Usage(u));
    let (resp, _) = finish_stream(state, "ignored");
    assert_eq!(resp.usage, Some(u));
}

// ─── Paste ───

#[test]
fn paste_drops_control_characters_but_keeps_newlines() {
    let chars = sanitize_paste("a\tb\nc\u{7}d\u{9b}e");
    assert_eq!(chars.into_iter().collect::<String>(), "ab\ncde");
}

#[test]
fn paste_is_capped() {
    let long = "x".repeat(MAX_PASTE_CHARS + 50);
    assert_eq!(sanitize_paste(&long).len(), MAX_PASTE_CHARS);
}

#[test]
fn paste_inserts_at_the_cursor() {
    let config = Config::default_config();
    let mut app = App::new(&config, "/w".to_string());
    app.editor.input = "held".chars().collect();
    app.editor.cursor = 2;
    app.chat.scroll_up(5);
    paste_into_input(&mut app, "ll\u{1b}o wor");
    assert_eq!(app.editor.input.iter().collect::<String>(), "hello world");
    assert_eq!(app.editor.cursor, 9);
    assert_eq!(app.chat.scroll_offset, 0);
    assert!(app.chat.auto_scroll);
}

#[test]
fn wire_json_quotes_and_escapes_strings() {
    let m = AgentMessage::User { content: "say \"hi\"\nnow".to_string() };
    assert_eq!(message_wire_json(&m), "{\"content\":\"say \\\"hi\\\"\\nnow\",\"role\":\"user\"}");
}

#[test]
fn wire_json_escapes_control_characters() {
    let m = AgentMessage::User { content: "a\\b\u{8}\u{c}\r\t\u{1}\u{1f} \u{7f}é/".to_string() };
    assert_eq!(
        message_wire_json(&m),
        "{\"content\":\"a\\\\b\\b\\f\\r\\t\\u0001\\u001f \u{7f}é/\",\"role\":\"user\"}"
    );
}

#[test]
fn chunk_run_gives_one_signal_per_chunk() {
    let mut state = StreamState::new();
    let chunks = vec![
        ChatChunk::Content("a".to_string()),
        ChatChunk::Reasoning("ignored".to_string()),
        ChatChunk::ToolCall(delta(0, Some("c1"), Some("read"), "{}")),
        ChatChunk::Content("b".to_string()),
        ChatChunk::Usage(Usage { prompt_tokens: 3, completion_tokens: 4, total_tokens: 7 }),
    ];
    let signals = apply_chunks(&mut state, chunks);
    assert_eq!(signals.len(), 5);
    assert!(matches!(&signals[0], StreamSignal::Token(t) if t == "a"));
    assert!(matches!(&signals[1], StreamSignal::Reasoning(t) if t == "ignored"));
    assert!(matches!(&signals[2], StreamSignal::Nothing));
    assert!(matches!(&signals[3], StreamSignal::Token(t) if t == "b"));
    assert!(matches!(&signals[4], StreamSignal::Nothing));
    assert_eq!(state.blocks.len(), 1);
    assert!(matches!(&state.blocks[0], ContentBlock::Text { text } if text == "ab"));
    assert_eq!(state.pending.len(), 1);
    assert_eq!(state.pending[0].name, "read");
    assert!(state.usage.is_some());
}

#[test]
fn tool_call_chunks_reach_the_pending_calls() {
    let mut state = StreamState::new();
    apply_chunk(&mut state, ChatChunk::ToolCall(delta(2, Some("x"), Some("bash"), "{\"cmd\"")));
    apply_chunk(&mut state, ChatChunk::ToolCall(delta(2, None, None, ":\"ls\"}")));
    assert_eq!(state.pending.len(), 1);
    assert_eq!(state.pending[0].arguments, "{\"cmd\":\"ls\"}");
    assert!(state.blocks.is_empty());
}

use respondami::agent::{
    accumulate_request_usage, approx_token_count, blocked_tool_result, build_context_with_system,
    build_system_prompt_with_agents_md, canonical_turn_blocks, system_prompt_with_date, classify_response,
    estimate_tokens_from_messages, estimate_tokens_from_streamed_text, get_system_prompt,
    hook_instruction_pair, max_stream_retries, post_tool_instruction, pre_tool_hook_verdict,
    push_context_message, retry_decision, skill_activation_result, skill_name_of, truncate_content,
    AgentResponse, PreToolVerdict, RequestTokenUsage, ResponseKind, RetryDecision, RetryDelay,
    SkillFile,
};
use respondami::config::RetryConfig;
use respondami::history_guard::{message_digest, MessageDigest};
use respondami::hooks::{
    completed, hook_env, is_runnable_hook_file, load_all_hooks, load_directory_hooks, process_output,
    sort_hooks_by_name, spawn_failure, timeout_failure, Hook, HookContext, HookEntry, HookEvent,
    HookRegistry, HookResult, HookSource, MAX_OUTPUT_BYTES,
};
use respondami::session::{AgentMessage, ContentBlock, ToolCall, Usage};
use respondami::text::{decimal_string, trim_string, truncate_to_bytes};

fn hook(event: HookEvent, name: &str, source: HookSource) -> Hook {
    Hook { event, name: name.to_string(), command: format!("bash {name}"), source }
}

fn result(code: i32, out: &str, err: &str) -> HookResult {
    HookResult {
        exit_code: code,
        stdout: out.to_string(),
        stderr: err.to_string(),
        stdout_file: None,
        stderr_file: None,
    }
}

fn test_tool_call(id: &str) -> ToolCall {
    ToolCall { id: id.to_string(), name: "bash".to_string(), arguments: "{\"command\":\"ls\"}".to_string() }
}

// ─── Hook execution ───

#[test]
fn process_output_multibyte_at_boundary_no_panic() {
    let padding = "x".repeat(MAX_OUTPUT_BYTES - 1);
    let text = format!("{padding}☀");
    assert_eq!(text.len(), MAX_OUTPUT_BYTES + 2);
    let result = process_output(text.as_bytes());
    assert!(result.len() <= MAX_OUTPUT_BYTES + 100);
    assert!(result.contains("truncated"));
}

#[test]
fn process_output_keeps_small_output_and_notes_full_length() {
    assert_eq!(process_output(b"hello"), "hello");
    let big = "y".repeat(MAX_OUTPUT_BYTES + 5);
    let out = process_output(big.as_bytes());
    assert_eq!(out, format!("{}\n\n[Output truncated: 10005 characters total]", "y".repeat(MAX_OUTPUT_BYTES)));
}

#[test]
fn process_output_replaces_invalid_utf8() {
    assert_eq!(process_output(&[b'a', 0xff, b'b']), "a\u{FFFD}b");
}

#[test]
fn truncate_to_bytes_stops_before_a_split_character() {
    assert_eq!(truncate_to_bytes("ab☀c", 4), "ab");
    assert_eq!(truncate_to_bytes("ab☀c", 5), "ab☀");
    assert_eq!(truncate_to_bytes("abc", 10), "abc");
    assert_eq!(truncate_to_bytes("abc", 0), "");
}

#[test]
fn decimal_string_values() {
    assert_eq!(decimal_string(0), "0");
    assert_eq!(decimal_string(10002), "10002");
    assert_eq!(decimal_string(u64::MAX), "18446744073709551615");
}

#[test]
fn hook_result_codes() {
    assert!(result(0, "", "").success());
    assert!(!result(0, "", "").blocked());
    assert!(result(2, "", "").blocked());
    assert!(!result(1, "", "").success() && !result(1, "", "").blocked());
}

#[test]
fn hook_env_sets_event_name_and_optional_fields() {
    let h = hook(HookEvent::UserPromptSubmit, "env-test.sh", HookSource::Global);
    let ctx = HookContext {
        event: HookEvent::UserPromptSubmit,
        hook_name: "env-test.sh".to_string(),
        cwd: "/w".to_string(),
        tool_name: None,
        tool_input: None,
        tool_result: None,
        prompt: Some("test prompt".to_string()),
    };
    let env = hook_env(&h, &ctx);
    let pairs: Vec<(&str, &str)> = env.iter().map(|(k, v)| (k.as_str(), v.as_str())).collect();
    assert_eq!(
        pairs,
        vec![
            ("HOOK_EVENT", "UserPromptSubmit"),
            ("HOOK_NAME", "env-test.sh"),
            ("CWD", "/w"),
            ("PROMPT", "test prompt"),
        ]
    );
}

#[test]
fn hook_failure_results() {
    let r = spawn_failure("no such file");
    assert_eq!(r.exit_code, 1);
    assert_eq!(r.stderr, "Failed to spawn hook: no such file");
    let h = hook(HookEvent::PreToolUse, "slow.sh", HookSource::Global);
    let t = timeout_failure(&h);
    assert!(!t.success());
    assert_eq!(t.stderr, "Hook 'slow.sh' timed out after 30 seconds");
    let c = completed(None, b"out", b"");
    assert_eq!(c.exit_code, -1);
    assert_eq!(c.stdout, "out");
}

// ─── Hook loading ───

#[test]
fn runnable_by_extension_or_execute_bit() {
    assert!(is_runnable_hook_file("lint.sh", None));
    assert!(is_runnable_hook_file("a.b.bash", Some(0o644)));
    assert!(is_runnable_hook_file("x.ps1", None));
    assert!(!is_runnable_hook_file(".sh", None));
    assert!(!is_runnable_hook_file("notes.txt", Some(0o644)));
    assert!(is_runnable_hook_file("run", Some(0o755)));
    assert!(!is_runnable_hook_file("run", None));
}

#[test]
fn directory_hooks_are_filtered_and_sorted_by_name() {
    let entry = |event, name: &str, is_file, mode| HookEntry {
        event,
        file_name: name.to_string(),
        path: format!("/h/{name}"),
        is_file,
        mode,
    };
    let entries = vec![
        entry(HookEvent::Stop, "zeta.sh", true, None),
        entry(HookEvent::PreToolUse, "alpha.sh", true, None),
        entry(HookEvent::PreToolUse, "dir.sh", false, None),
        entry(HookEvent::PreToolUse, "readme.txt", true, Some(0o644)),
        entry(HookEvent::PostToolUse, "", true, Some(0o755)),
        entry(HookEvent::PostToolUse, "mid", true, Some(0o700)),
    ];
    let hooks = load_directory_hooks(&entries, HookSource::Project);
    let names: Vec<&str> = hooks.iter().map(|h| h.name.as_str()).collect();
    assert_eq!(names, vec!["alpha.sh", "mid", "zeta.sh"]);
    assert_eq!(hooks[0].command, "bash /h/alpha.sh");
    assert_eq!(hooks[0].source, HookSource::Project);
    assert_eq!(hooks[1].event, HookEvent::PostToolUse);
}

#[test]
fn sort_is_stable_for_equal_names() {
    let hs = vec![
        hook(HookEvent::Stop, "b", HookSource::Global),
        hook(HookEvent::PreCompact, "a", HookSource::Global),
        hook(HookEvent::PreToolUse, "b", HookSource::Global),
    ];
    let sorted = sort_hooks_by_name(hs);
    let got: Vec<(&str, HookEvent)> = sorted.iter().map(|h| (h.name.as_str(), h.event)).collect();
    assert_eq!(got, vec![("a", HookEvent::PreCompact), ("b", HookEvent::Stop), ("b", HookEvent::PreToolUse)]);
}

#[test]
fn project_hooks_come_before_global_hooks() {
    let registry = load_all_hooks(
        vec![hook(HookEvent::PreToolUse, "p.sh", HookSource::Project)],
        vec![
            hook(HookEvent::PreToolUse, "g.sh", HookSource::Global),
            hook(HookEvent::Stop, "s.sh", HookSource::Global),
        ],
    );
    let names: Vec<&str> = registry.hooks(HookEvent::PreToolUse).iter().map(|h| h.name.as_str()).collect();
    assert_eq!(names, vec!["p.sh", "g.sh"]);
    assert!(registry.has_hooks(HookEvent::Stop));
    assert!(!registry.has_hooks(HookEvent::PreCompact));
    assert_eq!(registry.total_count(), 3);
}

#[test]
fn event_names_and_order() {
    let names: Vec<&str> = HookEvent::all().iter().map(|e| e.as_dir_name()).collect();
    assert_eq!(names, vec!["UserPromptSubmit", "PreToolUse", "PostToolUse", "Stop", "PreCompact"]);
    assert_eq!(HookSource::Global.to_display_string(), "global");
    assert_eq!(HookSource::Project.to_display_string(), "project");
}

// ─── Agent (agent/mod tests) ───

#[test]
fn hook_registry_empty_no_hooks() {
    let registry = HookRegistry::new();
    assert_eq!(registry.hooks(HookEvent::PreToolUse).len(), 0);
}

#[test]
fn hook_registry_blocks_pre_tool_use() {
    // A blocking PreToolUse hook stops the tool call.
    match pre_tool_hook_verdict(result(2, "", "denied")) {
        PreToolVerdict::Blocked { error, .. } => assert_eq!(blocked_tool_result(&error), "Tool call blocked by hook: denied"),
        PreToolVerdict::Proceed { .. } => panic!("exit 2 must block"),
    }
}

#[test]
fn scroll_to_bottom_on_all_exit_paths_logic() {
    let pinned_scroll = false;
    let should_auto_scroll = !pinned_scroll;
    assert!(should_auto_scroll, "auto_scroll should be set when not pinned");
    let pinned_scroll = true;
    let should_auto_scroll = !pinned_scroll;
    assert!(!should_auto_scroll, "auto_scroll should NOT be set when pinned");
}

#[test]
fn canonical_turn_blocks_first_call_shape() {
    let tc0 = test_tool_call("call_0");
    let tc1 = test_tool_call("call_1");
    let content = vec![
        ContentBlock::Thinking { thinking: "hmm".into() },
        ContentBlock::Text { text: "let me check".into() },
        ContentBlock::ToolCall { tool_call: test_tool_call("call_0") },
        ContentBlock::ToolCall { tool_call: tc1 },
    ];
    let blocks = canonical_turn_blocks(&content, &tc0, true);
    assert_eq!(blocks.len(), 3, "first call: thinking + text + own tool call only");
    assert!(matches!(blocks[0], ContentBlock::Thinking { .. }));
    assert!(matches!(blocks[1], ContentBlock::Text { .. }));
    match &blocks[2] {
        ContentBlock::ToolCall { tool_call } => assert_eq!(tool_call.id, "call_0"),
        _ => panic!("expected ToolCall last"),
    }
}

#[test]
fn canonical_turn_blocks_subsequent_call_shape() {
    let tc1 = test_tool_call("call_1");
    let content = vec![ContentBlock::Text { text: "x".into() }];
    let blocks = canonical_turn_blocks(&content, &tc1, false);
    assert_eq!(blocks.len(), 1);
    match &blocks[0] {
        ContentBlock::ToolCall { tool_call } => assert_eq!(tool_call.id, "call_1"),
        _ => panic!("expected ToolCall"),
    }
}

#[test]
fn canonical_turn_blocks_first_call_no_prose() {
    let tc0 = test_tool_call("call_0");
    let content = vec![
        ContentBlock::ToolCall { tool_call: test_tool_call("call_0") },
        ContentBlock::ToolCall { tool_call: test_tool_call("call_1") },
    ];
    let blocks = canonical_turn_blocks(&content, &tc0, true);
    assert_eq!(blocks.len(), 1);
    match &blocks[0] {
        ContentBlock::ToolCall { tool_call } => assert_eq!(tool_call.id, "call_0"),
        _ => panic!("expected ToolCall"),
    }
}

#[test]
fn push_context_message_lockstep_digests() {
    let mut context: Vec<AgentMessage> = Vec::new();
    let mut digests: Vec<Option<MessageDigest>> = Vec::new();
    let persisted = AgentMessage::user("persisted".to_string());
    let persisted_digest = message_digest(&persisted);
    push_context_message(&mut context, &mut digests, persisted, false);
    let ephemeral = AgentMessage::user("ephemeral".to_string());
    push_context_message(&mut context, &mut digests, ephemeral, true);
    assert_eq!(context.len(), 2);
    assert_eq!(digests.len(), 2);
    assert_eq!(digests[0], Some(persisted_digest));
    assert_eq!(digests[1], None, "ephemeral messages must not join the prefix comparison");
}

#[test]
fn build_system_prompt_no_agents_md() {
    let prompt = build_system_prompt_with_agents_md(None, "", "/w");
    assert!(!prompt.contains("<project_context>"));
    assert!(prompt.contains("You are Respondami"));
    assert!(prompt.contains("Current date:"));
    assert!(prompt.contains("Current working directory:"));
    let tail = "\nCurrent working directory: /w";
    assert!(prompt.ends_with(tail));
    let date = &prompt[prompt.len() - tail.len() - 10..prompt.len() - tail.len()];
    assert_eq!(prompt, system_prompt_with_date(None, "", date, "/w"));
    let shape: Vec<bool> = date.chars().map(|c| c.is_ascii_digit()).collect();
    assert_eq!(shape, vec![true, true, true, true, false, true, true, false, true, true]);
    assert_eq!(&date[4..5], "-");
    assert_eq!(&date[7..8], "-");
}

#[test]
fn build_system_prompt_with_agents_md_block() {
    let prompt = system_prompt_with_date(
        Some(("  # Project Rules\n".to_string(), "/w/AGENTS.md".to_string())),
        "<skills/>",
        "2024-01-02",
        "/w",
    );
    assert!(prompt.starts_with("You are Respondami"));
    assert!(prompt.contains("<project_instructions path=\"/w/AGENTS.md\">\n# Project Rules\n</project_instructions>"));
    assert!(prompt.ends_with("</project_context><skills/>\nCurrent date: 2024-01-02\nCurrent working directory: /w"));
    assert!(get_system_prompt().starts_with("You are Respondami"));
}

#[test]
fn context_starts_with_system_prompt() {
    let ctx = build_context_with_system("sys".to_string(), vec![AgentMessage::user("q".to_string())]);
    assert_eq!(ctx.len(), 2);
    assert!(matches!(&ctx[0], AgentMessage::System { content } if content == "sys"));
}

// Own agent tests.

#[test]
fn response_text_joins_text_blocks() {
    let r = AgentResponse {
        content: vec![
            ContentBlock::Text { text: "a".into() },
            ContentBlock::Thinking { thinking: "t".into() },
            ContentBlock::Text { text: "b".into() },
            ContentBlock::ToolCall { tool_call: test_tool_call("c") },
        ],
        usage: None,
    };
    assert_eq!(r.text(), "a\nb");
    assert_eq!(r.thinking(), "t");
    assert_eq!(r.tool_calls().len(), 1);
    assert!(r.has_thinking() && r.has_tool_calls() && !r.is_empty());
    assert_eq!(classify_response(&r), ResponseKind::ToolCalls);
}

#[test]
fn response_kinds() {
    let empty = AgentResponse { content: vec![ContentBlock::Text { text: " \n\t".into() }], usage: None };
    assert!(empty.is_empty());
    assert_eq!(classify_response(&empty), ResponseKind::Empty);
    let reasoning = AgentResponse { content: vec![ContentBlock::Thinking { thinking: "x".into() }], usage: None };
    assert_eq!(classify_response(&reasoning), ResponseKind::ReasoningOnly);
    let fin = AgentResponse { content: vec![ContentBlock::Text { text: "done".into() }], usage: None };
    assert_eq!(classify_response(&fin), ResponseKind::Final);
}

#[test]
fn token_estimates() {
    assert_eq!(approx_token_count(""), 0);
    assert_eq!(approx_token_count("abc"), 1);
    assert_eq!(approx_token_count("abcde"), 2);
    assert_eq!(approx_token_count("☀"), 1);
    assert_eq!(estimate_tokens_from_streamed_text("12345678"), 2);
    // "user" = 1 token, "hello" = 2 tokens; "system" = 2, "abcd" = 1.
    let msgs = vec![AgentMessage::user("hello".to_string()), AgentMessage::system("abcd".to_string())];
    assert_eq!(estimate_tokens_from_messages(&msgs), 6);
}

#[test]
fn usage_keeps_the_larger_counts() {
    let cur = RequestTokenUsage { input_tokens: 100, output_tokens: 5, estimated: true };
    let u = Usage { prompt_tokens: 80, completion_tokens: 9, total_tokens: 89 };
    let r = accumulate_request_usage(cur, &u);
    assert_eq!(r, RequestTokenUsage { input_tokens: 100, output_tokens: 9, estimated: false });
    assert_eq!(accumulate_request_usage(r, &u), r);
}

#[test]
fn retry_policy_backoff_and_exhaustion() {
    assert_eq!(max_stream_retries(&RetryConfig { enabled: false, max_retries: 3, base_delay_ms: 2000 }), 0);
    assert_eq!(max_stream_retries(&RetryConfig { enabled: true, max_retries: 3, base_delay_ms: 2000 }), 3);
    let (n, d) = retry_decision(0, 3, 2000, None, "boom");
    assert_eq!(n, 1);
    match d {
        RetryDecision::Wait { attempt, max_attempts, delay } => {
            assert_eq!((attempt, max_attempts), (1, 4));
            assert_eq!(delay, RetryDelay::Backoff(2000));
        }
        RetryDecision::GiveUp { .. } => panic!("first retry must wait"),
    }
    let (_, d) = retry_decision(2, 3, 2000, None, "boom");
    assert!(matches!(d, RetryDecision::Wait { delay: RetryDelay::Backoff(8000), .. }));
    let (_, d) = retry_decision(1, 3, 2000, Some(1500), "boom");
    assert!(matches!(d, RetryDecision::Wait { delay: RetryDelay::Server(1500), .. }));
    let (n, d) = retry_decision(3, 3, 2000, None, "boom");
    assert_eq!(n, 4);
    match d {
        RetryDecision::GiveUp { attempt, message } => {
            assert_eq!(attempt, 3);
            assert_eq!(message, "Provider error after 4 retries: boom");
        }
        RetryDecision::Wait { .. } => panic!("retries exhausted"),
    }
}

#[test]
fn pre_tool_hooks_report_success_and_ignore_other_errors() {
    match pre_tool_hook_verdict(result(0, "ok", "noise")) {
        PreToolVerdict::Proceed { report: Some(r) } => {
            assert!(r.success);
            assert_eq!(r.stdout, "ok");
            assert_eq!(r.stderr, "");
        }
        _ => panic!("exit 0 proceeds with a report"),
    }
    assert!(matches!(pre_tool_hook_verdict(result(1, "", "warn")), PreToolVerdict::Proceed { report: None }));
}

#[test]
fn post_tool_hook_instructions() {
    assert_eq!(
        post_tool_instruction("fmt.sh", &result(2, "", "bad")),
        Some("\n\n[PostToolUse hook 'fmt.sh' blocked: bad]".to_string())
    );
    assert_eq!(
        post_tool_instruction("fmt.sh", &result(0, "note", "")),
        Some("\n\n[PostToolUse hook 'fmt.sh': note]".to_string())
    );
    assert_eq!(post_tool_instruction("fmt.sh", &result(0, "", "")), None);
    assert_eq!(post_tool_instruction("fmt.sh", &result(1, "x", "y")), None);
    let (tc, text) = hook_instruction_pair("\n\n[PostToolUse hook 'fmt.sh': note]").unwrap();
    assert_eq!(tc.id, "hook_instruction");
    assert_eq!(text, "[PostToolUse hook 'fmt.sh': note]");
    assert!(hook_instruction_pair("").is_none());
}

#[test]
fn skill_activation_texts() {
    let tc = ToolCall { id: "1".into(), name: "activate_skill".into(), arguments: "{\"name\":\"refine\"}".into() };
    assert_eq!(skill_name_of(&tc), "refine");
    let bad = ToolCall { id: "1".into(), name: "activate_skill".into(), arguments: "{}".into() };
    assert_eq!(skill_name_of(&bad), "");
    assert_eq!(skill_activation_result("refine", SkillFile::NotListed), "Skill 'refine' activated.");
    assert_eq!(
        skill_activation_result("refine", SkillFile::Read("\n body \n".into())),
        "Skill 'refine' activated.\n\n<skill_instructions name=\"refine\">\nbody\n</skill_instructions>"
    );
    assert_eq!(
        skill_activation_result("r", SkillFile::Failed { path: "/s".into(), error: "denied".into() }),
        "Skill 'r' activated.\n\n[Error reading skill file '/s': denied]"
    );
}

#[test]
fn previews_escape_newlines_and_truncate() {
    assert_eq!(truncate_content("a\r\nb\nc", 10), "a\\nb\\nc");
    assert_eq!(truncate_content("abcdef", 3), "abc…");
    assert_eq!(truncate_content("abc", 3), "abc");
    assert_eq!(trim_string("  x y \n"), "x y");
}

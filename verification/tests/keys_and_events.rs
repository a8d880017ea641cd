use respondami::agent_events::{
    end_turn, stop_hooks_done, apply_agent_event, compaction_blocked, record_hook_run, restart_message, streaming_key, AbortReason,
    AgentEvent, CompactionReason, EventAction, StreamingKeyAction,
};
use respondami::app::{handle_compaction_result, tick_activity_indicator, App, AutocompleteMode, AppState, ChatMessage, CompactionOutcome, CompactionResult};
use respondami::config::Config;
use respondami::display::{HookDisplay, ThinkingDisplay};
use respondami::hooks::{HookEvent, HookResult};
use respondami::keys::{
    handle_key_event, handle_ui_shortcuts, update_scroll, CommandPaletteHandler, IdleHandler,
    InitPopupHandler, KeyCode, KeyEvent, KeyEventResult, KeyOutcome, NavTarget, NavigationLayer,
    AutocompleteRequest, InputConfig, InputLayer, SessionSelectHandler, StateTransitionLayer, Transition,
};
use respondami::palette::{
    execute_palette_command, fuzzy_match_palette_commands, get_palette_command_description, PaletteAction,
};
use respondami::session::Usage;

fn make_key(code: KeyCode, ctrl: bool) -> KeyEvent {
    KeyEvent { code, ctrl, shift: false, alt: false }
}

fn make_app() -> App {
    App::new(&Config::default_config(), ".".to_string())
}

fn input_of(app: &App) -> String {
    app.editor.input.iter().collect()
}

fn last_system(app: &App) -> Option<String> {
    match app.chat.messages.last() {
        Some(ChatMessage::System(s)) => Some(s.clone()),
        _ => None,
    }
}

// ─── UI shortcuts (streaming_ui tests) ───

#[test]
fn f1_opens_help_popup() {
    let mut app = make_app();
    assert_eq!(app.modal.state, AppState::Idle);
    let handled = handle_ui_shortcuts(&mut app, &make_key(KeyCode::F(1), false));
    assert_ne!(handled, KeyEventResult::Unhandled);
    assert_eq!(app.modal.state, AppState::HelpPopup);
}

#[test]
fn ctrl_o_toggles_thinking_display() {
    let mut app = make_app();
    app.display.thinking_display = ThinkingDisplay::Collapsed;
    let handled = handle_ui_shortcuts(&mut app, &make_key(KeyCode::Char('o'), true));
    assert_ne!(handled, KeyEventResult::Unhandled);
    assert_eq!(app.display.thinking_display, ThinkingDisplay::Expanded);
}

#[test]
fn ctrl_slash_toggles_thinking_display() {
    let mut app = make_app();
    app.display.thinking_display = ThinkingDisplay::Expanded;
    let handled = handle_ui_shortcuts(&mut app, &make_key(KeyCode::Char('/'), true));
    assert_ne!(handled, KeyEventResult::Unhandled);
    assert_eq!(app.display.thinking_display, ThinkingDisplay::Hidden);
}

#[test]
fn ctrl_t_toggles_tool_output() {
    let mut app = make_app();
    let handled = handle_ui_shortcuts(&mut app, &make_key(KeyCode::Char('t'), true));
    assert_ne!(handled, KeyEventResult::Unhandled);
}

#[test]
fn non_matching_key_returns_false() {
    let mut app = make_app();
    let handled = handle_ui_shortcuts(&mut app, &make_key(KeyCode::Char('x'), false));
    assert_eq!(handled, KeyEventResult::Unhandled);
}

#[test]
fn char_o_without_control_returns_false() {
    let mut app = make_app();
    let initial = app.display.thinking_display;
    let handled = handle_ui_shortcuts(&mut app, &make_key(KeyCode::Char('o'), false));
    assert_eq!(handled, KeyEventResult::Unhandled);
    assert_eq!(app.display.thinking_display, initial);
}

#[test]
fn char_t_without_control_returns_false() {
    let mut app = make_app();
    let handled = handle_ui_shortcuts(&mut app, &make_key(KeyCode::Char('t'), false));
    assert_eq!(handled, KeyEventResult::Unhandled);
}

// Own key tests.

#[test]
fn thinking_toggle_cycles_through_three_modes() {
    let d = ThinkingDisplay::Hidden;
    assert_eq!(d.toggle(), ThinkingDisplay::Collapsed);
    assert_eq!(d.toggle().toggle().toggle(), d);
    assert_eq!(HookDisplay::Hidden.toggle(), HookDisplay::Minimal);
    assert_eq!(ThinkingDisplay::Collapsed.palette_mode_display(), "[collapsed → expanded]");
}

#[test]
fn ctrl_d_quits_even_in_modals() {
    let mut app = make_app();
    app.modal.state = AppState::CommandPalette;
    assert!(matches!(handle_key_event(&mut app, &make_key(KeyCode::Char('d'), true)), KeyOutcome::Quit));
    assert!(matches!(handle_key_event(&mut app, &make_key(KeyCode::F(1), false)), KeyOutcome::PassOn));
    assert_eq!(app.modal.state, AppState::CommandPalette);
}

#[test]
fn page_up_pins_and_page_down_releases() {
    let mut app = make_app();
    app.terminal_height = 30;
    app.input_area_height = 3;
    assert!(matches!(handle_key_event(&mut app, &make_key(KeyCode::PageUp, false)), KeyOutcome::Continue));
    assert_eq!(app.chat.scroll_offset, 26);
    assert!(app.chat.pinned_scroll);
    handle_key_event(&mut app, &make_key(KeyCode::PageDown, false));
    assert_eq!(app.chat.scroll_offset, 0);
    assert!(!app.chat.pinned_scroll && app.chat.auto_scroll);
}

#[test]
fn navigation_wraps_both_ways() {
    let mut app = make_app();
    let nav = NavigationLayer::new(3, NavTarget::Sessions);
    nav.navigate_up(&mut app);
    assert_eq!(app.modal.session_select_index, 2);
    nav.navigate_down(&mut app);
    assert_eq!(app.modal.session_select_index, 0);
    let empty = NavigationLayer::new(0, NavTarget::Sessions);
    empty.navigate_down(&mut app);
    assert_eq!(app.modal.session_select_index, 0);
}

#[test]
fn transitions_fire_in_priority_order() {
    let layer = StateTransitionLayer::new().with_enter().with_esc();
    assert_eq!(layer.clone().handle(&make_key(KeyCode::Enter, false)), Some(Transition::Enter));
    assert_eq!(layer.clone().handle(&KeyEvent { code: KeyCode::Enter, ctrl: false, shift: true, alt: false }), None);
    assert_eq!(layer.clone().handle(&make_key(KeyCode::Char('c'), true)), None);
    let both = StateTransitionLayer::new().with_shift_enter().with_enter();
    assert_eq!(
        both.clone().handle(&KeyEvent { code: KeyCode::Enter, ctrl: false, shift: true, alt: false }),
        Some(Transition::ShiftEnter)
    );
}

#[test]
fn each_transition_fires_once_per_layer() {
    let mut layer = StateTransitionLayer::new().with_ctrl_g().with_enter();
    let ctrl_g = make_key(KeyCode::Char('g'), true);
    assert_eq!(layer.handle(&ctrl_g), Some(Transition::CtrlG));
    assert_eq!(layer.handle(&ctrl_g), None);
    assert_eq!(layer.handle(&make_key(KeyCode::Enter, false)), Some(Transition::Enter));
    assert_eq!(layer.handle(&make_key(KeyCode::Enter, false)), None);
}

#[test]
fn at_trigger_opens_files_once_per_layer() {
    let mut app = make_app();
    let mut layer = InputLayer::new(InputConfig { allow_newlines: false, enable_at_trigger: true }).with_at_trigger();
    assert_eq!(layer.handle(&mut app, &make_key(KeyCode::Char('@'), false)), AutocompleteRequest::OpenFiles);
    assert!(!layer.at_trigger);
    assert_eq!(layer.handle(&mut app, &make_key(KeyCode::Char('@'), false)), AutocompleteRequest::Keep);
    assert_eq!(input_of(&app), "@@");
    assert_eq!(app.editor.cursor, 2);
}

#[test]
fn idle_typing_and_history() {
    let mut app = make_app();
    app.sent_messages = vec!["first".to_string(), "second".to_string()];
    for c in "hi".chars() {
        IdleHandler.handle(&mut app, &make_key(KeyCode::Char(c), false));
    }
    assert_eq!(input_of(&app), "hi");
    IdleHandler.handle(&mut app, &make_key(KeyCode::Left, false));
    IdleHandler.handle(&mut app, &make_key(KeyCode::Char('x'), false));
    assert_eq!(input_of(&app), "hxi");
    IdleHandler.handle(&mut app, &make_key(KeyCode::Up, false));
    assert_eq!(input_of(&app), "second");
    IdleHandler.handle(&mut app, &make_key(KeyCode::Up, false));
    assert_eq!(input_of(&app), "first");
    IdleHandler.handle(&mut app, &make_key(KeyCode::Down, false));
    assert_eq!(input_of(&app), "second");
    IdleHandler.handle(&mut app, &make_key(KeyCode::Down, false));
    assert_eq!(input_of(&app), "hxi");
    assert_eq!(app.editor.cursor, 2);
    assert!(matches!(IdleHandler.handle(&mut app, &make_key(KeyCode::Enter, false)), KeyOutcome::Send));
    IdleHandler.handle(&mut app, &make_key(KeyCode::Esc, false));
    assert_eq!(input_of(&app), "");
}

#[test]
fn idle_shift_enter_inserts_newline_and_lines_move() {
    let mut app = make_app();
    for c in "abc".chars() {
        IdleHandler.handle(&mut app, &make_key(KeyCode::Char(c), false));
    }
    IdleHandler.handle(&mut app, &KeyEvent { code: KeyCode::Enter, ctrl: false, shift: true, alt: false });
    IdleHandler.handle(&mut app, &make_key(KeyCode::Char('d'), false));
    assert_eq!(input_of(&app), "abc\nd");
    IdleHandler.handle(&mut app, &make_key(KeyCode::Up, false));
    assert_eq!(app.editor.cursor, 1);
    IdleHandler.handle(&mut app, &make_key(KeyCode::End, false));
    assert_eq!(app.editor.cursor, 3);
    IdleHandler.handle(&mut app, &make_key(KeyCode::Down, false));
    assert_eq!(app.editor.cursor, 5);
    IdleHandler.handle(&mut app, &make_key(KeyCode::Home, false));
    assert_eq!(app.editor.cursor, 4);
}

#[test]
fn palette_opens_filters_and_runs_commands() {
    let mut app = make_app();
    for c in "draft".chars() {
        IdleHandler.handle(&mut app, &make_key(KeyCode::Char(c), false));
    }
    IdleHandler.handle(&mut app, &make_key(KeyCode::Char('g'), true));
    assert_eq!(app.modal.state, AppState::CommandPalette);
    for c in "help".chars() {
        CommandPaletteHandler.handle(&mut app, &make_key(KeyCode::Char(c), false));
    }
    let out = CommandPaletteHandler.handle(&mut app, &make_key(KeyCode::Enter, false));
    assert!(matches!(out, KeyOutcome::Palette(PaletteAction::Nothing)));
    assert_eq!(app.modal.state, AppState::HelpPopup);
    assert_eq!(input_of(&app), "draft");
}

#[test]
fn palette_matching_is_subsequence_in_table_order() {
    let q: Vec<char> = "tog".chars().collect();
    let ids: Vec<&str> = fuzzy_match_palette_commands(&q, 10).iter().map(|c| c.id).collect();
    assert_eq!(ids, vec!["toggle_thinking", "toggle_tool_output", "toggle_hook_mode"]);
    let all: Vec<char> = Vec::new();
    assert_eq!(fuzzy_match_palette_commands(&all, 3).len(), 3);
}

#[test]
fn palette_scroll_keeps_selection_visible() {
    let mut app = make_app();
    app.modal.palette_selected = 11;
    app.modal.palette_scroll_offset = 0;
    update_scroll(&mut app, 12);
    assert_eq!(app.modal.palette_scroll_offset, 2);
    app.modal.palette_selected = 0;
    update_scroll(&mut app, 12);
    assert_eq!(app.modal.palette_scroll_offset, 0);
}

#[test]
fn palette_descriptions_show_toggle_switches() {
    let app = make_app();
    assert_eq!(
        get_palette_command_description("toggle_thinking", &app),
        "Toggle thinking display [collapsed → expanded]"
    );
    assert_eq!(
        get_palette_command_description("toggle_tool_output", &app),
        "Toggle tool output [expanded → collapsed]"
    );
    assert_eq!(get_palette_command_description("quit", &app), "Quit");
    assert_eq!(get_palette_command_description("nope", &app), "");
}

#[test]
fn palette_command_effects() {
    let mut app = make_app();
    assert!(matches!(execute_palette_command(&mut app, "quit"), PaletteAction::Quit));
    assert!(matches!(execute_palette_command(&mut app, "compact"), PaletteAction::Nothing));
    assert_eq!(last_system(&app).as_deref(), Some("No active session to compact."));
    execute_palette_command(&mut app, "bogus");
    assert_eq!(last_system(&app).as_deref(), Some("Unknown command: bogus"));
    app.usage.request_input_tokens = 8192;
    app.usage.session_input_tokens = 9000;
    app.usage.session_output_tokens = 700;
    execute_palette_command(&mut app, "model");
    assert_eq!(
        last_system(&app).as_deref(),
        Some("Model: llama3.2\nContext window: 32768 tokens\nContext usage: 25% (8192 input tokens)\nSession totals: ↑9000 input ↓700 output")
    );
    assert!(matches!(execute_palette_command(&mut app, "toggle_hook_mode"), PaletteAction::SaveConfig));
    assert_eq!(app.display.hook_display, HookDisplay::Full);
    app.has_active_session = true;
    assert!(matches!(execute_palette_command(&mut app, "compact"), PaletteAction::StartCompaction));
    assert_eq!(app.modal.state, AppState::Compacting);
    match execute_palette_command(&mut app, "init") {
        PaletteAction::RunTurn(p) => assert!(p.contains("AGENTS.md")),
        _ => panic!("init runs a turn"),
    }
}

#[test]
fn init_popup_yes_and_no() {
    let mut app = make_app();
    app.modal.state = AppState::InitPopup;
    InitPopupHandler.handle(&mut app, &make_key(KeyCode::Down, false));
    assert_eq!(app.modal.popup_selection, 1);
    assert!(matches!(InitPopupHandler.handle(&mut app, &make_key(KeyCode::Enter, false)), KeyOutcome::Continue));
    assert_eq!(app.modal.state, AppState::Idle);
    app.modal.popup_selection = 0;
    assert!(matches!(InitPopupHandler.handle(&mut app, &make_key(KeyCode::Enter, false)), KeyOutcome::RunTurn(_)));
}

#[test]
fn session_select_cancel_and_load() {
    let mut app = make_app();
    app.modal.state = AppState::SessionSelect;
    app.modal.session_count = 2;
    SessionSelectHandler.handle(&mut app, &make_key(KeyCode::Char('j'), false));
    assert!(matches!(SessionSelectHandler.handle(&mut app, &make_key(KeyCode::Enter, false)), KeyOutcome::LoadSession(1)));
    SessionSelectHandler.handle(&mut app, &make_key(KeyCode::Esc, false));
    assert_eq!(app.modal.state, AppState::Idle);
    assert_eq!(last_system(&app).as_deref(), Some("Session selection cancelled."));
}

// ─── Agent events ───

#[test]
fn tokens_stream_into_one_assistant_entry() {
    let mut app = make_app();
    app.modal.state = AppState::ToolExec;
    apply_agent_event(&mut app, AgentEvent::Token("Hel".to_string()));
    apply_agent_event(&mut app, AgentEvent::Token("lo".to_string()));
    assert_eq!(app.modal.state, AppState::Streaming);
    assert_eq!(app.chat.messages.len(), 1);
    assert!(matches!(&app.chat.messages[0], ChatMessage::Assistant(s) if s == "Hello"));
}

#[test]
fn tool_call_lifecycle() {
    let mut app = make_app();
    apply_agent_event(
        &mut app,
        AgentEvent::ToolCallStart { tool_call_id: "t1".into(), tool_name: "bash".into(), tool_args: "{}".into() },
    );
    assert_eq!(app.modal.state, AppState::ToolExec);
    apply_agent_event(&mut app, AgentEvent::ToolOutput("line".into()));
    let act = apply_agent_event(
        &mut app,
        AgentEvent::ToolCallDone { tool_call_id: "t1".into(), result: "ok".into(), has_error: false, rtk_original: None },
    );
    assert!(matches!(act, EventAction::PauseTiming));
    match &app.chat.messages[0] {
        ChatMessage::ToolCall { result, output, .. } => {
            assert_eq!(result.as_deref(), Some("ok"));
            assert_eq!(output, "line");
        }
        _ => panic!("tool call entry"),
    }
}

#[test]
fn retry_and_done_messages() {
    let mut app = make_app();
    app.chat.pinned_scroll = true;
    app.chat.auto_scroll = false;
    apply_agent_event(
        &mut app,
        AgentEvent::RetryStart { attempt: 1, max_attempts: 4, delay_ms: 2100, error: "timeout".into() },
    );
    assert_eq!(last_system(&app).as_deref(), Some("Retrying... (attempt 2/4, 2100ms delay) — timeout"));
    assert!(!app.chat.auto_scroll, "a pinned view does not follow");
    apply_agent_event(&mut app, AgentEvent::RetryEnd { success: false, attempt: 3 });
    assert_eq!(last_system(&app).as_deref(), Some("Retry failed after 3 attempt(s)."));
    let act = apply_agent_event(&mut app, AgentEvent::Done(Err(AbortReason::Error("x".into()))));
    assert!(matches!(act, EventAction::Finish));
    assert_eq!(last_system(&app).as_deref(), Some("Agent error: x"));
    let act = apply_agent_event(&mut app, AgentEvent::Done(Ok(())));
    assert!(matches!(act, EventAction::RunStopHooks));
}

#[test]
fn hook_messages_respect_hidden_mode_and_skills_are_added_once() {
    let mut app = make_app();
    app.display.hook_display = HookDisplay::Hidden;
    apply_agent_event(
        &mut app,
        AgentEvent::HookMessage {
            event: HookEvent::PreToolUse,
            hook_name: "h".into(),
            success: true,
            stdout: String::new(),
            stderr: String::new(),
            tool_name: None,
        },
    );
    assert!(app.chat.messages.is_empty());
    apply_agent_event(&mut app, AgentEvent::SkillActivation { skill_name: "refine".into() });
    apply_agent_event(&mut app, AgentEvent::SkillActivation { skill_name: "refine".into() });
    assert_eq!(app.active_skills, vec!["refine".to_string()]);
    apply_agent_event(&mut app, AgentEvent::Usage(Usage { prompt_tokens: 10, completion_tokens: 4, total_tokens: 14 }));
    assert_eq!(app.usage.request_input_tokens, 10);
}

#[test]
fn session_saves_only_with_an_active_session() {
    let mut app = make_app();
    let act = apply_agent_event(
        &mut app,
        AgentEvent::SaveToolResult { tool_call_id: "a".into(), tool_name: "b".into(), tool_args: "{}".into(), result: "r".into() },
    );
    assert!(matches!(act, EventAction::Nothing));
    app.has_active_session = true;
    let act = apply_agent_event(
        &mut app,
        AgentEvent::SaveToolResult { tool_call_id: "a".into(), tool_name: "b".into(), tool_args: "{}".into(), result: "r".into() },
    );
    assert!(matches!(act, EventAction::SaveToolResult { .. }));
    let act = apply_agent_event(
        &mut app,
        AgentEvent::NeedsCompaction { total_tokens: 1, reason: CompactionReason::Overflow, retry_user_message: None },
    );
    assert!(matches!(act, EventAction::Compact { reason: CompactionReason::Overflow, .. }));
    assert_eq!(restart_message(CompactionReason::Threshold), "Context compacted. Continuing task...");
}

#[test]
fn compaction_outcomes_are_reported() {
    let mut app = make_app();
    let r = handle_compaction_result(
        &mut app,
        CompactionOutcome::Applied { tokens_before: 100, tokens_after: 40, messages_removed: 3 },
        false,
    );
    assert_eq!(r, CompactionResult::Success { tokens_before: 100, tokens_after: 40, messages_removed: 3 });
    assert!(matches!(app.chat.messages.last(), Some(ChatMessage::Compaction { tokens_saved: 60, messages_removed: 3 })));
    let r = handle_compaction_result(&mut app, CompactionOutcome::Panicked, true);
    assert_eq!(r, CompactionResult::Panicked);
    assert_eq!(last_system(&app).as_deref(), Some("Compaction task panicked."));
    compaction_blocked(&mut app, "policy");
    assert_eq!(last_system(&app).as_deref(), Some("Compaction blocked by hook: policy"));
    assert_eq!(app.modal.state, AppState::Idle);
}

#[test]
fn hook_runs_are_shown_and_blocking_is_reported() {
    let mut app = make_app();
    let r = HookResult { exit_code: 2, stdout: String::new(), stderr: "no".into(), stdout_file: None, stderr_file: None };
    assert!(record_hook_run(&mut app, HookEvent::Stop, &"stop.sh".to_string(), &r));
    assert_eq!(app.chat.messages.len(), 1);
}

#[test]
fn keys_while_streaming() {
    let mut app = make_app();
    app.modal.state = AppState::Streaming;
    assert!(matches!(streaming_key(&mut app, &make_key(KeyCode::Esc, false), false), StreamingKeyAction::CancelAgent));
    assert_eq!(last_system(&app).as_deref(), Some("Cancelling... (press again to force quit)"));
    assert!(matches!(streaming_key(&mut app, &make_key(KeyCode::Char('c'), true), true), StreamingKeyAction::AbortCompaction));
    assert_eq!(app.modal.state, AppState::Idle);
    assert!(matches!(streaming_key(&mut app, &make_key(KeyCode::Char('x'), false), false), StreamingKeyAction::Ignore));
}

#[test]
fn palette_j_and_k_move_the_selection() {
    let mut app = make_app();
    IdleHandler.handle(&mut app, &make_key(KeyCode::Char('g'), true));
    assert_eq!(app.modal.state, AppState::CommandPalette);
    let out = CommandPaletteHandler.handle(&mut app, &make_key(KeyCode::Char('j'), false));
    assert!(matches!(out, KeyOutcome::Continue));
    assert_eq!(app.modal.palette_selected, 1);
    assert!(app.modal.palette_query.is_empty());
    CommandPaletteHandler.handle(&mut app, &make_key(KeyCode::Char('k'), false));
    assert_eq!(app.modal.palette_selected, 0);
    assert!(app.modal.palette_query.is_empty());
}

#[test]
fn slash_in_empty_input_opens_skill_autocomplete() {
    let mut app = make_app();
    app.skill_names = vec!["refine".to_string(), "review".to_string()];
    let out = IdleHandler.handle(&mut app, &make_key(KeyCode::Char('/'), false));
    assert!(matches!(out, KeyOutcome::Autocomplete(_)));
    assert_eq!(input_of(&app), "/");
    assert_eq!(app.editor.cursor, 1);
    match &app.editor.autocomplete {
        AutocompleteMode::Skill { matches, selected, scroll_offset } => {
            assert_eq!(matches, &vec!["refine".to_string(), "review".to_string()]);
            assert_eq!((*selected, *scroll_offset), (0, 0));
        }
        _ => panic!("skill autocomplete should be open"),
    }
    IdleHandler.handle(&mut app, &make_key(KeyCode::Esc, false));
    assert!(matches!(app.editor.autocomplete, AutocompleteMode::Closed));
}

#[test]
fn navigating_down_then_up_returns_to_the_start() {
    let mut app = make_app();
    app.modal.session_count = 3;
    app.modal.session_select_index = 2;
    let nav = NavigationLayer::new(3, NavTarget::Sessions);
    nav.navigate_down(&mut app);
    assert_eq!(app.modal.session_select_index, 0);
    nav.navigate_up(&mut app);
    assert_eq!(app.modal.session_select_index, 2);
}

#[test]
fn turn_end_and_blocked_stop() {
    let mut app = make_app();
    app.modal.state = AppState::Streaming;
    app.chat.auto_scroll = false;
    end_turn(&mut app);
    assert_eq!(app.modal.state, AppState::Idle);
    assert!(app.chat.auto_scroll);
    let restart = stop_hooks_done(&mut app, Some("keep going".to_string()));
    assert_eq!(restart.as_deref(), Some("keep going"));
    assert_eq!(app.modal.state, AppState::Streaming);
    assert_eq!(last_system(&app).as_deref(), Some("Agent blocked from stopping: keep going"));
    assert!(stop_hooks_done(&mut app, None).is_none());
    assert_eq!(app.modal.state, AppState::Idle);
}

#[test]
fn activity_indicator_ticks_only_while_working() {
    let mut app = make_app();
    tick_activity_indicator(&mut app);
    assert_eq!(app.activity_frame, 0);
    app.modal.state = AppState::Streaming;
    tick_activity_indicator(&mut app);
    tick_activity_indicator(&mut app);
    assert_eq!(app.activity_frame, 2);
    app.activity_frame = usize::MAX;
    tick_activity_indicator(&mut app);
    assert_eq!(app.activity_frame, 0);
}

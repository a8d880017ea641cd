//! The state of the terminal application that key handling, palette
//! commands and agent events act on: the current mode, the chat, the input
//! editor, the palette and popups, display settings and session counters.

use vstd::prelude::*;
use crate::config::Config;
use crate::display::{next_hook, next_thinking, HookDisplay, ThinkingDisplay};
use crate::hooks::{HookEvent, HookRegistry};
use crate::text::{decimal, decimal_string};
use vstd::string::StringExecFns;

verus! {

broadcast use vstd::string::group_string_axioms;

/// What the application is doing.
#[derive(Clone, Copy, Debug, PartialEq, Eq, Structural)]
pub enum AppState {
    Idle,
    Streaming,
    ToolExec,
    Compacting,
    SessionSelect,
    InitPopup,
    CommandPalette,
    HelpPopup,
    TokenStats,
}

/// One entry of the chat view.
pub enum ChatMessage {
    System(String),
    User(String),
    Assistant(String),
    Thinking(String),
    ToolCall { id: String, name: String, args: String, result: Option<String>, has_error: bool, output: String },
    Compaction { tokens_saved: u32, messages_removed: u32 },
    Hook {
        event: HookEvent,
        hook_name: String,
        success: bool,
        stdout: String,
        stderr: String,
        tool_name: Option<String>,
    },
    SkillActivation(String),
}

/// The chat view.
pub struct ChatState {
    pub messages: Vec<ChatMessage>,
    /// Follow new output (scroll to the bottom on the next draw).
    pub auto_scroll: bool,
    /// The user scrolled up and pinned the view: output does not move it.
    pub pinned_scroll: bool,
    /// Lines scrolled up from the bottom.
    pub scroll_offset: usize,
}

/// The autocomplete popup under the input, if one is open: its matches,
/// the selected one and the first one shown.
pub enum AutocompleteMode {
    Closed,
    Skill { matches: Vec<String>, selected: usize, scroll_offset: usize },
    File { matches: Vec<String>, selected: usize, scroll_offset: usize },
}

/// The input editor: characters and a cursor (a character index), the
/// position in the history of sent messages (0 = not browsing), and the
/// open autocomplete popup.
pub struct EditorState {
    pub input: Vec<char>,
    pub cursor: usize,
    pub history_index: usize,
    pub saved_input: Option<Vec<char>>,
    pub saved_cursor: usize,
    pub autocomplete: AutocompleteMode,
}

/// Modal state: current mode, command palette, popups.
pub struct ModalState {
    pub state: AppState,
    pub palette_query: Vec<char>,
    pub palette_selected: usize,
    pub palette_scroll_offset: usize,
    pub palette_preserved_input: Vec<char>,
    pub palette_preserved_cursor: usize,
    /// 0 = Yes, 1 = No in the init popup.
    pub popup_selection: usize,
    pub session_select_index: usize,
    pub session_count: usize,
}

/// Display settings the user toggles.
#[derive(Clone, Copy, Debug, PartialEq, Eq, Structural)]
pub struct DisplayState {
    pub thinking_display: ThinkingDisplay,
    pub hook_display: HookDisplay,
    pub tool_output_expanded: bool,
}

/// Token counters of the session.
#[derive(Clone, Copy, Debug, PartialEq, Eq, Structural)]
pub struct UsageState {
    /// Input tokens of the current request.
    pub request_input_tokens: u32,
    /// Output tokens of the current request.
    pub request_output_tokens: u32,
    /// Input tokens over the session.
    pub session_input_tokens: u32,
    /// Output tokens over the session.
    pub session_output_tokens: u32,
}

/// The application.
pub struct App {
    pub modal: ModalState,
    pub editor: EditorState,
    pub chat: ChatState,
    pub display: DisplayState,
    pub usage: UsageState,
    pub model_name: String,
    pub context_window: u32,
    pub cwd: String,
    pub has_active_session: bool,
    pub active_skills: Vec<String>,
    pub hook_registry: HookRegistry,
    /// Names of the skills that can be activated, for skill autocomplete.
    pub skill_names: Vec<String>,
    /// User messages sent so far, oldest first (for input history).
    pub sent_messages: Vec<String>,
    /// Height of the terminal, in lines.
    pub terminal_height: usize,
    /// Height of the input area, in lines.
    pub input_area_height: usize,
    /// The frame the activity indicator shows.
    pub activity_frame: usize,
}

impl App {
    /// A fresh application: idle, empty chat following output, empty input,
    /// display settings from the configuration, no session.
    pub fn new(config: &Config, cwd: String) -> (app: App)
        ensures
            app.modal.state == AppState::Idle,
            app.chat.messages@.len() == 0,
            app.chat.auto_scroll,
            !app.chat.pinned_scroll,
            app.editor.input@.len() == 0,
            app.editor.cursor == 0,
            app.editor.history_index == 0,
            app.display == (DisplayState {
                thinking_display: config.ui.thinking_display,
                hook_display: config.ui.hook_display,
                tool_output_expanded: config.ui.tool_output_expanded,
            }),
            app.model_name@ == config.provider.model@,
            app.context_window == config.provider.context_window,
            app.cwd == cwd,
            !app.has_active_session,
            app.editor.autocomplete is Closed,
            app.skill_names@.len() == 0,
    {
        App {
            modal: ModalState {
                state: AppState::Idle,
                palette_query: Vec::new(),
                palette_selected: 0,
                palette_scroll_offset: 0,
                palette_preserved_input: Vec::new(),
                palette_preserved_cursor: 0,
                popup_selection: 0,
                session_select_index: 0,
                session_count: 0,
            },
            editor: EditorState {
                input: Vec::new(),
                cursor: 0,
                history_index: 0,
                saved_input: None,
                saved_cursor: 0,
                autocomplete: AutocompleteMode::Closed,
            },
            chat: ChatState { messages: Vec::new(), auto_scroll: true, pinned_scroll: false, scroll_offset: 0 },
            display: DisplayState {
                thinking_display: config.ui.thinking_display,
                hook_display: config.ui.hook_display,
                tool_output_expanded: config.ui.tool_output_expanded,
            },
            usage: UsageState {
                request_input_tokens: 0,
                request_output_tokens: 0,
                session_input_tokens: 0,
                session_output_tokens: 0,
            },
            model_name: config.provider.model.clone(),
            context_window: config.provider.context_window,
            cwd,
            has_active_session: false,
            active_skills: Vec::new(),
            hook_registry: HookRegistry::new(),
            skill_names: Vec::new(),
            sent_messages: Vec::new(),
            terminal_height: 0,
            input_area_height: 0,
            activity_frame: 0,
        }
    }

    /// Whether the agent is at work (the activity indicator animates).
    pub fn is_working(&self) -> (b: bool)
        ensures
            b == working(self.modal.state),
    {
        match self.modal.state {
            AppState::Streaming | AppState::ToolExec | AppState::Compacting => true,
            _ => false,
        }
    }
}

/// The states in which the agent is at work: streaming, running a tool,
/// compacting.
pub open spec fn working(s: AppState) -> bool {
    s == AppState::Streaming || s == AppState::ToolExec || s == AppState::Compacting
}

/// The activity indicator's next frame (back to the first after the last).
pub open spec fn next_frame(f: usize) -> usize {
    if f < usize::MAX {
        (f + 1) as usize
    } else {
        0
    }
}

/// Tick the activity indicator: while the agent is at work it moves on one
/// frame; otherwise nothing changes. The caller ticks about ten times a
/// second, so the animation rate does not depend on which loop drives it.
pub fn tick_activity_indicator(app: &mut App)
    ensures
        working(old(app).modal.state) ==> *final(app) == (App { activity_frame: next_frame(old(app).activity_frame), ..*old(app) }),
        !working(old(app).modal.state) ==> *final(app) == *old(app),
{
    if app.is_working() {
        app.activity_frame = if app.activity_frame < usize::MAX { app.activity_frame + 1 } else { 0 };
    }
}

/// The chat shows a system message with this text at its end.
pub open spec fn pushed_system(before: Seq<ChatMessage>, after: Seq<ChatMessage>, text: Seq<char>) -> bool {
    &&& after.len() == before.len() + 1
    &&& after.take(before.len() as int) == before
    &&& after.last() matches ChatMessage::System(s) && s@ == text
}

impl ChatState {
    /// Scroll the view up by `lines`: it stops following output and stays
    /// where the user put it.
    pub fn scroll_up(&mut self, lines: usize)
        ensures
            *final(self) == (ChatState {
                scroll_offset: final(self).scroll_offset,
                pinned_scroll: true,
                auto_scroll: false,
                ..*old(self)
            }),
            final(self).scroll_offset == (if old(self).scroll_offset + lines > usize::MAX { usize::MAX as int } else { old(self).scroll_offset + lines }),
            final(self).pinned_scroll,
            !final(self).auto_scroll,
            final(self).messages@ == old(self).messages@,
    {
        self.scroll_offset = self.scroll_offset.saturating_add(lines);
        self.pinned_scroll = true;
        self.auto_scroll = false;
    }

    /// Scroll the view down by `lines`; at the bottom it follows output again.
    pub fn scroll_down(&mut self, lines: usize)
        ensures
            *final(self) == (ChatState {
                scroll_offset: final(self).scroll_offset,
                pinned_scroll: final(self).pinned_scroll,
                auto_scroll: final(self).auto_scroll,
                ..*old(self)
            }),
            final(self).scroll_offset == (if old(self).scroll_offset >= lines { old(self).scroll_offset - lines } else { 0 }),
            final(self).scroll_offset == 0 ==> !final(self).pinned_scroll && final(self).auto_scroll,
            final(self).scroll_offset > 0 ==> final(self).pinned_scroll == old(self).pinned_scroll && final(self).auto_scroll == old(self).auto_scroll,
            final(self).messages@ == old(self).messages@,
    {
        self.scroll_offset = self.scroll_offset.saturating_sub(lines);
        if self.scroll_offset == 0 {
            self.pinned_scroll = false;
            self.auto_scroll = true;
        }
    }

    /// Append a system message.
    pub fn add_system_message(&mut self, text: String)
        ensures
            pushed_system(old(self).messages@, final(self).messages@, text@),
            final(self).auto_scroll == old(self).auto_scroll,
            final(self).pinned_scroll == old(self).pinned_scroll,
            final(self).scroll_offset == old(self).scroll_offset,
    {
        let ghost before = self.messages@;
        self.messages.push(ChatMessage::System(text));
        assert(self.messages@.take(before.len() as int) =~= before);
    }

    /// Follow new output unless the user pinned the view.
    pub fn follow_unless_pinned(&mut self)
        ensures
            final(self).auto_scroll == (old(self).auto_scroll || !old(self).pinned_scroll),
            final(self).pinned_scroll == old(self).pinned_scroll,
            final(self).messages@ == old(self).messages@,
            final(self).scroll_offset == old(self).scroll_offset,
    {
        if !self.pinned_scroll {
            self.auto_scroll = true;
        }
    }

    /// Follow new output, whatever the pin.
    pub fn follow(&mut self)
        ensures
            *final(self) == (ChatState { auto_scroll: true, ..*old(self) }),
            final(self).auto_scroll,
            final(self).pinned_scroll == old(self).pinned_scroll,
            final(self).messages@ == old(self).messages@,
            final(self).scroll_offset == old(self).scroll_offset,
    {
        self.auto_scroll = true;
    }
}

/// Lines of chat visible: the terminal less the input area and the status
/// line.
pub fn get_chat_visible_height(app: &App) -> (h: usize)
    ensures
        h == (if app.terminal_height >= app.input_area_height + 1 { app.terminal_height - (app.input_area_height + 1) } else { 0 }),
{
    let used = app.input_area_height.saturating_add(1);
    app.terminal_height.saturating_sub(used)
}

/// Leave whatever the application was doing and become idle.
pub fn transition_to_idle(app: &mut App)
    ensures
        final(app).modal.state == AppState::Idle,
        final(app).chat.messages@ == old(app).chat.messages@,
        final(app).editor.input@ == old(app).editor.input@,
        final(app).display == old(app).display,
{
    app.modal.state = AppState::Idle;
}

/// How a compaction task ended.
#[derive(Clone, Debug, PartialEq, Eq)]
pub enum CompactionResult {
    /// Compaction succeeded.
    Success { tokens_before: u32, tokens_after: u32, messages_removed: u32 },
    /// Compaction failed (provider error, serialization error, ...).
    Failed(String),
    /// The compaction task panicked.
    Panicked,
}

impl CompactionResult {
    /// The text shown for the result.
    pub fn to_display_string(&self) -> (s: String)
        ensures
            s@ == (match *self {
                CompactionResult::Success { .. } => "compaction succeeded"@,
                CompactionResult::Failed(m) => "compaction failed: "@ + m@,
                CompactionResult::Panicked => "compaction task panicked"@,
            }),
    {
        match self {
            CompactionResult::Success { .. } => String::from_str("compaction succeeded"),
            CompactionResult::Failed(m) => {
                let mut s = String::from_str("compaction failed: ");
                s.append(m.as_str());
                s
            },
            CompactionResult::Panicked => String::from_str("compaction task panicked"),
        }
    }
}

/// What the background compaction reported.
pub enum CompactionOutcome {
    /// The plan was applied to the session: tokens before and after and
    /// messages removed.
    Applied { tokens_before: u32, tokens_after: u32, messages_removed: u32 },
    /// Applying the plan or computing it failed with this message.
    Error(String),
    /// The task panicked.
    Panicked,
}

/// Record the end of a compaction in the chat and say how it went. With
/// `pinned_scroll_guard` the view follows only when not pinned.
pub fn handle_compaction_result(app: &mut App, outcome: CompactionOutcome, pinned_scroll_guard: bool) -> (r:
    CompactionResult)
    ensures
        final(app).chat.auto_scroll == (old(app).chat.auto_scroll || !pinned_scroll_guard
            || !old(app).chat.pinned_scroll),
        final(app).modal.state == old(app).modal.state,
        final(app).display == old(app).display,
        match outcome {
            CompactionOutcome::Applied { tokens_before, tokens_after, messages_removed } => {
                &&& r == (CompactionResult::Success { tokens_before, tokens_after, messages_removed })
                &&& final(app).chat.messages@.len() == old(app).chat.messages@.len() + 1
                &&& final(app).chat.messages@.take(old(app).chat.messages@.len() as int)
                    == old(app).chat.messages@
                &&& final(app).chat.messages@.last() matches ChatMessage::Compaction { tokens_saved, messages_removed: m }
                    && tokens_saved == (if tokens_before >= tokens_after { tokens_before - tokens_after } else { 0 })
                    && m == messages_removed
            },
            CompactionOutcome::Error(e) => {
                &&& r matches CompactionResult::Failed(m) && m@ == e@
                &&& pushed_system(old(app).chat.messages@, final(app).chat.messages@, "Compaction failed: "@ + e@)
            },
            CompactionOutcome::Panicked => {
                &&& r == CompactionResult::Panicked
                &&& pushed_system(old(app).chat.messages@, final(app).chat.messages@, "Compaction task panicked."@)
            },
        },
{
    let r = match outcome {
        CompactionOutcome::Applied { tokens_before, tokens_after, messages_removed } => {
            let saved = if tokens_before >= tokens_after { tokens_before - tokens_after } else { 0 };
            let ghost before = app.chat.messages@;
            app.chat.messages.push(ChatMessage::Compaction { tokens_saved: saved, messages_removed });
            assert(app.chat.messages@.take(before.len() as int) =~= before);
            CompactionResult::Success { tokens_before, tokens_after, messages_removed }
        },
        CompactionOutcome::Error(e) => {
            let mut m = String::from_str("Compaction failed: ");
            m.append(e.as_str());
            app.chat.add_system_message(m);
            CompactionResult::Failed(e)
        },
        CompactionOutcome::Panicked => {
            app.chat.add_system_message(String::from_str("Compaction task panicked."));
            CompactionResult::Panicked
        },
    };
    if pinned_scroll_guard {
        app.chat.follow_unless_pinned();
    } else {
        app.chat.follow();
    }
    r
}


/// Most characters a paste inserts.
pub const MAX_PASTE_CHARS: usize = 10_000;

/// Control characters (general category Cc), which `char::is_control`
/// recognizes.
pub open spec fn is_control(c: char) -> bool {
    (c as u32) <= 0x1f || (0x7f <= (c as u32) && (c as u32) <= 0x9f)
}

/// The characters of `s` a paste keeps (not control characters, except
/// newline), in order.
pub open spec fn paste_filtered(s: Seq<char>) -> Seq<char>
    decreases s.len(),
{
    if s.len() == 0 {
        Seq::empty()
    } else if !is_control(s.last()) || s.last() == '\n' {
        paste_filtered(s.drop_last()).push(s.last())
    } else {
        paste_filtered(s.drop_last())
    }
}

/// What a paste inserts: the kept characters, at most `MAX_PASTE_CHARS`.
pub open spec fn paste_text(s: Seq<char>) -> Seq<char> {
    let f = paste_filtered(s);
    if f.len() <= MAX_PASTE_CHARS { f } else { f.take(MAX_PASTE_CHARS as int) }
}

/// The characters a paste inserts.
pub fn sanitize_paste(text: &str) -> (r: Vec<char>)
    ensures
        r@ == paste_text(text@),
{
    let cs = crate::text::chars_of(text);
    let mut out: Vec<char> = Vec::new();
    let mut i: usize = 0;
    while i < cs.len()
        invariant
            cs@ == text@,
            i <= cs@.len(),
            out@ == paste_filtered(cs@.take(i as int)),
        decreases cs@.len() - i,
    {
        proof {
            assert(cs@.take(i as int + 1).drop_last() =~= cs@.take(i as int));
            assert(cs@.take(i as int + 1).last() == cs@[i as int]);
        }
        let c = cs[i];
        let v = c as u32;
        let control = v <= 0x1f || (0x7f <= v && v <= 0x9f);
        if !control || c == '\n' {
            out.push(c);
        }
        i = i + 1;
    }
    proof {
        assert(cs@.take(cs@.len() as int) =~= cs@);
    }
    if out.len() > MAX_PASTE_CHARS {
        out.truncate(MAX_PASTE_CHARS);
    }
    out
}

/// Insert pasted text at the cursor, move the cursor after it, and scroll
/// the chat to the bottom.
pub fn paste_into_input(app: &mut App, text: &str)
    requires
        old(app).editor.cursor <= old(app).editor.input@.len(),
        old(app).editor.input@.len() + MAX_PASTE_CHARS <= usize::MAX,
    ensures
        ({
            let p = paste_text(text@);
            let c = old(app).editor.cursor as int;
            &&& final(app).editor.input@ == old(app).editor.input@.take(c) + p + old(app).editor.input@.skip(c)
            &&& final(app).editor.cursor == c + p.len()
        }),
        final(app).chat.scroll_offset == 0,
        final(app).chat.auto_scroll,
        !final(app).chat.pinned_scroll,
        final(app).modal == old(app).modal,
{
    let p = sanitize_paste(text);
    let c = app.editor.cursor;
    let ghost before = app.editor.input@;
    let mut i: usize = 0;
    while i < p.len()
        invariant
            i <= p@.len(),
            p@ == paste_text(text@),
            p@.len() <= MAX_PASTE_CHARS,
            c <= before.len(),
            before.len() + MAX_PASTE_CHARS <= usize::MAX,
            app.editor.input@ == before.take(c as int) + p@.take(i as int) + before.skip(c as int),
            app.modal == old(app).modal,
        decreases p@.len() - i,
    {
        let ghost cur = app.editor.input@;
        app.editor.input.insert(c + i, p[i]);
        proof {
            assert(app.editor.input@ =~= before.take(c as int) + p@.take(i as int + 1) + before.skip(c as int));
        }
        i = i + 1;
    }
    proof {
        assert(p@.take(p@.len() as int) =~= p@);
    }
    app.editor.cursor = c + p.len();
    app.chat.scroll_offset = 0;
    app.chat.pinned_scroll = false;
    app.chat.auto_scroll = true;
}

/// Whether a key ended a compaction the user had running: the state was
/// compacting before the key and is not after it.
pub fn compaction_cancelled_by_key(was_compacting: bool, app: &App) -> (b: bool)
    ensures
        b == (was_compacting && app.modal.state != AppState::Compacting),
{
    was_compacting && app.modal.state != AppState::Compacting
}

/// Report a compaction the user cancelled.
pub fn report_compaction_cancelled(app: &mut App)
    ensures
        pushed_system(old(app).chat.messages@, final(app).chat.messages@, "Compaction cancelled."@),
        final(app).chat.auto_scroll,
        final(app).modal == old(app).modal,
{
    app.chat.add_system_message(String::from_str("Compaction cancelled."));
    app.chat.follow();
}

} // verus!

//! The command palette (Ctrl+G): its commands, how a query selects them,
//! their descriptions, and what running each one does to the application.

use vstd::prelude::*;
use crate::agents_md::{GENERATE_CHAT_MESSAGE, GENERATE_PROMPT};
use crate::app::{pushed_system, App, AppState, ChatMessage};
use crate::display::{hook_name, mode_switch, next_hook, next_thinking, thinking_name};
use crate::hooks::HookRegistry;
use crate::text::{decimal, decimal_string};
use vstd::string::StringExecFns;

verus! {

broadcast use vstd::string::group_string_axioms;

/// A palette command: its id and what it does.
pub struct PaletteCommand {
    pub id: &'static str,
    pub description: &'static str,
}

/// The palette's commands, in display order, as (id, description).
pub open spec fn palette_table() -> Seq<(Seq<char>, Seq<char>)> {
    seq![
        ("new"@, "Start a new session"@),
        ("resume"@, "Resume a previous session"@),
        ("compact"@, "Compact the session context"@),
        ("model"@, "Show model and token usage"@),
        ("clear"@, "Clear the chat"@),
        ("init"@, "Generate AGENTS.md for this project"@),
        ("help"@, "Show keyboard shortcuts"@),
        ("toggle_thinking"@, "Toggle thinking display"@),
        ("toggle_tool_output"@, "Toggle tool output"@),
        ("toggle_hook_mode"@, "Toggle hook display"@),
        ("reload_hooks"@, "Reload hooks from disk"@),
        ("quit"@, "Quit"@),
    ]
}

/// The palette's commands.
pub fn get_palette_commands() -> (v: Vec<PaletteCommand>)
    ensures
        v@.len() == palette_table().len(),
        forall|i: int| 0 <= i < v@.len() ==> (#[trigger] v@[i]).id@ == palette_table()[i].0 && v@[i].description@ == palette_table()[i].1,
{
    let v = vec![
        PaletteCommand { id: "new", description: "Start a new session" },
        PaletteCommand { id: "resume", description: "Resume a previous session" },
        PaletteCommand { id: "compact", description: "Compact the session context" },
        PaletteCommand { id: "model", description: "Show model and token usage" },
        PaletteCommand { id: "clear", description: "Clear the chat" },
        PaletteCommand { id: "init", description: "Generate AGENTS.md for this project" },
        PaletteCommand { id: "help", description: "Show keyboard shortcuts" },
        PaletteCommand { id: "toggle_thinking", description: "Toggle thinking display" },
        PaletteCommand { id: "toggle_tool_output", description: "Toggle tool output" },
        PaletteCommand { id: "toggle_hook_mode", description: "Toggle hook display" },
        PaletteCommand { id: "reload_hooks", description: "Reload hooks from disk" },
        PaletteCommand { id: "quit", description: "Quit" },
    ];
    v
}

/// Whether the characters of `q` occur in `s` in order (not necessarily
/// next to each other), `s` scanned from position `i`.
pub open spec fn subsequence_from(q: Seq<char>, s: Seq<char>, i: int) -> bool
    decreases q.len(), s.len() - i,
{
    if q.len() == 0 {
        true
    } else if i >= s.len() || i < 0 {
        false
    } else if s[i] == q[0] {
        subsequence_from(q.drop_first(), s, i + 1)
    } else {
        subsequence_from(q, s, i + 1)
    }
}

fn is_subsequence(q: &Vec<char>, s: &str) -> (b: bool)
    ensures
        b == subsequence_from(q@, s@, 0),
{
    let cs = crate::text::chars_of(s);
    let mut k: usize = 0;
    let mut i: usize = 0;
    assert(q@.skip(0) =~= q@);
    while i < cs.len() && k < q.len()
        invariant
            cs@ == s@,
            k <= q@.len(),
            i <= cs@.len(),
            subsequence_from(q@, s@, 0) == subsequence_from(q@.skip(k as int), s@, i as int),
        decreases cs@.len() - i,
    {
        proof {
            assert(q@.skip(k as int)[0] == q@[k as int]);
            assert(q@.skip(k as int).drop_first() =~= q@.skip(k as int + 1));
        }
        if cs[i] == q[k] {
            k = k + 1;
        }
        i = i + 1;
    }
    proof {
        if k == q@.len() {
            assert(q@.skip(k as int) =~= Seq::<char>::empty());
        }
    }
    k == q.len()
}

/// Indices into the table of the commands a query selects: those whose id
/// holds the query's characters in order, in table order, at most `limit`.
pub open spec fn matching_indices(q: Seq<char>, limit: nat, k: int) -> Seq<int>
    decreases k,
{
    if k <= 0 {
        Seq::empty()
    } else {
        let prev = matching_indices(q, limit, k - 1);
        if prev.len() < limit && subsequence_from(q, palette_table()[k - 1].0, 0) {
            prev.push(k - 1)
        } else {
            prev
        }
    }
}

/// The commands a palette query selects, at most `limit` of them.
pub fn fuzzy_match_palette_commands(query: &Vec<char>, limit: usize) -> (v: Vec<PaletteCommand>)
    ensures
        v@.len() == matching_indices(query@, limit as nat, palette_table().len() as int).len(),
        forall|j: int|
            0 <= j < v@.len() ==> (#[trigger] v@[j]).id@ == palette_table()[matching_indices(
                query@,
                limit as nat,
                palette_table().len() as int,
            )[j]].0,
{
    let all = get_palette_commands();
    let mut out: Vec<PaletteCommand> = Vec::new();
    let mut k: usize = 0;
    while k < all.len()
        invariant
            all@.len() == palette_table().len(),
            forall|i: int| 0 <= i < all@.len() ==> (#[trigger] all@[i]).id@ == palette_table()[i].0,
            k <= all@.len(),
            out@.len() == matching_indices(query@, limit as nat, k as int).len(),
            forall|j: int|
                0 <= j < out@.len() ==> (#[trigger] out@[j]).id@ == palette_table()[matching_indices(
                    query@,
                    limit as nat,
                    k as int,
                )[j]].0,
            forall|j: int|
                0 <= j < matching_indices(query@, limit as nat, k as int).len() ==> 0 <= #[trigger] matching_indices(
                    query@,
                    limit as nat,
                    k as int,
                )[j] < k,
        decreases all@.len() - k,
    {
        let c = &all[k];
        if out.len() < limit && is_subsequence(query, c.id) {
            out.push(PaletteCommand { id: c.id, description: c.description });
        }
        k = k + 1;
    }
    out
}

/// Index of the first table entry with this id, or -1.
pub open spec fn first_id_index(t: Seq<(Seq<char>, Seq<char>)>, id: Seq<char>, k: int) -> int
    decreases t.len() - k,
{
    if k < 0 || k >= t.len() {
        -1
    } else if t[k].0 == id {
        k
    } else {
        first_id_index(t, id, k + 1)
    }
}

/// The static description of the command `id` ("" for an unknown id).
pub open spec fn static_description(id: Seq<char>) -> Seq<char> {
    let k = first_id_index(palette_table(), id, 0);
    if k < 0 {
        Seq::empty()
    } else {
        palette_table()[k].1
    }
}

proof fn lemma_first_id_index_range(t: Seq<(Seq<char>, Seq<char>)>, id: Seq<char>, k: int)
    requires
        0 <= k,
    ensures
        first_id_index(t, id, k) == -1 || (k <= first_id_index(t, id, k) < t.len() && t[first_id_index(t, id, k)].0 == id),
    decreases t.len() - k,
{
    if k < t.len() && t[k].0 != id {
        lemma_first_id_index_range(t, id, k + 1);
    }
}

/// The static description of the command `id` ("" for an unknown id).
pub fn static_palette_description(id: &str) -> (s: String)
    ensures
        s@ == static_description(id@),
{
    let all = get_palette_commands();
    let mut k: usize = 0;
    while k < all.len()
        invariant
            all@.len() == palette_table().len(),
            forall|i: int| 0 <= i < all@.len() ==> (#[trigger] all@[i]).id@ == palette_table()[i].0 && all@[i].description@ == palette_table()[i].1,
            k <= all@.len(),
            first_id_index(palette_table(), id@, 0) == first_id_index(palette_table(), id@, k as int),
        decreases all@.len() - k,
    {
        if crate::config::str_equal(all[k].id, id) {
            return String::from_str(all[k].description);
        }
        k = k + 1;
    }
    proof {
        reveal_strlit("");
    }
    String::from_str("")
}

/// What the application must do after a palette command, beyond the
/// changes the command made to its state.
pub enum PaletteAction {
    /// Nothing more.
    Nothing,
    /// Quit the application.
    Quit,
    /// Start a new session store (the chat was cleared).
    NewSession,
    /// List the saved sessions and hand the count to `show_session_list`.
    ListSessions,
    /// Run the compaction of the session in the background.
    StartCompaction,
    /// Run an agent turn with this input.
    RunTurn(String),
    /// Persist the display settings.
    SaveConfig,
    /// Load the hooks again and hand them to `apply_reloaded_hooks`.
    ReloadHooks,
}

/// The text of the `model` command: model, context window, context usage
/// and session totals. The usage is the exact share of the window in whole
/// percent, rounded down (`input * 100 / window` in integers), so 29 tokens
/// of 100 show as 29%; a computation in floating point can land just below
/// the whole number and show one percent less.
pub open spec fn model_info(name: Seq<char>, cw: u32, input: u32, sin: u32, sout: u32) -> Seq<char> {
    let pct: nat = if cw > 0 { ((input as nat) * 100 / (cw as nat)) as nat } else { 0 };
    "Model: "@ + name + "\nContext window: "@ + decimal(cw as nat) + " tokens\nContext usage: "@ + decimal(pct)
        + "% ("@ + decimal(input as nat) + " input tokens)\nSession totals: ↑"@ + decimal(sin as nat)
        + " input ↓"@ + decimal(sout as nat) + " output"@
}

fn model_info_string(app: &App) -> (s: String)
    ensures
        s@ == model_info(
            app.model_name@,
            app.context_window,
            app.usage.request_input_tokens,
            app.usage.session_input_tokens,
            app.usage.session_output_tokens,
        ),
{
    let cw = app.context_window;
    let input = app.usage.request_input_tokens;
    let pct: u64 = if cw > 0 { (input as u64) * 100 / (cw as u64) } else { 0 };
    let ghost name = app.model_name@;
    let ghost p1 = "Model: "@;
    let ghost p2 = "\nContext window: "@;
    let ghost p3 = " tokens\nContext usage: "@;
    let ghost p4 = "% ("@;
    let ghost p5 = " input tokens)\nSession totals: ↑"@;
    let ghost p6 = " input ↓"@;
    let ghost p7 = " output"@;
    let d1 = decimal_string(cw as u64);
    let d2 = decimal_string(pct);
    let d3 = decimal_string(input as u64);
    let d4 = decimal_string(app.usage.session_input_tokens as u64);
    let d5 = decimal_string(app.usage.session_output_tokens as u64);
    let mut s = String::from_str("Model: ");
    s.append(app.model_name.as_str());
    s.append("\nContext window: ");
    s.append(d1.as_str());
    s.append(" tokens\nContext usage: ");
    s.append(d2.as_str());
    s.append("% (");
    s.append(d3.as_str());
    s.append(" input tokens)\nSession totals: ↑");
    s.append(d4.as_str());
    s.append(" input ↓");
    s.append(d5.as_str());
    s.append(" output");
    proof {
        let pctn: nat = if cw > 0 { ((input as nat) * 100 / (cw as nat)) as nat } else { 0 };
        assert(pct as nat == pctn);
        assert(s@ =~= p1 + name + p2 + d1@ + p3 + d2@ + p4 + d3@ + p5 + d4@ + p6 + d5@ + p7);
    }
    s
}


/// The description shown for a palette command: for the three toggles, the
/// switch they would make now; otherwise the command's static description.
pub open spec fn description_for(id: Seq<char>, app: App) -> Seq<char> {
    if id == "toggle_thinking"@ {
        "Toggle thinking display "@ + mode_switch(
            thinking_name(app.display.thinking_display),
            thinking_name(next_thinking(app.display.thinking_display)),
        )
    } else if id == "toggle_tool_output"@ {
        if app.display.tool_output_expanded {
            "Toggle tool output [expanded → collapsed]"@
        } else {
            "Toggle tool output [collapsed → expanded]"@
        }
    } else if id == "toggle_hook_mode"@ {
        "Toggle hook display "@ + mode_switch(
            hook_name(app.display.hook_display),
            hook_name(next_hook(app.display.hook_display)),
        )
    } else {
        static_description(id)
    }
}

/// The description of a palette command, with the current state of toggles.
pub fn get_palette_command_description(id: &str, app: &App) -> (s: String)
    ensures
        s@ == description_for(id@, *app),
{
    if crate::config::str_equal(id, "toggle_thinking") {
        let mut s = String::from_str("Toggle thinking display ");
        s.append(app.display.thinking_display.palette_mode_display().as_str());
        s
    } else if crate::config::str_equal(id, "toggle_tool_output") {
        if app.display.tool_output_expanded {
            String::from_str("Toggle tool output [expanded → collapsed]")
        } else {
            String::from_str("Toggle tool output [collapsed → expanded]")
        }
    } else if crate::config::str_equal(id, "toggle_hook_mode") {
        let mut s = String::from_str("Toggle hook display ");
        s.append(app.display.hook_display.palette_mode_display().as_str());
        s
    } else {
        static_palette_description(id)
    }
}

/// The parts of the application no palette command touches.
pub open spec fn palette_frame(a: App, b: App) -> bool {
    &&& b.editor == a.editor
    &&& b.model_name == a.model_name
    &&& b.context_window == a.context_window
    &&& b.cwd == a.cwd
    &&& b.sent_messages == a.sent_messages
}

/// Only the chat changed, by one system message at its end, and the view
/// follows it.
pub open spec fn only_message(a: App, b: App, text: Seq<char>) -> bool {
    &&& palette_frame(a, b)
    &&& b.modal == a.modal
    &&& b.display == a.display
    &&& b.usage == a.usage
    &&& b.has_active_session == a.has_active_session
    &&& b.active_skills == a.active_skills
    &&& b.hook_registry == a.hook_registry
    &&& pushed_system(a.chat.messages@, b.chat.messages@, text)
    &&& b.chat.auto_scroll
    &&& b.chat.pinned_scroll == a.chat.pinned_scroll
}

/// Nothing changed but possibly the listed parts.
pub open spec fn unchanged_but_modal_chat_display(a: App, b: App) -> bool {
    &&& palette_frame(a, b)
    &&& b.usage == a.usage
    &&& b.has_active_session == a.has_active_session
    &&& b.active_skills == a.active_skills
    &&& b.hook_registry == a.hook_registry
}

/// What running the palette command `id` does.
pub open spec fn palette_command_ok(a: App, b: App, id: Seq<char>, act: PaletteAction) -> bool {
    if id == "new"@ {
        if a.has_active_session {
            &&& act is NewSession
            &&& palette_frame(a, b)
            &&& b.chat.messages@.len() == 0
            &&& b.active_skills@.len() == 0
            &&& b.usage == (crate::app::UsageState {
                request_input_tokens: 0,
                request_output_tokens: 0,
                session_input_tokens: 0,
                session_output_tokens: 0,
            })
            &&& !b.has_active_session
            &&& b.modal == a.modal
            &&& b.display == a.display
        } else {
            act is Nothing && b == a
        }
    } else if id == "resume"@ {
        act is ListSessions && b == a
    } else if id == "quit"@ || id == "q"@ {
        act is Quit && b == a
    } else if id == "compact"@ {
        if a.has_active_session {
            &&& act is StartCompaction
            &&& b.modal.state == AppState::Compacting
            &&& pushed_system(a.chat.messages@, b.chat.messages@, "Compacting session context..."@)
            &&& b.chat.auto_scroll
            &&& unchanged_but_modal_chat_display(a, b)
            &&& b.display == a.display
        } else {
            act is Nothing && only_message(a, b, "No active session to compact."@)
        }
    } else if id == "help"@ || id == "h"@ {
        &&& act is Nothing
        &&& b.modal.state == AppState::HelpPopup
        &&& b.chat == a.chat
        &&& b.display == a.display
        &&& unchanged_but_modal_chat_display(a, b)
    } else if id == "model"@ {
        act is Nothing && only_message(
            a,
            b,
            model_info(
                a.model_name@,
                a.context_window,
                a.usage.request_input_tokens,
                a.usage.session_input_tokens,
                a.usage.session_output_tokens,
            ),
        )
    } else if id == "clear"@ {
        &&& act is Nothing
        &&& b.chat.messages@.len() == 0
        &&& b.modal == a.modal
        &&& b.display == a.display
        &&& unchanged_but_modal_chat_display(a, b)
    } else if id == "init"@ {
        &&& act matches PaletteAction::RunTurn(p) && p@ == GENERATE_PROMPT@
        &&& b.chat.messages@.len() == a.chat.messages@.len() + 1
        &&& b.chat.messages@.take(a.chat.messages@.len() as int) == a.chat.messages@
        &&& b.chat.messages@.last() matches ChatMessage::User(u) && u@ == GENERATE_CHAT_MESSAGE@
        &&& b.modal == a.modal
        &&& b.display == a.display
        &&& unchanged_but_modal_chat_display(a, b)
    } else if id == "toggle_thinking"@ {
        &&& act is SaveConfig
        &&& b.display.thinking_display == next_thinking(a.display.thinking_display)
        &&& b.display.hook_display == a.display.hook_display
        &&& b.display.tool_output_expanded == a.display.tool_output_expanded
        &&& b.chat.auto_scroll
        &&& b.chat.messages@ == a.chat.messages@
        &&& b.chat.pinned_scroll == a.chat.pinned_scroll
        &&& b.modal == a.modal
        &&& unchanged_but_modal_chat_display(a, b)
    } else if id == "toggle_tool_output"@ {
        &&& act is SaveConfig
        &&& b.display.tool_output_expanded == !a.display.tool_output_expanded
        &&& b.display.thinking_display == a.display.thinking_display
        &&& b.display.hook_display == a.display.hook_display
        &&& b.chat == a.chat
        &&& b.modal == a.modal
        &&& unchanged_but_modal_chat_display(a, b)
    } else if id == "toggle_hook_mode"@ {
        &&& act is SaveConfig
        &&& b.display.hook_display == next_hook(a.display.hook_display)
        &&& b.display.thinking_display == a.display.thinking_display
        &&& b.display.tool_output_expanded == a.display.tool_output_expanded
        &&& b.chat == a.chat
        &&& b.modal == a.modal
        &&& unchanged_but_modal_chat_display(a, b)
    } else if id == "reload_hooks"@ {
        act is ReloadHooks && b == a
    } else {
        act is Nothing && only_message(a, b, "Unknown command: "@ + id)
    }
}

/// Run the palette command `cmd_id`: apply its effect on the application
/// and say what else must be done.
pub fn execute_palette_command(app: &mut App, cmd_id: &str) -> (act: PaletteAction)
    ensures
        palette_command_ok(*old(app), *final(app), cmd_id@, act),
{
    proof {
        reveal_strlit("new");
        reveal_strlit("resume");
        reveal_strlit("quit");
        reveal_strlit("q");
        reveal_strlit("compact");
        reveal_strlit("help");
        reveal_strlit("h");
        reveal_strlit("model");
        reveal_strlit("clear");
        reveal_strlit("init");
        reveal_strlit("toggle_thinking");
        reveal_strlit("toggle_tool_output");
        reveal_strlit("toggle_hook_mode");
        reveal_strlit("reload_hooks");
    }
    let ghost a = *app;
    if crate::config::str_equal(cmd_id, "new") {
        if app.has_active_session {
            app.chat.messages = Vec::new();
            app.active_skills = Vec::new();
            app.usage = crate::app::UsageState {
                request_input_tokens: 0,
                request_output_tokens: 0,
                session_input_tokens: 0,
                session_output_tokens: 0,
            };
            app.has_active_session = false;
            return PaletteAction::NewSession;
        }
        return PaletteAction::Nothing;
    }
    if crate::config::str_equal(cmd_id, "resume") {
        return PaletteAction::ListSessions;
    }
    if crate::config::str_equal(cmd_id, "quit") || crate::config::str_equal(cmd_id, "q") {
        return PaletteAction::Quit;
    }
    if crate::config::str_equal(cmd_id, "compact") {
        if app.has_active_session {
            app.modal.state = AppState::Compacting;
            app.chat.add_system_message(String::from_str("Compacting session context..."));
            app.chat.follow();
            return PaletteAction::StartCompaction;
        }
        app.chat.add_system_message(String::from_str("No active session to compact."));
        app.chat.follow();
        return PaletteAction::Nothing;
    }
    if crate::config::str_equal(cmd_id, "help") || crate::config::str_equal(cmd_id, "h") {
        app.modal.state = AppState::HelpPopup;
        return PaletteAction::Nothing;
    }
    if crate::config::str_equal(cmd_id, "model") {
        let info = model_info_string(app);
        app.chat.add_system_message(info);
        app.chat.follow();
        return PaletteAction::Nothing;
    }
    if crate::config::str_equal(cmd_id, "clear") {
        app.chat.messages = Vec::new();
        return PaletteAction::Nothing;
    }
    if crate::config::str_equal(cmd_id, "init") {
        let ghost before = app.chat.messages@;
        app.chat.messages.push(ChatMessage::User(String::from_str(GENERATE_CHAT_MESSAGE)));
        assert(app.chat.messages@.take(before.len() as int) =~= before);
        return PaletteAction::RunTurn(String::from_str(GENERATE_PROMPT));
    }
    if crate::config::str_equal(cmd_id, "toggle_thinking") {
        app.display.thinking_display = app.display.thinking_display.toggle();
        app.chat.follow();
        return PaletteAction::SaveConfig;
    }
    if crate::config::str_equal(cmd_id, "toggle_tool_output") {
        app.display.tool_output_expanded = !app.display.tool_output_expanded;
        return PaletteAction::SaveConfig;
    }
    if crate::config::str_equal(cmd_id, "toggle_hook_mode") {
        app.display.hook_display = app.display.hook_display.toggle();
        return PaletteAction::SaveConfig;
    }
    if crate::config::str_equal(cmd_id, "reload_hooks") {
        return PaletteAction::ReloadHooks;
    }
    let mut m = String::from_str("Unknown command: ");
    m.append(cmd_id);
    app.chat.add_system_message(m);
    app.chat.follow();
    PaletteAction::Nothing
}

/// After `resume` listed `count` saved sessions: open the session list, or
/// say that there is none.
pub fn show_session_list(app: &mut App, count: usize)
    ensures
        count == 0 ==> only_message(*old(app), *final(app), "No sessions found. Send a message to create one."@),
        count > 0 ==> final(app).modal.state == AppState::SessionSelect && final(app).modal.session_select_index == 0
            && final(app).modal.session_count == count && final(app).chat == old(app).chat,
{
    if count == 0 {
        app.chat.add_system_message(String::from_str("No sessions found. Send a message to create one."));
        app.chat.follow();
    } else {
        app.modal.session_count = count;
        app.modal.session_select_index = 0;
        app.modal.state = AppState::SessionSelect;
    }
}

/// After `reload_hooks` loaded `registry`: install it and report how many
/// hooks are active.
pub fn apply_reloaded_hooks(app: &mut App, registry: HookRegistry)
    requires
        registry.total() <= usize::MAX,
    ensures
        final(app).hook_registry == registry,
        final(app).chat.messages@.len() == old(app).chat.messages@.len() + 1,
        final(app).chat.messages@.last() matches ChatMessage::System(s)
            && s@ == "Hooks reloaded: "@ + decimal(registry.total()) + " active"@,
        final(app).chat.auto_scroll,
{
    let n = registry.total_count();
    app.hook_registry = registry;
    let mut m = String::from_str("Hooks reloaded: ");
    m.append(decimal_string(n as u64).as_str());
    m.append(" active");
    app.chat.add_system_message(m);
    app.chat.follow();
}

} // verus!

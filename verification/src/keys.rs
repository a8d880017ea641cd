//! Key handling: a key event model, the composable layers (global and
//! modal shortcuts, list navigation, state transitions, input editing) and
//! the handler of each application state.

use vstd::prelude::*;
use crate::app::{get_chat_visible_height, App, AppState, ChatState, DisplayState, ModalState};
use crate::display::next_thinking;
use crate::app::{pushed_system, AutocompleteMode, ChatMessage, EditorState};
use crate::palette::{
    execute_palette_command, fuzzy_match_palette_commands, matching_indices, palette_command_ok, palette_table,
    PaletteAction,
};
use crate::agents_md::{GENERATE_CHAT_MESSAGE, GENERATE_PROMPT};
use vstd::string::StringExecFns;
use crate::text::chars_of;

verus! {

/// A key, as the terminal reports it.
#[derive(Clone, Copy, Debug, PartialEq, Eq, Structural)]
pub enum KeyCode {
    Char(char),
    Enter,
    Esc,
    Backspace,
    Delete,
    Left,
    Right,
    Up,
    Down,
    Home,
    End,
    PageUp,
    PageDown,
    Tab,
    F(u8),
    Other,
}

/// A key press with its modifiers.
#[derive(Clone, Copy, Debug, PartialEq, Eq, Structural)]
pub struct KeyEvent {
    pub code: KeyCode,
    pub ctrl: bool,
    pub shift: bool,
    pub alt: bool,
}

/// Outcome of a layer that can quit.
#[derive(Clone, Copy, Debug, PartialEq, Eq, Structural)]
pub enum KeyEventResult {
    /// Quit the application.
    Quit,
    /// The key was handled.
    Handled,
    /// The key was handled and the display settings must be saved.
    HandledSaveConfig,
    /// The key was not handled.
    Unhandled,
}

/// Whether `key` is Ctrl+`c`.
pub open spec fn is_ctrl_char(key: KeyEvent, c: char) -> bool {
    key.code == KeyCode::Char(c) && key.ctrl
}

/// Ctrl+D quits in every state.
pub fn handle_global_shortcuts(key: &KeyEvent) -> (r: KeyEventResult)
    ensures
        r == (if is_ctrl_char(*key, 'd') { KeyEventResult::Quit } else { KeyEventResult::Unhandled }),
{
    if key.code == KeyCode::Char('d') && key.ctrl {
        KeyEventResult::Quit
    } else {
        KeyEventResult::Unhandled
    }
}

/// The keys [`handle_ui_shortcuts`] reacts to: F1, Ctrl+O, Ctrl+/ and Ctrl+T.
pub open spec fn is_ui_shortcut(key: KeyEvent) -> bool {
    key.code == KeyCode::F(1) || is_ctrl_char(key, 'o') || is_ctrl_char(key, '/') || is_ctrl_char(key, 't')
}

/// What a UI shortcut does: F1 opens help; Ctrl+O or Ctrl+/ cycles the
/// thinking display and follows the chat; Ctrl+T toggles tool output;
/// other keys change nothing.
pub open spec fn ui_shortcuts_handled(a: App, b: App, key: KeyEvent, r: KeyEventResult) -> bool {
    &&& keeps_session(a, b)
    &&& b.editor == a.editor
    &&& b.sent_messages == a.sent_messages
    &&& if key.code == KeyCode::F(1) {
        &&& r == KeyEventResult::Handled
        &&& b == (App { modal: ModalState { state: AppState::HelpPopup, ..a.modal }, ..a })
    } else if is_ctrl_char(key, 'o') || is_ctrl_char(key, '/') {
        &&& r == KeyEventResult::HandledSaveConfig
        &&& b.display == (DisplayState { thinking_display: next_thinking(a.display.thinking_display), ..a.display })
        &&& b.chat == (ChatState { auto_scroll: true, ..a.chat })
        &&& b.modal == a.modal
    } else if is_ctrl_char(key, 't') {
        &&& r == KeyEventResult::HandledSaveConfig
        &&& b == (App {
            display: DisplayState { tool_output_expanded: !a.display.tool_output_expanded, ..a.display },
            ..a
        })
    } else {
        r == KeyEventResult::Unhandled && b == a
    }
}

/// The UI shortcuts that are safe while the agent streams: F1 opens help,
/// Ctrl+O or Ctrl+/ cycles the thinking display, Ctrl+T toggles tool
/// output. Settings changes ask for the configuration to be saved.
pub fn handle_ui_shortcuts(app: &mut App, key: &KeyEvent) -> (r: KeyEventResult)
    ensures
        ui_shortcuts_handled(*old(app), *final(app), *key, r),
{
    if key.code == KeyCode::F(1) {
        app.modal.state = AppState::HelpPopup;
        return KeyEventResult::Handled;
    }
    if (key.code == KeyCode::Char('o') || key.code == KeyCode::Char('/')) && key.ctrl {
        app.display.thinking_display = app.display.thinking_display.toggle();
        app.chat.follow();
        return KeyEventResult::HandledSaveConfig;
    }
    if key.code == KeyCode::Char('t') && key.ctrl {
        app.display.tool_output_expanded = !app.display.tool_output_expanded;
        return KeyEventResult::HandledSaveConfig;
    }
    KeyEventResult::Unhandled
}

/// A modal (session list, init popup, command palette, help) is open.
pub open spec fn modal_open(s: AppState) -> bool {
    s == AppState::SessionSelect || s == AppState::InitPopup || s == AppState::CommandPalette || s
        == AppState::HelpPopup
}

/// Rows of chat a page scroll moves: the terminal less the input area and
/// the status line.
pub open spec fn chat_page(a: App) -> nat {
    if a.terminal_height >= a.input_area_height + 1 {
        (a.terminal_height - (a.input_area_height + 1)) as nat
    } else {
        0
    }
}

/// What the modal layer does with a key: Ctrl+D quits; with a modal open
/// nothing else happens; otherwise the UI shortcuts, then PgUp (scroll up a
/// page and pin the view) and PgDown (scroll down a page, following the
/// chat again at the bottom).
pub open spec fn modal_layer_handled(a: App, b: App, key: KeyEvent, r: KeyEventResult) -> bool {
    if is_ctrl_char(key, 'd') {
        r == KeyEventResult::Quit && b == a
    } else if modal_open(a.modal.state) {
        r == KeyEventResult::Unhandled && b == a
    } else if is_ui_shortcut(key) {
        ui_shortcuts_handled(a, b, key, r)
    } else if key.code == KeyCode::PageUp {
        let up = a.chat.scroll_offset + chat_page(a);
        &&& r == KeyEventResult::Handled
        &&& b == (App {
            chat: ChatState {
                scroll_offset: (if up > usize::MAX { usize::MAX as int } else { up }) as usize,
                pinned_scroll: true,
                auto_scroll: false,
                ..a.chat
            },
            ..a
        })
    } else if key.code == KeyCode::PageDown {
        let down = a.chat.scroll_offset - chat_page(a);
        let bottom = down <= 0;
        &&& r == KeyEventResult::Handled
        &&& b == (App {
            chat: ChatState {
                scroll_offset: (if bottom { 0 } else { down }) as usize,
                pinned_scroll: if bottom { false } else { a.chat.pinned_scroll },
                auto_scroll: if bottom { true } else { a.chat.auto_scroll },
                ..a.chat
            },
            ..a
        })
    } else {
        r == KeyEventResult::Unhandled && b == a
    }
}

/// Global shortcuts that modals block.
pub struct ModalLayer;

impl ModalLayer {
    /// The layer (it has no configuration).
    pub fn new() -> (l: ModalLayer) {
        ModalLayer
    }

    /// Whether a modal is open.
    pub fn is_modal_open(&self, app: &App) -> (b: bool)
        ensures
            b == modal_open(app.modal.state),
    {
        match app.modal.state {
            AppState::SessionSelect | AppState::InitPopup | AppState::CommandPalette | AppState::HelpPopup => true,
            _ => false,
        }
    }

    /// Ctrl+D quits even in modals; with a modal open nothing else is
    /// handled here; otherwise the UI shortcuts, then PgUp/PgDown scroll
    /// the chat by its visible height.
    pub fn handle(&self, app: &mut App, key: &KeyEvent) -> (r: KeyEventResult)
        ensures
            modal_layer_handled(*old(app), *final(app), *key, r),
    {
        if key.code == KeyCode::Char('d') && key.ctrl {
            return KeyEventResult::Quit;
        }
        if self.is_modal_open(app) {
            return KeyEventResult::Unhandled;
        }
        let r = handle_ui_shortcuts(app, key);
        if r != KeyEventResult::Unhandled {
            return r;
        }
        match key.code {
            KeyCode::PageUp => {
                let page = get_chat_visible_height(app);
                app.chat.scroll_up(page);
                KeyEventResult::Handled
            },
            KeyCode::PageDown => {
                let page = get_chat_visible_height(app);
                app.chat.scroll_down(page);
                KeyEventResult::Handled
            },
            _ => KeyEventResult::Unhandled,
        }
    }
}

/// The index above `current` in a list of `count` items, wrapping to the
/// last one.
pub open spec fn index_up(current: nat, count: nat) -> nat {
    if current > 0 { (current - 1) as nat } else { (count - 1) as nat }
}

/// The index below `current` in a list of `count` items, wrapping to the
/// first one.
pub open spec fn index_down(current: nat, count: nat) -> nat {
    if current + 1 >= count { 0 } else { current + 1 }
}

/// Which list the navigation layer moves through.
#[derive(Clone, Copy, Debug, PartialEq, Eq, Structural)]
pub enum NavTarget {
    /// The command palette's matches.
    Palette,
    /// The session list.
    Sessions,
    /// The init popup's Yes/No.
    InitPopup,
}

/// The selected index of a list.
pub open spec fn nav_selected(app: App, t: NavTarget) -> usize {
    match t {
        NavTarget::Palette => app.modal.palette_selected,
        NavTarget::Sessions => app.modal.session_select_index,
        NavTarget::InitPopup => app.modal.popup_selection,
    }
}

/// List navigation: Up/`k` and Shift+Tab move up, Down/`j` and Tab move
/// down, both wrapping around; an empty list does not move.
pub struct NavigationLayer {
    pub item_count: usize,
    pub target: NavTarget,
}

/// The move a key makes in a list, if any: `Some(true)` up, `Some(false)`
/// down.
pub open spec fn nav_direction(key: KeyEvent) -> Option<bool> {
    match key.code {
        KeyCode::Up | KeyCode::Char('k') => Some(true),
        KeyCode::Down | KeyCode::Char('j') => Some(false),
        KeyCode::Tab => Some(key.shift),
        _ => None,
    }
}

/// Whether `key` moves through a list.
pub fn is_nav_key(key: &KeyEvent) -> (b: bool)
    ensures
        b == nav_direction(*key) is Some,
{
    match key.code {
        KeyCode::Up | KeyCode::Char('k') | KeyCode::Down | KeyCode::Char('j') | KeyCode::Tab => true,
        _ => false,
    }
}

impl NavigationLayer {
    /// A layer over a list of `item_count` items.
    pub fn new(item_count: usize, target: NavTarget) -> (l: NavigationLayer)
        ensures
            l.item_count == item_count,
            l.target == target,
    {
        NavigationLayer { item_count, target }
    }

    fn set_selected(&self, app: &mut App, idx: usize)
        ensures
            nav_selected(*final(app), self.target) == idx,
            forall|t: NavTarget| t != self.target ==> nav_selected(*final(app), t) == nav_selected(*old(app), t),
            final(app).modal.state == old(app).modal.state,
            final(app).modal.palette_query == old(app).modal.palette_query,
            final(app).modal.palette_scroll_offset == old(app).modal.palette_scroll_offset,
            final(app).editor == old(app).editor,
            final(app).chat == old(app).chat,
            final(app).display == old(app).display,
            final(app).sent_messages == old(app).sent_messages,
            keeps_session(*old(app), *final(app)),
    {
        match self.target {
            NavTarget::Palette => app.modal.palette_selected = idx,
            NavTarget::Sessions => app.modal.session_select_index = idx,
            NavTarget::InitPopup => app.modal.popup_selection = idx,
        }
    }

    fn get_selected(&self, app: &App) -> (i: usize)
        ensures
            i == nav_selected(*app, self.target),
    {
        match self.target {
            NavTarget::Palette => app.modal.palette_selected,
            NavTarget::Sessions => app.modal.session_select_index,
            NavTarget::InitPopup => app.modal.popup_selection,
        }
    }

    /// Move up, wrapping to the last item.
    pub fn navigate_up(&self, app: &mut App)
        ensures
            self.item_count == 0 ==> *final(app) == *old(app),
            self.item_count > 0 ==> nav_selected(*final(app), self.target) == index_up(
                nav_selected(*old(app), self.target) as nat,
                self.item_count as nat,
            ),
            forall|t: NavTarget| t != self.target ==> nav_selected(*final(app), t) == nav_selected(*old(app), t),
            final(app).modal.state == old(app).modal.state,
            final(app).modal.palette_query == old(app).modal.palette_query,
            final(app).modal.palette_scroll_offset == old(app).modal.palette_scroll_offset,
            final(app).editor == old(app).editor,
            final(app).chat == old(app).chat,
            final(app).display == old(app).display,
            final(app).sent_messages == old(app).sent_messages,
            keeps_session(*old(app), *final(app)),
    {
        if self.item_count == 0 {
            return;
        }
        let current = self.get_selected(app);
        let new_index = if current > 0 { current - 1 } else { self.item_count - 1 };
        self.set_selected(app, new_index);
    }

    /// Move down, wrapping to the first item.
    pub fn navigate_down(&self, app: &mut App)
        ensures
            self.item_count == 0 ==> *final(app) == *old(app),
            self.item_count > 0 ==> nav_selected(*final(app), self.target) == index_down(
                nav_selected(*old(app), self.target) as nat,
                self.item_count as nat,
            ),
            forall|t: NavTarget| t != self.target ==> nav_selected(*final(app), t) == nav_selected(*old(app), t),
            final(app).modal.state == old(app).modal.state,
            final(app).modal.palette_query == old(app).modal.palette_query,
            final(app).modal.palette_scroll_offset == old(app).modal.palette_scroll_offset,
            final(app).editor == old(app).editor,
            final(app).chat == old(app).chat,
            final(app).display == old(app).display,
            final(app).sent_messages == old(app).sent_messages,
            keeps_session(*old(app), *final(app)),
    {
        if self.item_count == 0 {
            return;
        }
        let current = self.get_selected(app);
        let new_index = if current >= self.item_count - 1 { 0 } else { current + 1 };
        self.set_selected(app, new_index);
    }

    /// Handle a navigation key. Returns whether the key caused a quit,
    /// which it never does.
    pub fn handle(&self, app: &mut App, key: &KeyEvent) -> (quit: bool)
        ensures
            !quit,
            nav_direction(*key) == Some(true) && self.item_count > 0 ==> nav_selected(*final(app), self.target)
                == index_up(nav_selected(*old(app), self.target) as nat, self.item_count as nat),
            nav_direction(*key) == Some(false) && self.item_count > 0 ==> nav_selected(*final(app), self.target)
                == index_down(nav_selected(*old(app), self.target) as nat, self.item_count as nat),
            nav_direction(*key) is None || self.item_count == 0 ==> *final(app) == *old(app),
            forall|t: NavTarget| t != self.target ==> nav_selected(*final(app), t) == nav_selected(*old(app), t),
            final(app).modal.state == old(app).modal.state,
            final(app).modal.palette_query == old(app).modal.palette_query,
            final(app).modal.palette_scroll_offset == old(app).modal.palette_scroll_offset,
            final(app).editor == old(app).editor,
            final(app).chat == old(app).chat,
            final(app).display == old(app).display,
            final(app).sent_messages == old(app).sent_messages,
            keeps_session(*old(app), *final(app)),
    {
        match key.code {
            KeyCode::Up | KeyCode::Char('k') => {
                self.navigate_up(app);
            },
            KeyCode::Down | KeyCode::Char('j') => {
                self.navigate_down(app);
            },
            KeyCode::Tab => {
                if key.shift {
                    self.navigate_up(app);
                } else {
                    self.navigate_down(app);
                }
            },
            _ => {},
        }
        false
    }
}

/// Law: in a non-empty list, moving down then up returns to the same item.
pub proof fn law_navigation_down_up_returns(current: nat, count: nat)
    requires
        current < count,
    ensures
        index_up(index_down(current, count), count) == current,
        index_down(index_up(current, count), count) == current,
        index_down(current, count) < count,
        index_up(current, count) < count,
{
}

/// The state transitions a state can react to.
#[derive(Clone, Copy, Debug, PartialEq, Eq, Structural)]
pub enum Transition {
    CtrlG,
    CtrlC,
    CtrlK,
    AltEnter,
    ShiftEnter,
    Esc,
    Enter,
}

/// Which transitions a state reacts to.
#[derive(Clone, Copy, Debug, PartialEq, Eq, Structural)]
pub struct StateTransitionLayer {
    pub enter: bool,
    pub esc: bool,
    pub ctrl_c: bool,
    pub ctrl_k: bool,
    pub alt_enter: bool,
    pub shift_enter: bool,
    pub ctrl_g: bool,
}

/// Actions the outer handler takes after a transition.
#[derive(Clone, Debug, PartialEq, Eq)]
pub enum TransitionAction {
    /// Send the message in the input.
    Send,
    /// Run a turn with this input.
    RunTurnWithInput(String),
    /// Nothing more: the transition changed the state.
    Stay,
}

/// The transition `key` fires in a layer, checked in the order Ctrl+G,
/// Ctrl+C, Ctrl+K, Alt+Enter, Shift+Enter, Esc, Enter (Enter without Shift
/// or Alt).
pub open spec fn transition_for(l: StateTransitionLayer, key: KeyEvent) -> Option<Transition> {
    if is_ctrl_char(key, 'g') && l.ctrl_g {
        Some(Transition::CtrlG)
    } else if is_ctrl_char(key, 'c') && l.ctrl_c {
        Some(Transition::CtrlC)
    } else if is_ctrl_char(key, 'k') && l.ctrl_k {
        Some(Transition::CtrlK)
    } else if key.code == KeyCode::Enter && key.alt && l.alt_enter {
        Some(Transition::AltEnter)
    } else if key.code == KeyCode::Enter && key.shift && l.shift_enter {
        Some(Transition::ShiftEnter)
    } else if key.code == KeyCode::Esc && l.esc {
        Some(Transition::Esc)
    } else if key.code == KeyCode::Enter && !key.shift && !key.alt && l.enter {
        Some(Transition::Enter)
    } else {
        None
    }
}

/// The layer once `t` has fired: each transition fires at most once, so
/// the one that fired is no longer armed.
pub open spec fn used_up(l: StateTransitionLayer, t: Option<Transition>) -> StateTransitionLayer {
    match t {
        None => l,
        Some(Transition::CtrlG) => StateTransitionLayer { ctrl_g: false, ..l },
        Some(Transition::CtrlC) => StateTransitionLayer { ctrl_c: false, ..l },
        Some(Transition::CtrlK) => StateTransitionLayer { ctrl_k: false, ..l },
        Some(Transition::AltEnter) => StateTransitionLayer { alt_enter: false, ..l },
        Some(Transition::ShiftEnter) => StateTransitionLayer { shift_enter: false, ..l },
        Some(Transition::Esc) => StateTransitionLayer { esc: false, ..l },
        Some(Transition::Enter) => StateTransitionLayer { enter: false, ..l },
    }
}

/// Law: a transition a layer has fired does not fire again from the same
/// layer, whatever key comes next.
pub proof fn law_transition_fires_once(l: StateTransitionLayer, first: KeyEvent, next: KeyEvent)
    requires
        transition_for(l, first) is Some,
    ensures
        transition_for(used_up(l, transition_for(l, first)), next) != transition_for(l, first),
{
}

impl StateTransitionLayer {
    /// A layer that reacts to nothing.
    pub fn new() -> (l: StateTransitionLayer)
        ensures
            !l.enter && !l.esc && !l.ctrl_c && !l.ctrl_k && !l.alt_enter && !l.shift_enter && !l.ctrl_g,
    {
        StateTransitionLayer {
            enter: false,
            esc: false,
            ctrl_c: false,
            ctrl_k: false,
            alt_enter: false,
            shift_enter: false,
            ctrl_g: false,
        }
    }

    /// React to Enter.
    pub fn with_enter(self) -> (l: StateTransitionLayer)
        ensures
            l == (StateTransitionLayer { enter: true, ..self }),
    {
        StateTransitionLayer { enter: true, ..self }
    }

    /// React to Esc.
    pub fn with_esc(self) -> (l: StateTransitionLayer)
        ensures
            l == (StateTransitionLayer { esc: true, ..self }),
    {
        StateTransitionLayer { esc: true, ..self }
    }

    /// React to Ctrl+C.
    pub fn with_ctrl_c(self) -> (l: StateTransitionLayer)
        ensures
            l == (StateTransitionLayer { ctrl_c: true, ..self }),
    {
        StateTransitionLayer { ctrl_c: true, ..self }
    }

    /// React to Ctrl+K.
    pub fn with_ctrl_k(self) -> (l: StateTransitionLayer)
        ensures
            l == (StateTransitionLayer { ctrl_k: true, ..self }),
    {
        StateTransitionLayer { ctrl_k: true, ..self }
    }

    /// React to Alt+Enter.
    pub fn with_alt_enter(self) -> (l: StateTransitionLayer)
        ensures
            l == (StateTransitionLayer { alt_enter: true, ..self }),
    {
        StateTransitionLayer { alt_enter: true, ..self }
    }

    /// React to Shift+Enter.
    pub fn with_shift_enter(self) -> (l: StateTransitionLayer)
        ensures
            l == (StateTransitionLayer { shift_enter: true, ..self }),
    {
        StateTransitionLayer { shift_enter: true, ..self }
    }

    /// React to Ctrl+G.
    pub fn with_ctrl_g(self) -> (l: StateTransitionLayer)
        ensures
            l == (StateTransitionLayer { ctrl_g: true, ..self }),
    {
        StateTransitionLayer { ctrl_g: true, ..self }
    }

    /// The transition `key` fires, if any; the transition that fires is
    /// used up (it fires at most once from this layer).
    pub fn handle(&mut self, key: &KeyEvent) -> (t: Option<Transition>)
        ensures
            t == transition_for(*old(self), *key),
            *final(self) == used_up(*old(self), t),
    {
        if key.code == KeyCode::Char('g') && key.ctrl && self.ctrl_g {
            self.ctrl_g = false;
            return Some(Transition::CtrlG);
        }
        if key.code == KeyCode::Char('c') && key.ctrl && self.ctrl_c {
            self.ctrl_c = false;
            return Some(Transition::CtrlC);
        }
        if key.code == KeyCode::Char('k') && key.ctrl && self.ctrl_k {
            self.ctrl_k = false;
            return Some(Transition::CtrlK);
        }
        if key.code == KeyCode::Enter && key.alt && self.alt_enter {
            self.alt_enter = false;
            return Some(Transition::AltEnter);
        }
        if key.code == KeyCode::Enter && key.shift && self.shift_enter {
            self.shift_enter = false;
            return Some(Transition::ShiftEnter);
        }
        if key.code == KeyCode::Esc && self.esc {
            self.esc = false;
            return Some(Transition::Esc);
        }
        if key.code == KeyCode::Enter && !key.shift && !key.alt && self.enter {
            self.enter = false;
            return Some(Transition::Enter);
        }
        None
    }
}


/// Start of the line holding position `c`: just after the last newline
/// before `c`, or 0.
pub open spec fn line_start(s: Seq<char>, c: int) -> int
    decreases c,
{
    if c <= 0 {
        0
    } else if s[c - 1] == '\n' {
        c
    } else {
        line_start(s, c - 1)
    }
}

/// End of the line holding position `c`: the next newline at or after
/// `c`, or the end of the text.
pub open spec fn line_end(s: Seq<char>, c: int) -> int
    decreases s.len() - c,
{
    if c >= s.len() {
        s.len() as int
    } else if s[c] == '\n' {
        c
    } else {
        line_end(s, c + 1)
    }
}

proof fn lemma_line_start_range(s: Seq<char>, c: int)
    requires
        0 <= c <= s.len(),
    ensures
        0 <= line_start(s, c) <= c,
        line_start(s, c) > 0 ==> s[line_start(s, c) - 1] == '\n',
    decreases c,
{
    if c > 0 && s[c - 1] != '\n' {
        lemma_line_start_range(s, c - 1);
    }
}

proof fn lemma_line_end_range(s: Seq<char>, c: int)
    requires
        0 <= c <= s.len(),
    ensures
        c <= line_end(s, c) <= s.len(),
        line_end(s, c) < s.len() ==> s[line_end(s, c)] == '\n',
    decreases s.len() - c,
{
    if c < s.len() && s[c] != '\n' {
        lemma_line_end_range(s, c + 1);
    }
}

fn find_line_start(s: &Vec<char>, c: usize) -> (r: usize)
    requires
        c <= s@.len(),
    ensures
        r == line_start(s@, c as int),
{
    let mut i = c;
    while i > 0 && s[i - 1] != '\n'
        invariant
            i <= c <= s@.len(),
            line_start(s@, c as int) == line_start(s@, i as int),
        decreases i,
    {
        i = i - 1;
    }
    i
}

fn find_line_end(s: &Vec<char>, c: usize) -> (r: usize)
    requires
        c <= s@.len(),
    ensures
        r == line_end(s@, c as int),
{
    let mut i = c;
    while i < s.len() && s[i] != '\n'
        invariant
            c <= i <= s@.len(),
            line_end(s@, c as int) == line_end(s@, i as int),
        decreases s@.len() - i,
    {
        i = i + 1;
    }
    i
}

/// Cursor position one line up, in the same column when that line is long
/// enough (else at its end); the first line does not move.
pub open spec fn cursor_up_pos(s: Seq<char>, c: int) -> int {
    let ls = line_start(s, c);
    if ls == 0 {
        c
    } else {
        let pls = line_start(s, ls - 1);
        let col = c - ls;
        let plen = (ls - 1) - pls;
        pls + if col <= plen { col } else { plen }
    }
}

/// Cursor position one line down, in the same column when that line is
/// long enough (else at its end); the last line does not move.
pub open spec fn cursor_down_pos(s: Seq<char>, c: int) -> int {
    let le = line_end(s, c);
    if le >= s.len() {
        c
    } else {
        let ns = le + 1;
        let ne = line_end(s, ns);
        let col = c - line_start(s, c);
        let nlen = ne - ns;
        ns + if col <= nlen { col } else { nlen }
    }
}

/// Cursor movement by one line up.
pub fn cursor_up(s: &Vec<char>, c: usize) -> (r: usize)
    requires
        c <= s@.len(),
    ensures
        r == cursor_up_pos(s@, c as int),
        r <= s@.len(),
{
    proof {
        lemma_line_start_range(s@, c as int);
    }
    let ls = find_line_start(s, c);
    if ls == 0 {
        return c;
    }
    proof {
        lemma_line_start_range(s@, ls - 1);
    }
    let pls = find_line_start(s, ls - 1);
    let col = c - ls;
    let plen = (ls - 1) - pls;
    pls + if col <= plen { col } else { plen }
}

/// Cursor movement by one line down.
pub fn cursor_down(s: &Vec<char>, c: usize) -> (r: usize)
    requires
        c <= s@.len(),
    ensures
        r == cursor_down_pos(s@, c as int),
        r <= s@.len(),
{
    proof {
        lemma_line_end_range(s@, c as int);
        lemma_line_start_range(s@, c as int);
    }
    let le = find_line_end(s, c);
    if le >= s.len() {
        return c;
    }
    let ns = le + 1;
    proof {
        lemma_line_end_range(s@, ns as int);
    }
    let ne = find_line_end(s, ns);
    let col = c - find_line_start(s, c);
    let nlen = ne - ns;
    ns + if col <= nlen { col } else { nlen }
}

/// The history entry `i` steps back (0 = the most recent sent message).
pub open spec fn history_entry(sent: Seq<String>, i: int) -> Seq<char> {
    sent[sent.len() - 1 - i]@
}

/// What the input layer asks of the autocomplete popup.
#[derive(Clone, Copy, Debug, PartialEq, Eq, Structural)]
pub enum AutocompleteRequest {
    /// Leave it as it is.
    Keep,
    /// Open the file popup for the text after `@`.
    OpenFiles,
    /// Refresh the file popup's matches, if it is open.
    RefreshFiles,
    /// Close it.
    Close,
    /// Open the skill popup.
    OpenSkills,
}

/// Options of the input layer.
#[derive(Clone, Copy, Debug, PartialEq, Eq, Structural)]
pub struct InputConfig {
    /// Shift+Enter and Alt+Enter insert a newline.
    pub allow_newlines: bool,
    /// Typing `@` at the end opens file autocomplete.
    pub enable_at_trigger: bool,
}

/// Character insertion, cursor movement and editing.
#[derive(Clone, Copy, Debug, PartialEq, Eq, Structural)]
pub struct InputLayer {
    pub config: InputConfig,
    pub at_trigger: bool,
}

/// The editor well formed: the cursor is within the input.
pub open spec fn editor_ok(e: EditorState) -> bool {
    e.cursor <= e.input@.len()
}

/// `c` inserted into `s` at `at`.
pub open spec fn inserted(s: Seq<char>, at: int, c: char) -> Seq<char> {
    s.take(at) + seq![c] + s.skip(at)
}

fn insert_char(e: &mut EditorState, c: char)
    requires
        editor_ok(*old(e)),
        old(e).input@.len() < usize::MAX,
    ensures
        final(e).input@ == inserted(old(e).input@, old(e).cursor as int, c),
        final(e).cursor == old(e).cursor + 1,
        final(e).history_index == old(e).history_index,
        final(e).saved_input == old(e).saved_input,
        final(e).saved_cursor == old(e).saved_cursor,
        editor_ok(*final(e)),
{
    let ghost before = e.input@;
    e.input.insert(e.cursor, c);
    e.cursor = e.cursor + 1;
    assert(e.input@ =~= inserted(before, old(e).cursor as int, c));
}

/// The parts of the application that keys never touch: usage counters,
/// model, working directory, session flag, skills, hooks and layout.
pub open spec fn keeps_session(a: App, b: App) -> bool {
    &&& b.usage == a.usage
    &&& b.model_name == a.model_name
    &&& b.context_window == a.context_window
    &&& b.cwd == a.cwd
    &&& b.has_active_session == a.has_active_session
    &&& b.active_skills == a.active_skills
    &&& b.hook_registry == a.hook_registry
    &&& b.skill_names == a.skill_names
    &&& b.terminal_height == a.terminal_height
    &&& b.input_area_height == a.input_area_height
    &&& b.activity_frame == a.activity_frame
}

/// What an editing key does to the application through `layer`, and the
/// autocomplete request it makes.
pub open spec fn input_handled(layer: InputLayer, a: App, b: App, key: KeyEvent, req: AutocompleteRequest) -> bool {
    &&& keeps_session(a, b)
    &&& editor_ok(b.editor)
    &&& b.modal == a.modal
    &&& b.display == a.display
    &&& b.chat.messages@ == a.chat.messages@
    &&& b.sent_messages == a.sent_messages
    &&& (key.code is Char ==> {
        &&& b.editor.input@ == inserted(a.editor.input@, a.editor.cursor as int, key.code->Char_0)
        &&& b.editor.cursor == a.editor.cursor + 1
        &&& req == (if layer.config.enable_at_trigger && b.editor.cursor == b.editor.input@.len()
            && key.code->Char_0 == '@' && layer.at_trigger {
            AutocompleteRequest::OpenFiles
        } else if layer.config.enable_at_trigger && !(b.editor.cursor == b.editor.input@.len()
            && key.code->Char_0 == '@') {
            AutocompleteRequest::RefreshFiles
        } else {
            AutocompleteRequest::Keep
        })
    })
    &&& (key.code == KeyCode::Enter ==> req == AutocompleteRequest::Keep && b.editor.input@ == (if (key.shift || key.alt) && layer.config.allow_newlines {
        inserted(a.editor.input@, a.editor.cursor as int, '\n')
    } else {
        a.editor.input@
    }))
    &&& (key.code == KeyCode::Backspace ==> {
        &&& a.editor.cursor > 0 ==> b.editor.input@ == a.editor.input@.remove(a.editor.cursor - 1) && b.editor.cursor == a.editor.cursor - 1
        &&& a.editor.cursor == 0 ==> b.editor == a.editor
        &&& req == (if !layer.config.enable_at_trigger { AutocompleteRequest::Keep }
            else if b.editor.input@.contains('@') { AutocompleteRequest::RefreshFiles }
            else { AutocompleteRequest::Close })
    })
    &&& (key.code == KeyCode::Delete ==> req == AutocompleteRequest::Keep && (if a.editor.cursor < a.editor.input@.len() {
        b.editor.input@ == a.editor.input@.remove(a.editor.cursor as int) && b.editor.cursor == a.editor.cursor
    } else {
        b.editor == a.editor
    }))
    &&& (key.code == KeyCode::Left ==> req == AutocompleteRequest::Keep && b.editor.input@ == a.editor.input@
        && b.editor.cursor == (if a.editor.cursor > 0 { a.editor.cursor - 1 } else { 0 }))
    &&& (key.code == KeyCode::Right ==> req == AutocompleteRequest::Keep && b.editor.input@ == a.editor.input@
        && b.editor.cursor == (if a.editor.cursor < a.editor.input@.len() { a.editor.cursor + 1 } else { a.editor.cursor as int }))
    &&& (key.code == KeyCode::Home ==> req == AutocompleteRequest::Keep && b.editor.input@ == a.editor.input@
        && b.editor.cursor == line_start(a.editor.input@, a.editor.cursor as int))
    &&& (key.code == KeyCode::End ==> req == AutocompleteRequest::Keep && b.editor.input@ == a.editor.input@
        && b.editor.cursor == line_end(a.editor.input@, a.editor.cursor as int))
    &&& (key.code == KeyCode::Up ==> req == AutocompleteRequest::Keep && up_ok(a, b))
    &&& (key.code == KeyCode::Down ==> req == AutocompleteRequest::Keep && down_ok(a, b))
}

impl InputLayer {
    /// A layer with these options and no `@` trigger.
    pub fn new(config: InputConfig) -> (l: InputLayer)
        ensures
            l.config == config,
            !l.at_trigger,
    {
        InputLayer { config, at_trigger: false }
    }

    /// Arm the `@` trigger.
    pub fn with_at_trigger(self) -> (l: InputLayer)
        ensures
            l.config == self.config,
            l.at_trigger,
    {
        InputLayer { at_trigger: true, ..self }
    }

    /// Handle an editing key. The `@` trigger is used up when it fires:
    /// it opens file autocomplete at most once from this layer.
    pub fn handle(&mut self, app: &mut App, key: &KeyEvent) -> (req: AutocompleteRequest)
        requires
            editor_ok(old(app).editor),
            old(app).editor.input@.len() < usize::MAX,
        ensures
            input_handled(*old(self), *old(app), *final(app), *key, req),
            final(self).config == old(self).config,
            final(self).at_trigger == (old(self).at_trigger && req != AutocompleteRequest::OpenFiles),
    {
        match key.code {
            KeyCode::Enter => {
                if (key.shift || key.alt) && self.config.allow_newlines {
                    insert_char(&mut app.editor, '\n');
                }
                AutocompleteRequest::Keep
            },
            KeyCode::Char(c) => {
                insert_char(&mut app.editor, c);
                let at_end = app.editor.cursor == app.editor.input.len();
                if self.config.enable_at_trigger && at_end && c == '@' {
                    if self.at_trigger {
                        self.at_trigger = false;
                        AutocompleteRequest::OpenFiles
                    } else {
                        AutocompleteRequest::Keep
                    }
                } else if self.config.enable_at_trigger {
                    AutocompleteRequest::RefreshFiles
                } else {
                    AutocompleteRequest::Keep
                }
            },
            KeyCode::Backspace => {
                if app.editor.cursor > 0 {
                    app.editor.input.remove(app.editor.cursor - 1);
                    app.editor.cursor = app.editor.cursor - 1;
                }
                if self.config.enable_at_trigger {
                    if contains_char(&app.editor.input, '@') {
                        AutocompleteRequest::RefreshFiles
                    } else {
                        AutocompleteRequest::Close
                    }
                } else {
                    AutocompleteRequest::Keep
                }
            },
            KeyCode::Delete => {
                if app.editor.cursor < app.editor.input.len() {
                    app.editor.input.remove(app.editor.cursor);
                }
                AutocompleteRequest::Keep
            },
            KeyCode::Left => {
                if app.editor.cursor > 0 {
                    app.editor.cursor = app.editor.cursor - 1;
                }
                AutocompleteRequest::Keep
            },
            KeyCode::Right => {
                if app.editor.cursor < app.editor.input.len() {
                    app.editor.cursor = app.editor.cursor + 1;
                }
                AutocompleteRequest::Keep
            },
            KeyCode::Home => {
                proof {
                    lemma_line_start_range(app.editor.input@, app.editor.cursor as int);
                }
                app.editor.cursor = find_line_start(&app.editor.input, app.editor.cursor);
                AutocompleteRequest::Keep
            },
            KeyCode::End => {
                proof {
                    lemma_line_end_range(app.editor.input@, app.editor.cursor as int);
                }
                app.editor.cursor = find_line_end(&app.editor.input, app.editor.cursor);
                AutocompleteRequest::Keep
            },
            KeyCode::Up => {
                handle_up(app);
                AutocompleteRequest::Keep
            },
            KeyCode::Down => {
                handle_down(app);
                AutocompleteRequest::Keep
            },
            _ => AutocompleteRequest::Keep,
        }
    }
}

fn contains_char(s: &Vec<char>, c: char) -> (b: bool)
    ensures
        b == s@.contains(c),
{
    let mut i: usize = 0;
    while i < s.len()
        invariant
            i <= s@.len(),
            forall|j: int| 0 <= j < i ==> s@[j] != c,
        decreases s@.len() - i,
    {
        if s[i] == c {
            return true;
        }
        i = i + 1;
    }
    false
}

/// What Up does: on the first line, with messages sent, it steps back in
/// the history (saving the draft when history browsing starts) and follows
/// the chat; elsewhere it moves the cursor a line up.
pub open spec fn up_ok(a: App, b: App) -> bool {
    let e = a.editor;
    let n = a.sent_messages@.len();
    &&& b.modal == a.modal
    &&& b.sent_messages == a.sent_messages
    &&& if line_start(e.input@, e.cursor as int) == 0 && n > 0 {
        &&& (e.history_index == 0 ==> (b.editor.saved_input matches Some(sv) && sv@ == e.input@) && b.editor.saved_cursor == e.cursor)
        &&& (e.history_index != 0 ==> b.editor.saved_input == e.saved_input && b.editor.saved_cursor == e.saved_cursor)
        &&& if e.history_index < n {
            &&& b.editor.history_index == e.history_index + 1
            &&& b.editor.input@ == history_entry(a.sent_messages@, e.history_index as int)
            &&& b.editor.cursor == b.editor.input@.len()
        } else {
            b.editor.history_index == e.history_index && b.editor.input@ == e.input@ && b.editor.cursor == e.cursor
        }
        &&& b.chat.auto_scroll
    } else {
        &&& b.editor.input == e.input
        &&& b.editor.cursor == cursor_up_pos(e.input@, e.cursor as int)
        &&& b.editor.history_index == e.history_index
        &&& b.editor.saved_input == e.saved_input
        &&& b.chat == a.chat
    }
}

/// What Down does: on the last line while browsing history, it steps
/// forward (back to the saved draft at the end); elsewhere it moves the
/// cursor a line down.
pub open spec fn down_ok(a: App, b: App) -> bool {
    let e = a.editor;
    &&& b.modal == a.modal
    &&& b.sent_messages == a.sent_messages
    &&& b.chat == a.chat
    &&& if line_end(e.input@, e.cursor as int) >= e.input@.len() && e.history_index > 0 {
        &&& b.editor.history_index == e.history_index - 1
        &&& if e.history_index == 1 {
            match e.saved_input {
                Some(s) => b.editor.input == s && b.editor.cursor == (if e.saved_cursor <= s@.len() { e.saved_cursor as int } else { s@.len() as int }) && b.editor.saved_input is None,
                None => b.editor.input == e.input && b.editor.cursor == e.cursor,
            }
        } else {
            e.history_index - 2 < a.sent_messages@.len() ==> (b.editor.input@ == history_entry(a.sent_messages@, e.history_index - 2)
                && b.editor.cursor == b.editor.input@.len())
        }
    } else {
        &&& b.editor.input == e.input
        &&& b.editor.cursor == cursor_down_pos(e.input@, e.cursor as int)
        &&& b.editor.history_index == e.history_index
        &&& b.editor.saved_input == e.saved_input
    }
}

fn load_history_entry(app: &mut App, i: usize)
    requires
        i < old(app).sent_messages@.len(),
    ensures
        final(app).editor.input@ == history_entry(old(app).sent_messages@, i as int),
        final(app).editor.cursor == final(app).editor.input@.len(),
        keeps_session(*old(app), *final(app)),
        final(app).editor.history_index == old(app).editor.history_index,
        final(app).editor.saved_input == old(app).editor.saved_input,
        final(app).editor.saved_cursor == old(app).editor.saved_cursor,
        final(app).modal == old(app).modal,
        final(app).chat == old(app).chat,
        final(app).display == old(app).display,
        final(app).sent_messages == old(app).sent_messages,
{
    let k = app.sent_messages.len() - 1 - i;
    let cs = chars_of(app.sent_messages[k].as_str());
    app.editor.cursor = cs.len();
    app.editor.input = cs;
}

fn handle_up(app: &mut App)
    requires
        editor_ok(old(app).editor),
    ensures
        up_ok(*old(app), *final(app)),
        keeps_session(*old(app), *final(app)),
        editor_ok(final(app).editor),
        final(app).display == old(app).display,
        final(app).chat.messages@ == old(app).chat.messages@,
{
    proof {
        lemma_line_start_range(app.editor.input@, app.editor.cursor as int);
    }
    let ls = find_line_start(&app.editor.input, app.editor.cursor);
    let n = app.sent_messages.len();
    if ls == 0 && n > 0 {
        if app.editor.history_index == 0 {
            app.editor.saved_input = Some(app.editor.input.clone());
            app.editor.saved_cursor = app.editor.cursor;
        }
        if app.editor.history_index < n {
            let idx = app.editor.history_index;
            app.editor.history_index = idx + 1;
            load_history_entry(app, idx);
        }
        app.chat.follow();
        return;
    }
    app.editor.cursor = cursor_up(&app.editor.input, app.editor.cursor);
}

fn handle_down(app: &mut App)
    requires
        editor_ok(old(app).editor),
    ensures
        down_ok(*old(app), *final(app)),
        keeps_session(*old(app), *final(app)),
        editor_ok(final(app).editor),
        final(app).display == old(app).display,
        final(app).chat.messages@ == old(app).chat.messages@,
{
    proof {
        lemma_line_end_range(app.editor.input@, app.editor.cursor as int);
    }
    let le = find_line_end(&app.editor.input, app.editor.cursor);
    if le >= app.editor.input.len() && app.editor.history_index > 0 {
        app.editor.history_index = app.editor.history_index - 1;
        if app.editor.history_index == 0 {
            match app.editor.saved_input.take() {
                Some(saved) => {
                    let c = if app.editor.saved_cursor <= saved.len() { app.editor.saved_cursor } else { saved.len() };
                    app.editor.input = saved;
                    app.editor.cursor = c;
                },
                None => {},
            }
        } else {
            let idx = app.editor.history_index - 1;
            if idx < app.sent_messages.len() {
                load_history_entry(app, idx);
            }
        }
        return;
    }
    app.editor.cursor = cursor_down(&app.editor.input, app.editor.cursor);
}


/// What the application must do after a key.
pub enum KeyOutcome {
    /// Quit.
    Quit,
    /// Nothing more.
    Continue,
    /// Save the display settings.
    SaveConfig,
    /// Not handled by the global and modal layers: run autocomplete, then
    /// the state's handler.
    PassOn,
    /// Send the input as a message (start a turn).
    Send,
    /// Run a turn with this input.
    RunTurn(String),
    /// A palette command ran; this is what remains to do.
    Palette(PaletteAction),
    /// Load the saved session at this index of the list.
    LoadSession(usize),
    /// Update the autocomplete popup.
    Autocomplete(AutocompleteRequest),
}

/// Keys that go to every state: Ctrl+D quits; the modal layer's shortcuts.
pub fn handle_key_event(app: &mut App, key: &KeyEvent) -> (r: KeyOutcome)
    ensures
        is_ctrl_char(*key, 'd') ==> r is Quit && *final(app) == *old(app),
        exists|m: KeyEventResult| #[trigger] modal_layer_handled(*old(app), *final(app), *key, m) && r == layer_outcome(m),
        !is_ctrl_char(*key, 'd') && modal_open(old(app).modal.state) ==> r is PassOn && *final(app) == *old(app),
        final(app).editor == old(app).editor,
        final(app).chat.messages@ == old(app).chat.messages@,
{
    if handle_global_shortcuts(key) == KeyEventResult::Quit {
        assert(modal_layer_handled(*old(app), *app, *key, KeyEventResult::Quit));
        return KeyOutcome::Quit;
    }
    let modal = ModalLayer::new();
    let m = modal.handle(app, key);
    match m {
        KeyEventResult::Quit => KeyOutcome::Quit,
        KeyEventResult::Handled => KeyOutcome::Continue,
        KeyEventResult::HandledSaveConfig => KeyOutcome::SaveConfig,
        KeyEventResult::Unhandled => KeyOutcome::PassOn,
    }
}

/// The outcome of a key the modal layer handled.
pub open spec fn layer_outcome(m: KeyEventResult) -> KeyOutcome {
    match m {
        KeyEventResult::Quit => KeyOutcome::Quit,
        KeyEventResult::Handled => KeyOutcome::Continue,
        KeyEventResult::HandledSaveConfig => KeyOutcome::SaveConfig,
        KeyEventResult::Unhandled => KeyOutcome::PassOn,
    }
}

/// Clear the input and stop browsing history.
fn clear_input(app: &mut App)
    ensures
        final(app).editor.input@.len() == 0,
        final(app).editor.cursor == 0,
        final(app).editor.history_index == 0,
        final(app).editor.saved_input is None,
        final(app).editor.autocomplete is Closed,
        keeps_session(*old(app), *final(app)),
        final(app).modal == old(app).modal,
        final(app).chat == old(app).chat,
        final(app).display == old(app).display,
        final(app).sent_messages == old(app).sent_messages,
{
    app.editor.input = Vec::new();
    app.editor.cursor = 0;
    app.editor.history_index = 0;
    app.editor.saved_input = None;
    app.editor.autocomplete = AutocompleteMode::Closed;
}

/// A copy of a list of strings.
fn copy_strings(v: &Vec<String>) -> (r: Vec<String>)
    ensures
        r@ == v@,
{
    let mut out: Vec<String> = Vec::new();
    let mut i: usize = 0;
    while i < v.len()
        invariant
            i <= v@.len(),
            out@ == v@.take(i as int),
        decreases v@.len() - i,
    {
        out.push(v[i].clone());
        i = i + 1;
        assert(out@ =~= v@.take(i as int));
    }
    assert(v@.take(v@.len() as int) =~= v@);
    out
}

/// The idle state: typing, sending, the command palette.
pub struct IdleHandler;

/// What a key does in the idle state.
pub open spec fn idle_handled(a: App, b: App, key: KeyEvent, r: KeyOutcome) -> bool {
    &&& keeps_session(a, b)
    &&& editor_ok(b.editor)
    &&& b.display == a.display
    &&& b.sent_messages == a.sent_messages
    &&& (transition_for(idle_layer(), key) == Some(Transition::CtrlG) ==> {
        &&& r is Continue
        &&& b.modal.state == AppState::CommandPalette
        &&& b.modal.palette_preserved_input@ == a.editor.input@
        &&& b.modal.palette_preserved_cursor == a.editor.cursor
        &&& b.modal.palette_query@.len() == 0
        &&& b.modal.palette_selected == 0
        &&& b.editor == a.editor
        &&& b.chat == a.chat
    })
    &&& (transition_for(idle_layer(), key) == Some(Transition::CtrlC) || transition_for(idle_layer(), key)
        == Some(Transition::CtrlK) || transition_for(idle_layer(), key) == Some(Transition::Esc) ==> {
        &&& r == KeyOutcome::Autocomplete(AutocompleteRequest::Close)
        &&& b.editor.input@.len() == 0
        &&& b.editor.cursor == 0
        &&& b.editor.history_index == 0
        &&& b.editor.saved_input is None
        &&& b.editor.autocomplete is Closed
        &&& b.modal == a.modal
        &&& b.chat == a.chat
    })
    &&& (transition_for(idle_layer(), key) == Some(Transition::AltEnter) || transition_for(idle_layer(), key)
        == Some(Transition::ShiftEnter) ==> {
        &&& r == KeyOutcome::Autocomplete(AutocompleteRequest::Close)
        &&& b.editor.input@ == inserted(a.editor.input@, a.editor.cursor as int, '\n')
        &&& b.editor.cursor == a.editor.cursor + 1
        &&& b.editor.history_index == a.editor.history_index
        &&& b.editor.autocomplete is Closed
        &&& b.modal == a.modal
        &&& b.chat == a.chat
    })
    &&& (transition_for(idle_layer(), key) == Some(Transition::Enter) ==> {
        &&& r is Send
        &&& b.editor.input == a.editor.input
        &&& b.editor.cursor == a.editor.cursor
        &&& b.editor.history_index == 0
        &&& b.editor.saved_input is None
        &&& b.modal == a.modal
        &&& b.chat == a.chat
    })
    &&& (transition_for(idle_layer(), key) is None && key.code == KeyCode::Char('/') && !key.ctrl
        && a.editor.input@.len() == 0 ==> {
        &&& r == KeyOutcome::Autocomplete(AutocompleteRequest::OpenSkills)
        &&& b.editor.input@ == seq!['/']
        &&& b.editor.cursor == 1
        &&& b.editor.autocomplete matches AutocompleteMode::Skill { matches, selected, scroll_offset }
            && matches@ == a.skill_names@ && selected == 0 && scroll_offset == 0
        &&& b.modal == a.modal
        &&& b.chat == a.chat
    })
    &&& (transition_for(idle_layer(), key) is None && !(key.code == KeyCode::Char('/') && !key.ctrl
        && a.editor.input@.len() == 0) ==> (r matches KeyOutcome::Autocomplete(req) && input_handled(
        idle_input_layer(),
        a,
        b,
        key,
        req,
    )))
}

/// The editing layer of the idle state: no newlines, `@` opens files.
pub open spec fn idle_input_layer() -> InputLayer {
    InputLayer { config: InputConfig { allow_newlines: false, enable_at_trigger: true }, at_trigger: true }
}

impl IdleHandler {
    /// Ctrl+G opens the palette (keeping the input aside), Ctrl+C, Ctrl+K
    /// and Esc clear the input, Alt/Shift+Enter insert a newline, Enter
    /// sends; `/` in an empty input opens skill autocomplete; other keys
    /// edit the input.
    pub fn handle(&self, app: &mut App, key: &KeyEvent) -> (r: KeyOutcome)
        requires
            editor_ok(old(app).editor),
            old(app).editor.input@.len() < usize::MAX,
        ensures
            idle_handled(*old(app), *final(app), *key, r),
    {
        let mut transitions = idle_transitions();
        match transitions.handle(key) {
            Some(Transition::CtrlG) => {
                app.modal.palette_preserved_input = app.editor.input.clone();
                app.modal.palette_preserved_cursor = app.editor.cursor;
                app.modal.palette_query = Vec::new();
                app.modal.palette_selected = 0;
                app.modal.state = AppState::CommandPalette;
                return KeyOutcome::Continue;
            },
            Some(Transition::CtrlC) | Some(Transition::CtrlK) | Some(Transition::Esc) => {
                clear_input(app);
                return KeyOutcome::Autocomplete(AutocompleteRequest::Close);
            },
            Some(Transition::AltEnter) | Some(Transition::ShiftEnter) => {
                insert_char(&mut app.editor, '\n');
                app.editor.autocomplete = AutocompleteMode::Closed;
                return KeyOutcome::Autocomplete(AutocompleteRequest::Close);
            },
            Some(Transition::Enter) => {
                app.editor.history_index = 0;
                app.editor.saved_input = None;
                return KeyOutcome::Send;
            },
            None => {},
        }
        if key.code == KeyCode::Char('/') && app.editor.input.len() == 0 && !key.ctrl {
            app.editor.input.push('/');
            app.editor.cursor = 1;
            assert(app.editor.input@ =~= seq!['/']);
            let names = copy_strings(&app.skill_names);
            app.editor.autocomplete = AutocompleteMode::Skill { matches: names, selected: 0, scroll_offset: 0 };
            return KeyOutcome::Autocomplete(AutocompleteRequest::OpenSkills);
        }
        let mut input = InputLayer::new(InputConfig { allow_newlines: false, enable_at_trigger: true }).with_at_trigger();
        KeyOutcome::Autocomplete(input.handle(app, key))
    }
}

/// The transitions of the idle state.
pub open spec fn idle_layer() -> StateTransitionLayer {
    StateTransitionLayer {
        enter: true,
        esc: true,
        ctrl_c: true,
        ctrl_k: true,
        alt_enter: true,
        shift_enter: true,
        ctrl_g: true,
    }
}

fn idle_transitions() -> (l: StateTransitionLayer)
    ensures
        l == idle_layer(),
{
    StateTransitionLayer::new().with_ctrl_g().with_ctrl_c().with_ctrl_k().with_alt_enter().with_shift_enter().with_esc().with_enter()
}

/// Most commands visible in the palette at once.
pub const PALETTE_PAGE_SIZE: usize = 10;

/// The scroll offset that keeps `selected` visible in a page of
/// `PALETTE_PAGE_SIZE`, from `offset`, clamped to the last full page.
pub open spec fn palette_scroll(selected: int, offset: int, total: int) -> int {
    let o = if selected >= offset + PALETTE_PAGE_SIZE {
        selected - PALETTE_PAGE_SIZE + 1
    } else if selected < offset {
        selected
    } else {
        offset
    };
    let max = if total >= PALETTE_PAGE_SIZE { total - PALETTE_PAGE_SIZE } else { 0 };
    if o <= max { o } else { max }
}

/// Keep the palette's selection visible.
pub fn update_scroll(app: &mut App, total: usize)
    ensures
        final(app).modal.palette_scroll_offset == palette_scroll(
            old(app).modal.palette_selected as int,
            old(app).modal.palette_scroll_offset as int,
            total as int,
        ),
        final(app).modal.palette_selected == old(app).modal.palette_selected,
        final(app).modal.palette_query == old(app).modal.palette_query,
        final(app).modal.state == old(app).modal.state,
        final(app).editor == old(app).editor,
        final(app).chat == old(app).chat,
        final(app).display == old(app).display,
        final(app).sent_messages == old(app).sent_messages,
        keeps_session(*old(app), *final(app)),
{
    let selected = app.modal.palette_selected;
    let mut offset = app.modal.palette_scroll_offset;
    if offset <= usize::MAX - PALETTE_PAGE_SIZE && selected >= offset + PALETTE_PAGE_SIZE {
        offset = selected - PALETTE_PAGE_SIZE + 1;
    } else if selected < offset {
        offset = selected;
    }
    let max = total.saturating_sub(PALETTE_PAGE_SIZE);
    app.modal.palette_scroll_offset = if offset <= max { offset } else { max };
}

/// Law: after `update_scroll` the selection lies in the visible page
/// whenever the page can end at it.
pub proof fn law_palette_scroll_keeps_selection_visible(selected: int, offset: int, total: int)
    requires
        0 <= selected < total,
        0 <= offset,
    ensures
        palette_scroll(selected, offset, total) <= selected < palette_scroll(selected, offset, total) + PALETTE_PAGE_SIZE,
{
}

/// Put the input kept aside when the palette opened back, and go idle.
fn restore_input(app: &mut App)
    ensures
        palette_left(*old(app), *final(app)),
        final(app).modal.palette_selected == old(app).modal.palette_selected,
        final(app).modal.palette_query == old(app).modal.palette_query,
{
    app.editor.input = app.modal.palette_preserved_input.clone();
    app.editor.cursor = app.modal.palette_preserved_cursor;
    app.modal.state = AppState::Idle;
}

/// The command palette: Enter runs the selected match, Esc dismisses it,
/// Ctrl+C clears the query; navigation keys move the selection; typing
/// filters.
pub struct CommandPaletteHandler;

/// The commands the palette's query currently selects, as positions in
/// the command table.
pub open spec fn palette_matches(a: App) -> Seq<int> {
    matching_indices(a.modal.palette_query@, PALETTE_PAGE_SIZE as nat, palette_table().len() as int)
}

/// `m` is `a` after leaving the palette: the input kept aside is back and
/// the state is idle; chat, display, history and session are untouched.
pub open spec fn palette_left(a: App, m: App) -> bool {
    &&& m.editor.input@ == a.modal.palette_preserved_input@
    &&& m.editor.cursor == a.modal.palette_preserved_cursor
    &&& m.editor.history_index == a.editor.history_index
    &&& m.modal.state == AppState::Idle
    &&& m.chat == a.chat
    &&& m.display == a.display
    &&& m.sent_messages == a.sent_messages
    &&& keeps_session(a, m)
}

/// What a key does in the command palette.
pub open spec fn palette_handled(a: App, b: App, key: KeyEvent, r: KeyOutcome) -> bool {
    let t = transition_for(palette_layer(), key);
    let sel = a.modal.palette_selected as int;
    let found = palette_matches(a);
    &&& (t == Some(Transition::Enter) && sel < found.len() ==> (r matches KeyOutcome::Palette(act)
        && exists|m: App| #[trigger] palette_left(a, m) && palette_command_ok(m, b, palette_table()[found[sel]].0, act)))
    &&& (t == Some(Transition::Enter) && sel >= found.len() ==> r is Continue && palette_left(a, b))
    &&& (t == Some(Transition::Esc) ==> r is Continue && palette_left(a, b))
    &&& (t == Some(Transition::CtrlC) ==> {
        &&& r is Continue
        &&& b.modal.palette_query@.len() == 0
        &&& b.modal.palette_selected == 0
        &&& b.modal.palette_scroll_offset == 0
        &&& b.modal.state == a.modal.state
        &&& b.editor == a.editor
        &&& b.chat == a.chat
        &&& b.display == a.display
        &&& b.sent_messages == a.sent_messages
        &&& keeps_session(a, b)
    })
    &&& (t is None ==> {
        &&& r is Continue
        &&& b.modal.state == a.modal.state
        &&& b.editor == a.editor
        &&& b.chat == a.chat
        &&& b.display == a.display
        &&& b.sent_messages == a.sent_messages
        &&& keeps_session(a, b)
        &&& (nav_direction(key) is Some ==> {
            &&& b.modal.palette_selected == (if found.len() == 0 {
                sel as nat
            } else if nav_direction(key) == Some(true) {
                index_up(sel as nat, found.len())
            } else {
                index_down(sel as nat, found.len())
            })
            &&& b.modal.palette_query == a.modal.palette_query
            &&& b.modal.palette_scroll_offset == palette_scroll(
                b.modal.palette_selected as int,
                a.modal.palette_scroll_offset as int,
                found.len() as int,
            )
        })
        &&& (nav_direction(key) is None && key.code is Char ==> {
            &&& b.modal.palette_query@ == a.modal.palette_query@.push(key.code->Char_0)
            &&& b.modal.palette_selected == 0
            &&& b.modal.palette_scroll_offset == 0
        })
        &&& (key.code == KeyCode::Backspace ==> {
            &&& b.modal.palette_query@ == (if a.modal.palette_query@.len() > 0 {
                a.modal.palette_query@.drop_last()
            } else {
                a.modal.palette_query@
            })
            &&& b.modal.palette_selected == 0
            &&& b.modal.palette_scroll_offset == 0
        })
        &&& (nav_direction(key) is None && !(key.code is Char) && key.code != KeyCode::Backspace ==> b == a)
    })
}

impl CommandPaletteHandler {
    /// Handle a key in the palette.
    pub fn handle(&self, app: &mut App, key: &KeyEvent) -> (r: KeyOutcome)
        ensures
            palette_handled(*old(app), *final(app), *key, r),
    {
        let matches = fuzzy_match_palette_commands(&app.modal.palette_query, PALETTE_PAGE_SIZE);
        let mut transitions = palette_transitions();
        match transitions.handle(key) {
            Some(Transition::Enter) => {
                let sel = app.modal.palette_selected;
                restore_input(app);
                if sel < matches.len() {
                    let ghost left = *app;
                    let act = execute_palette_command(app, matches[sel].id);
                    assert(palette_left(*old(app), left));
                    return KeyOutcome::Palette(act);
                }
                return KeyOutcome::Continue;
            },
            Some(Transition::Esc) => {
                restore_input(app);
                return KeyOutcome::Continue;
            },
            Some(Transition::CtrlC) => {
                app.modal.palette_query = Vec::new();
                app.modal.palette_selected = 0;
                app.modal.palette_scroll_offset = 0;
                return KeyOutcome::Continue;
            },
            _ => {},
        }
        if is_nav_key(key) {
            let nav = NavigationLayer::new(matches.len(), NavTarget::Palette);
            nav.handle(app, key);
            update_scroll(app, matches.len());
            return KeyOutcome::Continue;
        }
        match key.code {
            KeyCode::Char(c) => {
                app.modal.palette_query.push(c);
                app.modal.palette_selected = 0;
                app.modal.palette_scroll_offset = 0;
            },
            KeyCode::Backspace => {
                let ghost q = app.modal.palette_query@;
                app.modal.palette_query.pop();
                app.modal.palette_selected = 0;
                app.modal.palette_scroll_offset = 0;
                proof {
                    if q.len() > 0 {
                        assert(app.modal.palette_query@ =~= q.drop_last());
                    }
                }
            },
            _ => {},
        }
        KeyOutcome::Continue
    }
}

/// The transitions of the command palette.
pub open spec fn palette_layer() -> StateTransitionLayer {
    StateTransitionLayer {
        enter: true,
        esc: true,
        ctrl_c: true,
        ctrl_k: false,
        alt_enter: false,
        shift_enter: false,
        ctrl_g: false,
    }
}

fn palette_transitions() -> (l: StateTransitionLayer)
    ensures
        l == palette_layer(),
{
    StateTransitionLayer::new().with_enter().with_esc().with_ctrl_c()
}

/// The init popup: Enter on Yes (0) asks for `AGENTS.md` to be generated,
/// Enter on No or Esc dismisses; Up/Down choose.
pub struct InitPopupHandler;

/// What a key does in the init popup.
pub open spec fn init_popup_handled(a: App, b: App, key: KeyEvent, r: KeyOutcome) -> bool {
    &&& keeps_session(a, b)
    &&& b.editor == a.editor
    &&& b.display == a.display
    &&& b.sent_messages == a.sent_messages
    &&& (key.code == KeyCode::Enter && !key.shift && !key.alt && a.modal.popup_selection == 0 ==> {
        &&& r matches KeyOutcome::RunTurn(p) && p@ == GENERATE_PROMPT@
        &&& b.modal.state == AppState::Idle
        &&& b.chat.messages@.len() == a.chat.messages@.len() + 1
        &&& b.chat.messages@.last() matches ChatMessage::User(u) && u@ == GENERATE_CHAT_MESSAGE@
    })
    &&& (key.code == KeyCode::Enter && !key.shift && !key.alt && a.modal.popup_selection != 0 ==> r is Continue
        && b.modal.state == AppState::Idle && b.chat == a.chat)
    &&& (key.code == KeyCode::Esc ==> r is Continue && b.modal.state == AppState::Idle && b.chat == a.chat)
    &&& (key.code != KeyCode::Esc && key.code != KeyCode::Enter && nav_direction(key) is None ==> r is Continue && b == a)
    &&& (key.code != KeyCode::Esc && key.code != KeyCode::Enter && nav_direction(key) == Some(false) ==> r is Continue
        && b.modal.popup_selection == index_down(a.modal.popup_selection as nat, 2))
    &&& (key.code != KeyCode::Esc && key.code != KeyCode::Enter && nav_direction(key) == Some(true) ==> r is Continue
        && b.modal.popup_selection == index_up(a.modal.popup_selection as nat, 2))
}

impl InitPopupHandler {
    /// Handle a key in the init popup.
    pub fn handle(&self, app: &mut App, key: &KeyEvent) -> (r: KeyOutcome)
        ensures
            init_popup_handled(*old(app), *final(app), *key, r),
    {
        let mut transitions = StateTransitionLayer::new().with_enter().with_esc();
        match transitions.handle(key) {
            Some(Transition::Enter) => {
                app.modal.state = AppState::Idle;
                if app.modal.popup_selection == 0 {
                    app.chat.messages.push(ChatMessage::User(String::from_str(GENERATE_CHAT_MESSAGE)));
                    return KeyOutcome::RunTurn(String::from_str(GENERATE_PROMPT));
                }
                return KeyOutcome::Continue;
            },
            Some(Transition::Esc) => {
                app.modal.state = AppState::Idle;
                return KeyOutcome::Continue;
            },
            _ => {},
        }
        let nav = NavigationLayer::new(2, NavTarget::InitPopup);
        nav.handle(app, key);
        KeyOutcome::Continue
    }
}

/// The session list: Enter loads the selected session, Esc cancels;
/// Up/Down choose.
pub struct SessionSelectHandler;

/// What a key does in the session list.
pub open spec fn session_select_handled(a: App, b: App, key: KeyEvent, r: KeyOutcome) -> bool {
    &&& keeps_session(a, b)
    &&& b.editor == a.editor
    &&& b.display == a.display
    &&& b.sent_messages == a.sent_messages
    &&& (key.code == KeyCode::Enter && !key.shift && !key.alt ==> r == KeyOutcome::LoadSession(a.modal.session_select_index)
        && b == a)
    &&& (key.code == KeyCode::Esc ==> r is Continue && b.modal.state == AppState::Idle
        && pushed_system(a.chat.messages@, b.chat.messages@, "Session selection cancelled."@)
        && b.chat.auto_scroll)
    &&& (key.code != KeyCode::Esc && key.code != KeyCode::Enter && (nav_direction(key) is None
        || a.modal.session_count == 0) ==> r is Continue && b == a)
    &&& (key.code != KeyCode::Esc && key.code != KeyCode::Enter && nav_direction(key) == Some(false) && a.modal.session_count > 0 ==> r is Continue
        && b.modal.session_select_index == index_down(a.modal.session_select_index as nat, a.modal.session_count as nat))
    &&& (key.code != KeyCode::Esc && key.code != KeyCode::Enter && nav_direction(key) == Some(true) && a.modal.session_count > 0 ==> r is Continue
        && b.modal.session_select_index == index_up(a.modal.session_select_index as nat, a.modal.session_count as nat))
}

impl SessionSelectHandler {
    /// Handle a key in the session list.
    pub fn handle(&self, app: &mut App, key: &KeyEvent) -> (r: KeyOutcome)
        ensures
            session_select_handled(*old(app), *final(app), *key, r),
    {
        let mut transitions = StateTransitionLayer::new().with_enter().with_esc();
        match transitions.handle(key) {
            Some(Transition::Enter) => {
                return KeyOutcome::LoadSession(app.modal.session_select_index);
            },
            Some(Transition::Esc) => {
                app.modal.state = AppState::Idle;
                app.chat.add_system_message(String::from_str("Session selection cancelled."));
                app.chat.follow();
                return KeyOutcome::Continue;
            },
            _ => {},
        }
        let nav = NavigationLayer::new(app.modal.session_count, NavTarget::Sessions);
        nav.handle(app, key);
        KeyOutcome::Continue
    }
}

/// A saved session was loaded into the chat: go idle and follow it.
pub fn session_loaded(app: &mut App)
    ensures
        final(app).modal.state == AppState::Idle,
        final(app).chat.auto_scroll,
        final(app).chat.messages@ == old(app).chat.messages@,
{
    app.modal.state = AppState::Idle;
    app.chat.follow();
}

/// The help popup: Esc dismisses it.
pub struct HelpPopupHandler;

/// What a key does in the help popup.
pub open spec fn help_popup_handled(a: App, b: App, key: KeyEvent, r: KeyOutcome) -> bool {
    &&& r is Continue
    &&& (key.code == KeyCode::Esc ==> b == (App { modal: ModalState { state: AppState::Idle, ..a.modal }, ..a }))
    &&& (key.code != KeyCode::Esc ==> b == a)
}

impl HelpPopupHandler {
    /// Handle a key in the help popup.
    pub fn handle(&self, app: &mut App, key: &KeyEvent) -> (r: KeyOutcome)
        ensures
            help_popup_handled(*old(app), *final(app), *key, r),
    {
        if key.code == KeyCode::Esc {
            app.modal.state = AppState::Idle;
        }
        KeyOutcome::Continue
    }
}

/// The token statistics dialog: Esc dismisses it.
pub struct TokenStatsHandler;

/// What a key does in the statistics dialog.
pub open spec fn token_stats_handled(a: App, b: App, key: KeyEvent, r: KeyOutcome) -> bool {
    &&& r is Continue
    &&& (key.code == KeyCode::Esc ==> b == (App { modal: ModalState { state: AppState::Idle, ..a.modal }, ..a }))
    &&& (key.code != KeyCode::Esc ==> b == a)
}

impl TokenStatsHandler {
    /// Handle a key in the statistics dialog.
    pub fn handle(&self, app: &mut App, key: &KeyEvent) -> (r: KeyOutcome)
        ensures
            token_stats_handled(*old(app), *final(app), *key, r),
    {
        if key.code == KeyCode::Esc {
            app.modal.state = AppState::Idle;
        }
        KeyOutcome::Continue
    }
}

/// The handler of each application state.
#[derive(Clone, Copy, Debug, PartialEq, Eq, Structural)]
pub enum StateHandler {
    Idle,
    SessionSelect,
    InitPopup,
    CommandPalette,
    HelpPopup,
    TokenStats,
}

/// The handler for a state: the modal states have their own; every other
/// state types into the input like the idle state.
pub open spec fn handler_for(s: AppState) -> StateHandler {
    match s {
        AppState::SessionSelect => StateHandler::SessionSelect,
        AppState::InitPopup => StateHandler::InitPopup,
        AppState::CommandPalette => StateHandler::CommandPalette,
        AppState::HelpPopup => StateHandler::HelpPopup,
        AppState::TokenStats => StateHandler::TokenStats,
        _ => StateHandler::Idle,
    }
}

/// The handler of the application's current state.
pub fn current_handler(app: &App) -> (h: StateHandler)
    ensures
        h == handler_for(app.modal.state),
{
    match app.modal.state {
        AppState::SessionSelect => StateHandler::SessionSelect,
        AppState::InitPopup => StateHandler::InitPopup,
        AppState::CommandPalette => StateHandler::CommandPalette,
        AppState::HelpPopup => StateHandler::HelpPopup,
        AppState::TokenStats => StateHandler::TokenStats,
        _ => StateHandler::Idle,
    }
}

impl StateHandler {
    /// Run the handler: each variant does what its state's handler does.
    pub fn handle(&self, app: &mut App, key: &KeyEvent) -> (r: KeyOutcome)
        requires
            editor_ok(old(app).editor),
            old(app).editor.input@.len() < usize::MAX,
        ensures
            *self == StateHandler::Idle ==> idle_handled(*old(app), *final(app), *key, r),
            *self == StateHandler::SessionSelect ==> session_select_handled(*old(app), *final(app), *key, r),
            *self == StateHandler::InitPopup ==> init_popup_handled(*old(app), *final(app), *key, r),
            *self == StateHandler::CommandPalette ==> palette_handled(*old(app), *final(app), *key, r),
            *self == StateHandler::HelpPopup ==> help_popup_handled(*old(app), *final(app), *key, r),
            *self == StateHandler::TokenStats ==> token_stats_handled(*old(app), *final(app), *key, r),
    {
        match self {
            StateHandler::Idle => IdleHandler.handle(app, key),
            StateHandler::SessionSelect => SessionSelectHandler.handle(app, key),
            StateHandler::InitPopup => InitPopupHandler.handle(app, key),
            StateHandler::CommandPalette => CommandPaletteHandler.handle(app, key),
            StateHandler::HelpPopup => HelpPopupHandler.handle(app, key),
            StateHandler::TokenStats => TokenStatsHandler.handle(app, key),
        }
    }
}

} // verus!

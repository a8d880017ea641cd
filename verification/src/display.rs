//! Display modes of the chat view that the user toggles from the keyboard
//! or the command palette, and that the configuration persists.

use vstd::prelude::*;
use vstd::string::StringExecFns;

verus! {

/// How thinking (reasoning) blocks are shown.
#[derive(Clone, Copy, Debug, PartialEq, Eq, Structural)]
pub enum ThinkingDisplay {
    /// Not shown at all.
    Hidden,
    /// Shown as a few lines.
    Collapsed,
    /// Shown in full.
    Expanded,
}

/// How hook messages are shown.
#[derive(Clone, Copy, Debug, PartialEq, Eq, Structural)]
pub enum HookDisplay {
    /// Not shown at all.
    Hidden,
    /// One line per hook run.
    Minimal,
    /// With the hook's output.
    Full,
}

/// The next thinking mode in the cycle collapsed → expanded → hidden → collapsed.
pub open spec fn next_thinking(d: ThinkingDisplay) -> ThinkingDisplay {
    match d {
        ThinkingDisplay::Collapsed => ThinkingDisplay::Expanded,
        ThinkingDisplay::Expanded => ThinkingDisplay::Hidden,
        ThinkingDisplay::Hidden => ThinkingDisplay::Collapsed,
    }
}

/// The lower-case name of a thinking mode (its configuration value).
pub open spec fn thinking_name(d: ThinkingDisplay) -> Seq<char> {
    match d {
        ThinkingDisplay::Hidden => "hidden"@,
        ThinkingDisplay::Collapsed => "collapsed"@,
        ThinkingDisplay::Expanded => "expanded"@,
    }
}

/// The next hook mode in the cycle minimal → full → hidden → minimal.
pub open spec fn next_hook(d: HookDisplay) -> HookDisplay {
    match d {
        HookDisplay::Minimal => HookDisplay::Full,
        HookDisplay::Full => HookDisplay::Hidden,
        HookDisplay::Hidden => HookDisplay::Minimal,
    }
}

/// The lower-case name of a hook mode (its configuration value).
pub open spec fn hook_name(d: HookDisplay) -> Seq<char> {
    match d {
        HookDisplay::Hidden => "hidden"@,
        HookDisplay::Minimal => "minimal"@,
        HookDisplay::Full => "full"@,
    }
}

/// `[current → next]`, the mode switch a toggle performs.
pub open spec fn mode_switch(current: Seq<char>, next: Seq<char>) -> Seq<char> {
    "["@ + current + " → "@ + next + "]"@
}

fn mode_switch_string(current: &str, next: &str) -> (s: String)
    ensures
        s@ == mode_switch(current@, next@),
{
    let mut s = String::from_str("[");
    s.append(current);
    s.append(" → ");
    s.append(next);
    s.append("]");
    s
}

impl ThinkingDisplay {
    /// The default mode: collapsed.
    pub fn default_mode() -> (d: ThinkingDisplay)
        ensures
            d == ThinkingDisplay::Collapsed,
    {
        ThinkingDisplay::Collapsed
    }

    /// The next mode in the cycle.
    pub fn toggle(self) -> (d: ThinkingDisplay)
        ensures
            d == next_thinking(self),
    {
        match self {
            ThinkingDisplay::Collapsed => ThinkingDisplay::Expanded,
            ThinkingDisplay::Expanded => ThinkingDisplay::Hidden,
            ThinkingDisplay::Hidden => ThinkingDisplay::Collapsed,
        }
    }

    /// The mode's configuration name.
    pub fn name(&self) -> (s: &'static str)
        ensures
            s@ == thinking_name(*self),
    {
        match self {
            ThinkingDisplay::Hidden => "hidden",
            ThinkingDisplay::Collapsed => "collapsed",
            ThinkingDisplay::Expanded => "expanded",
        }
    }

    /// `[current → next]` for the command palette.
    pub fn palette_mode_display(&self) -> (s: String)
        ensures
            s@ == mode_switch(thinking_name(*self), thinking_name(next_thinking(*self))),
    {
        let next = self.toggle();
        mode_switch_string(self.name(), next.name())
    }
}

impl HookDisplay {
    /// The default mode: minimal.
    pub fn default_mode() -> (d: HookDisplay)
        ensures
            d == HookDisplay::Minimal,
    {
        HookDisplay::Minimal
    }

    /// The next mode in the cycle.
    pub fn toggle(self) -> (d: HookDisplay)
        ensures
            d == next_hook(self),
    {
        match self {
            HookDisplay::Minimal => HookDisplay::Full,
            HookDisplay::Full => HookDisplay::Hidden,
            HookDisplay::Hidden => HookDisplay::Minimal,
        }
    }

    /// The mode's configuration name.
    pub fn name(&self) -> (s: &'static str)
        ensures
            s@ == hook_name(*self),
    {
        match self {
            HookDisplay::Hidden => "hidden",
            HookDisplay::Minimal => "minimal",
            HookDisplay::Full => "full",
        }
    }

    /// `[current → next]` for the command palette.
    pub fn palette_mode_display(&self) -> (s: String)
        ensures
            s@ == mode_switch(hook_name(*self), hook_name(next_hook(*self))),
    {
        let next = self.toggle();
        mode_switch_string(self.name(), next.name())
    }
}

/// Law: toggling the thinking mode three times returns to the start.
pub proof fn law_thinking_toggle_cycles(d: ThinkingDisplay)
    ensures
        next_thinking(next_thinking(next_thinking(d))) == d,
        next_thinking(d) != d,
{
}

/// Law: toggling the hook mode three times returns to the start.
pub proof fn law_hook_toggle_cycles(d: HookDisplay)
    ensures
        next_hook(next_hook(next_hook(d))) == d,
        next_hook(d) != d,
{
}

} // verus!

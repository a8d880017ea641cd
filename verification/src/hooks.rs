//! Hooks: shell scripts that run at lifecycle points of the agent.
//!
//! A hook that exits 0 succeeds (its output may be injected as context),
//! one that exits 2 blocks the action, any other exit code is a
//! non-blocking error. Hooks live in `hooks/<Event>/` under the global
//! configuration directory and under the project's `.respondami/`
//! directory; project hooks come first.

use vstd::prelude::*;
use crate::text::{chars_of, decimal, decimal_string, truncate_to_bytes, utf8_len};
use vstd::string::StringExecFns;
use vstd::utf8::{decode_utf8, valid_utf8};

verus! {

broadcast use vstd::string::group_string_axioms;

/// The five lifecycle events a hook can fire on.
#[derive(Clone, Copy, Debug, PartialEq, Eq, Structural, Hash)]
pub enum HookEvent {
    UserPromptSubmit,
    PreToolUse,
    PostToolUse,
    Stop,
    PreCompact,
}

/// The name of an event, which is also the name of its hook directory.
pub open spec fn event_name(e: HookEvent) -> Seq<char> {
    match e {
        HookEvent::UserPromptSubmit => "UserPromptSubmit"@,
        HookEvent::PreToolUse => "PreToolUse"@,
        HookEvent::PostToolUse => "PostToolUse"@,
        HookEvent::Stop => "Stop"@,
        HookEvent::PreCompact => "PreCompact"@,
    }
}

/// Every event, in the order in which hook directories are scanned.
pub open spec fn all_events() -> Seq<HookEvent> {
    seq![
        HookEvent::UserPromptSubmit,
        HookEvent::PreToolUse,
        HookEvent::PostToolUse,
        HookEvent::Stop,
        HookEvent::PreCompact,
    ]
}

impl HookEvent {
    /// Directory name for directory-based hooks (e.g. `PreToolUse`).
    pub fn as_dir_name(&self) -> (s: &'static str)
        ensures
            s@ == event_name(*self),
    {
        match self {
            HookEvent::UserPromptSubmit => "UserPromptSubmit",
            HookEvent::PreToolUse => "PreToolUse",
            HookEvent::PostToolUse => "PostToolUse",
            HookEvent::Stop => "Stop",
            HookEvent::PreCompact => "PreCompact",
        }
    }

    /// The event's name as an owned string (its display form).
    pub fn to_display_string(&self) -> (s: String)
        ensures
            s@ == event_name(*self),
    {
        String::from_str(self.as_dir_name())
    }

    /// All possible hook events.
    pub fn all() -> (v: Vec<HookEvent>)
        ensures
            v@ == all_events(),
    {
        let v = vec![
            HookEvent::UserPromptSubmit,
            HookEvent::PreToolUse,
            HookEvent::PostToolUse,
            HookEvent::Stop,
            HookEvent::PreCompact,
        ];
        assert(v@ =~= all_events());
        v
    }
}

/// Where a hook was loaded from.
#[derive(Clone, Copy, Debug, PartialEq, Eq, Structural)]
pub enum HookSource {
    /// From the global configuration directory.
    Global,
    /// From the project's `.respondami/` directory.
    Project,
}

impl HookSource {
    /// `global` or `project`.
    pub fn to_display_string(&self) -> (s: String)
        ensures
            s@ == (match *self {
                HookSource::Global => "global"@,
                HookSource::Project => "project"@,
            }),
    {
        match self {
            HookSource::Global => String::from_str("global"),
            HookSource::Project => String::from_str("project"),
        }
    }
}

/// A hook definition.
pub struct Hook {
    /// The event this hook fires on.
    pub event: HookEvent,
    /// The hook name (script file name).
    pub name: String,
    /// The shell command to execute.
    pub command: String,
    /// Where this hook was loaded from.
    pub source: HookSource,
}

/// Registry of all active hooks, one list per event, each in the order the
/// hooks were added.
pub struct HookRegistry {
    user_prompt_submit: Vec<Hook>,
    pre_tool_use: Vec<Hook>,
    post_tool_use: Vec<Hook>,
    stop: Vec<Hook>,
    pre_compact: Vec<Hook>,
}

impl HookRegistry {
    /// The hooks registered for `e`, in the order they were added.
    pub closed spec fn hooks_for(&self, e: HookEvent) -> Seq<Hook> {
        match e {
            HookEvent::UserPromptSubmit => self.user_prompt_submit@,
            HookEvent::PreToolUse => self.pre_tool_use@,
            HookEvent::PostToolUse => self.post_tool_use@,
            HookEvent::Stop => self.stop@,
            HookEvent::PreCompact => self.pre_compact@,
        }
    }

    /// Total number of registered hooks.
    pub open spec fn total(&self) -> nat {
        self.hooks_for(HookEvent::UserPromptSubmit).len() + self.hooks_for(HookEvent::PreToolUse).len()
            + self.hooks_for(HookEvent::PostToolUse).len() + self.hooks_for(HookEvent::Stop).len()
            + self.hooks_for(HookEvent::PreCompact).len()
    }

    /// A new, empty registry.
    pub fn new() -> (r: Self)
        ensures
            forall|e: HookEvent| (#[trigger] r.hooks_for(e)).len() == 0,
    {
        HookRegistry {
            user_prompt_submit: Vec::new(),
            pre_tool_use: Vec::new(),
            post_tool_use: Vec::new(),
            stop: Vec::new(),
            pre_compact: Vec::new(),
        }
    }

    /// The hooks registered for `event`.
    pub fn hooks(&self, event: HookEvent) -> (r: &[Hook])
        ensures
            r@ == self.hooks_for(event),
    {
        match event {
            HookEvent::UserPromptSubmit => self.user_prompt_submit.as_slice(),
            HookEvent::PreToolUse => self.pre_tool_use.as_slice(),
            HookEvent::PostToolUse => self.post_tool_use.as_slice(),
            HookEvent::Stop => self.stop.as_slice(),
            HookEvent::PreCompact => self.pre_compact.as_slice(),
        }
    }

    /// Add `hook` at the end of the list of its event.
    pub fn add(&mut self, hook: Hook)
        ensures
            final(self).hooks_for(hook.event) == old(self).hooks_for(hook.event).push(hook),
            forall|e: HookEvent|
                e != hook.event ==> #[trigger] final(self).hooks_for(e) == old(self).hooks_for(e),
    {
        match hook.event {
            HookEvent::UserPromptSubmit => self.user_prompt_submit.push(hook),
            HookEvent::PreToolUse => self.pre_tool_use.push(hook),
            HookEvent::PostToolUse => self.post_tool_use.push(hook),
            HookEvent::Stop => self.stop.push(hook),
            HookEvent::PreCompact => self.pre_compact.push(hook),
        }
    }

    /// Whether any hook is registered for `event`.
    pub fn has_hooks(&self, event: HookEvent) -> (b: bool)
        ensures
            b == (self.hooks_for(event).len() > 0),
    {
        self.hooks(event).len() > 0
    }

    /// Total number of hooks across all events.
    pub fn total_count(&self) -> (n: usize)
        requires
            self.total() <= usize::MAX,
        ensures
            n == self.total(),
    {
        self.user_prompt_submit.len() + self.pre_tool_use.len() + self.post_tool_use.len()
            + self.stop.len() + self.pre_compact.len()
    }
}


/// Code-point lexicographic order on names from position `i` on: whether
/// `a[i..]` sorts strictly before `b[i..]`. On strings this is the order
/// `String`'s `Ord` gives, since UTF-8 preserves code-point order.
pub open spec fn lex_less_from(a: Seq<char>, b: Seq<char>, i: int) -> bool
    decreases a.len() - i,
{
    if i >= a.len() {
        i < b.len()
    } else if i >= b.len() {
        false
    } else if a[i] != b[i] {
        (a[i] as u32) < (b[i] as u32)
    } else {
        lex_less_from(a, b, i + 1)
    }
}

/// `a` sorts strictly before `b`.
pub open spec fn name_less(a: Seq<char>, b: Seq<char>) -> bool {
    lex_less_from(a, b, 0)
}

proof fn lemma_lex_asym(a: Seq<char>, b: Seq<char>, i: int)
    requires
        0 <= i,
    ensures
        lex_less_from(a, b, i) ==> !lex_less_from(b, a, i),
    decreases a.len() - i,
{
    if i < a.len() && i < b.len() && a[i] == b[i] {
        lemma_lex_asym(a, b, i + 1);
    }
}

proof fn lemma_lex_trans(a: Seq<char>, b: Seq<char>, c: Seq<char>, i: int)
    requires
        0 <= i,
        lex_less_from(a, b, i),
        lex_less_from(b, c, i),
    ensures
        lex_less_from(a, c, i),
    decreases a.len() - i,
{
    if i < a.len() && i < b.len() && i < c.len() && a[i] == b[i] && b[i] == c[i] {
        lemma_lex_trans(a, b, c, i + 1);
    }
}

proof fn lemma_lex_total(a: Seq<char>, b: Seq<char>, i: int)
    requires
        0 <= i <= a.len(),
        i <= b.len(),
        a.take(i) == b.take(i),
    ensures
        lex_less_from(a, b, i) || lex_less_from(b, a, i) || a == b,
    decreases a.len() - i,
{
    if i < a.len() && i < b.len() && a[i] == b[i] {
        assert(a.take(i + 1) =~= a.take(i).push(a[i]));
        assert(b.take(i + 1) =~= b.take(i).push(b[i]));
        lemma_lex_total(a, b, i + 1);
    } else if i == a.len() && i == b.len() {
        assert(a =~= a.take(i));
        assert(b =~= b.take(i));
    } else if i < a.len() && i < b.len() {
        let x = a[i] as u32;
        let y = b[i] as u32;
        assert(a[i] != b[i]);
        assert(x != y) by {
            vstd::utf8::char_u32_cast(a[i], x);
            vstd::utf8::char_u32_cast(b[i], y);
        }
    }
}

/// "Not before" is transitive.
proof fn lemma_not_less_trans(a: Seq<char>, b: Seq<char>, c: Seq<char>)
    requires
        !name_less(a, b),
        !name_less(b, c),
    ensures
        !name_less(a, c),
{
    assert(a.take(0) =~= b.take(0));
    assert(b.take(0) =~= c.take(0));
    lemma_lex_total(a, b, 0);
    lemma_lex_total(b, c, 0);
    if name_less(a, c) {
        if name_less(b, a) {
            if name_less(c, b) {
                lemma_lex_trans(a, c, b, 0);
            }
        }
    }
}

/// Whether `a` sorts strictly before `b`.
pub fn name_less_exec(a: &str, b: &str) -> (r: bool)
    ensures
        r == name_less(a@, b@),
{
    let ca = chars_of(a);
    let cb = chars_of(b);
    let mut i: usize = 0;
    loop
        invariant
            ca@ == a@,
            cb@ == b@,
            i <= ca@.len(),
            i <= cb@.len(),
            name_less(a@, b@) == lex_less_from(a@, b@, i as int),
        decreases ca@.len() - i,
    {
        if i >= ca.len() {
            return i < cb.len();
        }
        if i >= cb.len() {
            return false;
        }
        if ca[i] != cb[i] {
            return (ca[i] as u32) < (cb[i] as u32);
        }
        i = i + 1;
    }
}

/// The names of `hs` never decrease.
pub open spec fn sorted_by_name(hs: Seq<Hook>) -> bool {
    forall|i: int, j: int| 0 <= i < j < hs.len() ==> !name_less(#[trigger] hs[j].name@, #[trigger] hs[i].name@)
}

/// Hooks with the name `n`.
pub open spec fn has_name(n: Seq<char>) -> spec_fn(Hook) -> bool {
    |h: Hook| h.name@ == n
}

/// Filtering keeps nothing when no element passes.
proof fn lemma_filter_none(s: Seq<Hook>, p: spec_fn(Hook) -> bool)
    requires
        forall|i: int| 0 <= i < s.len() ==> !p(#[trigger] s[i]),
    ensures
        s.filter(p) == Seq::<Hook>::empty(),
    decreases s.len(),
{
    reveal(Seq::filter);
    if s.len() > 0 {
        lemma_filter_none(s.drop_last(), p);
    }
}

/// Filtering a single element.
proof fn lemma_filter_one(h: Hook, p: spec_fn(Hook) -> bool)
    ensures
        seq![h].filter(p) == (if p(h) { seq![h] } else { Seq::<Hook>::empty() }),
{
    reveal_with_fuel(Seq::filter, 2);
    assert(seq![h].drop_last() =~= Seq::<Hook>::empty());
}

/// Sort hooks by name, keeping hooks with equal names in their given order.
pub fn sort_hooks_by_name(hooks: Vec<Hook>) -> (r: Vec<Hook>)
    ensures
        r@.to_multiset() == hooks@.to_multiset(),
        sorted_by_name(r@),
        forall|n: Seq<char>| #[trigger] r@.filter(has_name(n)) == hooks@.filter(has_name(n)),
{
    broadcast use vstd::seq_lib::group_to_multiset_ensures;

    let ghost orig = hooks@;
    let mut rest = hooks;
    let mut out: Vec<Hook> = Vec::new();
    proof {
        assert forall|n: Seq<char>| #[trigger] out@.filter(has_name(n)) == orig.skip(orig.len() as int).filter(has_name(n)) by {
            lemma_filter_none(out@, has_name(n));
            lemma_filter_none(orig.skip(orig.len() as int), has_name(n));
        }
    }
    while rest.len() > 0
        invariant
            rest@.to_multiset().add(out@.to_multiset()) == orig.to_multiset(),
            sorted_by_name(out@),
            rest@ == orig.take(rest@.len() as int),
            rest@.len() <= orig.len(),
            forall|n: Seq<char>| #[trigger] out@.filter(has_name(n)) == orig.skip(rest@.len() as int).filter(has_name(n)),
        decreases rest@.len(),
    {
        let ghost before = rest@;
        let h = rest.pop().unwrap();
        proof {
            assert(before =~= rest@.push(h));
            vstd::seq_lib::to_multiset_build(rest@, h);
            assert(rest@ =~= orig.take(rest@.len() as int));
            assert(h == orig[rest@.len() as int]);
        }
        let mut pos: usize = 0;
        while pos < out.len() && name_less_exec(out[pos].name.as_str(), h.name.as_str())
            invariant
                pos <= out@.len(),
                forall|k: int| 0 <= k < pos ==> name_less(#[trigger] out@[k].name@, h.name@),
            decreases out@.len() - pos,
        {
            pos = pos + 1;
        }
        let ghost old_out = out@;
        proof {
            assert forall|k: int| pos <= k < old_out.len() implies !name_less(#[trigger] old_out[k].name@, h.name@) by {
                if k > pos {
                    lemma_not_less_trans(old_out[k].name@, old_out[pos as int].name@, h.name@);
                }
            }
            assert forall|k: int| 0 <= k < pos implies !name_less(h.name@, #[trigger] old_out[k].name@) by {
                lemma_lex_asym(old_out[k].name@, h.name@, 0);
            }
        }
        out.insert(pos, h);
        proof {
            let k = rest@.len() as int;
            assert(orig.skip(k) =~= seq![h] + orig.skip(k + 1));
            assert(out@ =~= old_out.take(pos as int) + seq![h] + old_out.skip(pos as int));
            assert(old_out =~= old_out.take(pos as int) + old_out.skip(pos as int));
            assert forall|n: Seq<char>| #[trigger] out@.filter(has_name(n)) == orig.skip(k).filter(has_name(n)) by {
                let p = has_name(n);
                Seq::filter_distributes_over_add(old_out.take(pos as int) + seq![h], old_out.skip(pos as int), p);
                Seq::filter_distributes_over_add(old_out.take(pos as int), seq![h], p);
                Seq::filter_distributes_over_add(old_out.take(pos as int), old_out.skip(pos as int), p);
                orig.skip(k + 1).lemma_filter_prepend(h, p);
                lemma_filter_one(h, p);
                if p(h) {
                    assert forall|i: int| 0 <= i < old_out.take(pos as int).len() implies !p(#[trigger] old_out.take(pos as int)[i]) by {
                        lemma_lex_asym(h.name@, h.name@, 0);
                        assert(name_less(old_out[i].name@, h.name@));
                    }
                    lemma_filter_none(old_out.take(pos as int), p);
                    assert(out@.filter(p) =~= seq![h] + old_out.filter(p));
                } else {
                    assert(out@.filter(p) =~= old_out.filter(p));
                }
            }
            vstd::seq_lib::to_multiset_insert(old_out, pos as int, h);
            let s = out@;
            assert forall|i: int, j: int| 0 <= i < j < s.len() implies !name_less(#[trigger] s[j].name@, #[trigger] s[i].name@) by {
                if j < pos {
                    assert(s[i] == old_out[i] && s[j] == old_out[j]);
                } else if j == pos {
                    assert(s[i] == old_out[i]);
                } else if i < pos {
                    assert(s[i] == old_out[i] && s[j] == old_out[j - 1]);
                    assert(!name_less(old_out[j - 1].name@, h.name@));
                    assert(!name_less(h.name@, old_out[i].name@));
                    lemma_not_less_trans(old_out[j - 1].name@, h.name@, old_out[i].name@);
                } else if i == pos {
                    assert(s[j] == old_out[j - 1]);
                } else {
                    assert(s[i] == old_out[i - 1] && s[j] == old_out[j - 1]);
                }
            }
        }
    }
    proof {
        assert(rest@ =~= Seq::<Hook>::empty());
        assert(rest@.to_multiset() =~= vstd::multiset::Multiset::empty());
        assert(orig.skip(0) =~= orig);
    }
    out
}


/// Index of the last `.` in `name[..i]`, or -1 when there is none.
pub open spec fn last_dot_before(name: Seq<char>, i: int) -> int
    decreases i,
{
    if i <= 0 {
        -1
    } else if name[i - 1] == '.' {
        i - 1
    } else {
        last_dot_before(name, i - 1)
    }
}

/// The extension of a file name as `Path::extension` reads it: the text
/// after the last `.`, unless there is no `.` or the only one starts the
/// name.
pub open spec fn extension_of(name: Seq<char>) -> Option<Seq<char>> {
    let k = last_dot_before(name, name.len() as int);
    if k <= 0 {
        None
    } else {
        Some(name.subrange(k + 1, name.len() as int))
    }
}

/// Extensions of shell scripts that are run whatever their permissions.
pub open spec fn is_script_extension(ext: Seq<char>) -> bool {
    ext == "sh"@ || ext == "bash"@ || ext == "zsh"@ || ext == "ps1"@
}

/// A file can serve as a hook: it has a script extension, or one of its
/// Unix execute bits is set.
pub open spec fn runnable(name: Seq<char>, mode: Option<u32>) -> bool {
    ||| (extension_of(name) matches Some(ext) && is_script_extension(ext))
    ||| (mode matches Some(m) && m & 0o111u32 != 0)
}

fn same_chars(a: &Vec<char>, from: usize, lit: &str) -> (b: bool)
    requires
        from <= a@.len(),
    ensures
        b == (a@.subrange(from as int, a@.len() as int) == lit@),
{
    let l = chars_of(lit);
    if a.len() - from != l.len() {
        proof {
            assert(a@.subrange(from as int, a@.len() as int).len() != lit@.len());
        }
        return false;
    }
    let mut i: usize = 0;
    let n = a.len();
    while i < l.len()
        invariant
            l@ == lit@,
            from + l@.len() == a@.len(),
            a@.len() <= usize::MAX,
            i <= l@.len(),
            forall|j: int| 0 <= j < i ==> a@[from + j] == #[trigger] l@[j],
        decreases l@.len() - i,
    {
        if a[from + i] != l[i] {
            proof {
                assert(a@.subrange(from as int, a@.len() as int)[i as int] != lit@[i as int]);
            }
            return false;
        }
        i = i + 1;
    }
    assert(a@.subrange(from as int, a@.len() as int) =~= lit@);
    true
}

/// Whether a file with this name and permission bits (`None` when they
/// could not be read) can serve as a hook.
pub fn is_runnable_hook_file(name: &str, mode: Option<u32>) -> (b: bool)
    ensures
        b == runnable(name@, mode),
{
    let cs = chars_of(name);
    let mut i: usize = cs.len();
    while i > 0 && cs[i - 1] != '.'
        invariant
            cs@ == name@,
            i <= cs@.len(),
            last_dot_before(name@, cs@.len() as int) == last_dot_before(name@, i as int),
        decreases i,
    {
        i = i - 1;
    }
    if i > 1 {
        let from = i;
        if same_chars(&cs, from, "sh") || same_chars(&cs, from, "bash") || same_chars(&cs, from, "zsh")
            || same_chars(&cs, from, "ps1") {
            return true;
        }
    }
    match mode {
        Some(m) => m & 0o111u32 != 0,
        None => false,
    }
}

/// One file found in a hook event directory.
pub struct HookEntry {
    /// The event whose directory holds the file.
    pub event: HookEvent,
    /// The file name (empty when it is not valid UTF-8).
    pub file_name: String,
    /// The file's path as displayed in the hook command.
    pub path: String,
    /// Whether the entry is a regular file.
    pub is_file: bool,
    /// Unix permission bits, when they could be read.
    pub mode: Option<u32>,
}

/// Whether an entry yields a hook.
pub open spec fn entry_kept(e: HookEntry) -> bool {
    e.is_file && runnable(e.file_name@, e.mode) && e.file_name@.len() > 0
}

/// The hook an entry yields: it runs `bash <path>`.
pub open spec fn entry_hook_ok(e: HookEntry, source: HookSource, h: Hook) -> bool {
    &&& h.event == e.event
    &&& h.name@ == e.file_name@
    &&& h.command@ == "bash "@ + e.path@
    &&& h.source == source
}

/// The entries of `es` that yield hooks, in order.
pub open spec fn kept_entries(es: Seq<HookEntry>) -> Seq<HookEntry>
    decreases es.len(),
{
    if es.len() == 0 {
        Seq::empty()
    } else if entry_kept(es.last()) {
        kept_entries(es.drop_last()).push(es.last())
    } else {
        kept_entries(es.drop_last())
    }
}

/// The hooks of one hook directory: the runnable files among `entries`,
/// as hooks of `source`, sorted by name (hooks of equal names keep the order
/// of their entries).
pub fn load_directory_hooks(entries: &Vec<HookEntry>, source: HookSource) -> (r: Vec<Hook>)
    ensures
        exists|hs: Seq<Hook>|
            {
                &&& #[trigger] hs.len() == kept_entries(entries@).len()
                &&& forall|k: int|
                    0 <= k < hs.len() ==> entry_hook_ok(kept_entries(entries@)[k], source, #[trigger] hs[k])
                &&& r@.to_multiset() == hs.to_multiset()
                &&& forall|n: Seq<char>| #[trigger] r@.filter(has_name(n)) == hs.filter(has_name(n))
            },
        sorted_by_name(r@),
{
    let mut hooks: Vec<Hook> = Vec::new();
    let mut i: usize = 0;
    while i < entries.len()
        invariant
            i <= entries@.len(),
            hooks@.len() == kept_entries(entries@.take(i as int)).len(),
            forall|k: int|
                0 <= k < hooks@.len() ==> entry_hook_ok(
                    kept_entries(entries@.take(i as int))[k],
                    source,
                    #[trigger] hooks@[k],
                ),
        decreases entries@.len() - i,
    {
        let e = &entries[i];
        proof {
            assert(entries@.take(i as int + 1).drop_last() =~= entries@.take(i as int));
            assert(entries@.take(i as int + 1).last() == entries@[i as int]);
        }
        if e.is_file && is_runnable_hook_file(e.file_name.as_str(), e.mode) && !e.file_name.as_str().is_empty() {
            let mut command = String::from_str("bash ");
            command.append(e.path.as_str());
            let h = Hook { event: e.event, name: e.file_name.clone(), command, source };
            hooks.push(h);
        }
        i = i + 1;
    }
    proof {
        assert(entries@.take(i as int) =~= entries@);
    }
    let ghost hs = hooks@;
    let r = sort_hooks_by_name(hooks);
    assert(hs.len() == kept_entries(entries@).len());
    r
}

/// The hooks of `hs` that fire on `e`, in order.
pub open spec fn hooks_on(hs: Seq<Hook>, e: HookEvent) -> Seq<Hook>
    decreases hs.len(),
{
    if hs.len() == 0 {
        Seq::empty()
    } else if hs.last().event == e {
        hooks_on(hs.drop_last(), e).push(hs.last())
    } else {
        hooks_on(hs.drop_last(), e)
    }
}

impl HookRegistry {
    /// Add every hook of `hs`, in order.
    pub fn add_all(&mut self, hs: Vec<Hook>)
        ensures
            forall|e: HookEvent| #[trigger] final(self).hooks_for(e) == old(self).hooks_for(e) + hooks_on(hs@, e),
    {
        let ghost start = *self;
        let ghost all = hs@;
        let ghost mut taken: Seq<Hook> = Seq::empty();
        let mut rest = hs;
        proof {
            assert forall|e: HookEvent| #[trigger] self.hooks_for(e) == start.hooks_for(e) + hooks_on(taken, e) by {
                assert(start.hooks_for(e) + hooks_on(taken, e) =~= start.hooks_for(e));
            }
            assert(taken + rest@ =~= all);
        }
        while rest.len() > 0
            invariant
                taken + rest@ == all,
                forall|e: HookEvent| #[trigger] self.hooks_for(e) == start.hooks_for(e) + hooks_on(taken, e),
            decreases rest@.len(),
        {
            let ghost before = rest@;
            let h = rest.remove(0);
            let ghost gh = h;
            let ghost t0 = taken;
            self.add(h);
            proof {
                taken = t0.push(gh);
                assert(taken + rest@ =~= t0 + before);
                assert(taken.drop_last() =~= t0);
                assert forall|e: HookEvent| #[trigger] self.hooks_for(e) == start.hooks_for(e) + hooks_on(taken, e) by {
                    if e == gh.event {
                        assert(start.hooks_for(e) + hooks_on(t0, e).push(gh) =~= (start.hooks_for(e) + hooks_on(t0, e)).push(gh));
                    }
                }
            }
        }
        proof {
            assert(taken =~= all);
        }
    }
}

/// Build the registry from the project's hooks and the global hooks:
/// project hooks come first within each event.
pub fn load_all_hooks(project_hooks: Vec<Hook>, global_hooks: Vec<Hook>) -> (r: HookRegistry)
    ensures
        forall|e: HookEvent| #[trigger] r.hooks_for(e) == hooks_on(project_hooks@, e) + hooks_on(global_hooks@, e),
{
    let mut registry = HookRegistry::new();
    registry.add_all(project_hooks);
    registry.add_all(global_hooks);
    proof {
        assert forall|e: HookEvent| #[trigger] registry.hooks_for(e) == hooks_on(project_hooks@, e) + hooks_on(global_hooks@, e) by {
        }
    }
    registry
}


/// Largest hook output, in bytes, kept in full.
pub const MAX_OUTPUT_BYTES: usize = 10_000;

/// How long a hook may run, in seconds.
pub const HOOK_TIMEOUT_SECS: u64 = 30;

/// Context handed to a hook script through environment variables.
pub struct HookContext {
    /// The hook event that triggered this execution.
    pub event: HookEvent,
    /// The hook name (script file name).
    pub hook_name: String,
    /// Current working directory.
    pub cwd: String,
    /// Tool name (`PreToolUse`, `PostToolUse` only).
    pub tool_name: Option<String>,
    /// Tool input as JSON text (`PreToolUse`, `PostToolUse` only).
    pub tool_input: Option<String>,
    /// Tool result as JSON text (`PostToolUse` only).
    pub tool_result: Option<String>,
    /// The user's prompt text (`UserPromptSubmit` only).
    pub prompt: Option<String>,
}

/// Result of executing a hook.
pub struct HookResult {
    /// Exit code of the hook script.
    pub exit_code: i32,
    /// Standard output (capped at `MAX_OUTPUT_BYTES`).
    pub stdout: String,
    /// Standard error (capped at `MAX_OUTPUT_BYTES`).
    pub stderr: String,
    /// Path of a file holding the full standard output, when it was spilled.
    pub stdout_file: Option<String>,
    /// Path of a file holding the full standard error, when it was spilled.
    pub stderr_file: Option<String>,
}

impl HookResult {
    /// The hook succeeded (exit 0).
    pub fn success(&self) -> (b: bool)
        ensures
            b == (self.exit_code == 0),
    {
        self.exit_code == 0
    }

    /// The hook blocked the action (exit 2).
    pub fn blocked(&self) -> (b: bool)
        ensures
            b == (self.exit_code == 2),
    {
        self.exit_code == 2
    }
}

/// What `String::from_utf8_lossy` makes of `bytes`.
pub uninterp spec fn lossy_utf8(bytes: Seq<u8>) -> Seq<char>;

/// `String::from_utf8_lossy`: decodes `bytes`, replacing each invalid
/// sequence with U+FFFD; valid UTF-8 is decoded as it is.
#[verifier::external_body]
fn from_utf8_lossy(bytes: &[u8]) -> (s: String)
    ensures
        s@ == lossy_utf8(bytes@),
        valid_utf8(bytes@) ==> s@ == decode_utf8(bytes@),
{
    String::from_utf8_lossy(bytes).to_string()
}

/// The note appended to truncated output.
pub open spec fn truncation_note(total_bytes: nat) -> Seq<char> {
    "\n\n[Output truncated: "@ + decimal(total_bytes) + " characters total]"@
}

/// The text kept of hook output: all of it when it fits in
/// `MAX_OUTPUT_BYTES`, else its longest whole-character prefix that fits,
/// followed by a note that gives the full length in bytes.
pub open spec fn capped_output_ok(text: Seq<char>, out: Seq<char>) -> bool {
    if utf8_len(text) <= MAX_OUTPUT_BYTES {
        out == text
    } else {
        exists|k: nat|
            {
                &&& k <= text.len()
                &&& #[trigger] utf8_len(text.take(k as int)) <= MAX_OUTPUT_BYTES
                &&& (k < text.len() ==> utf8_len(text.take(k + 1 as int)) > MAX_OUTPUT_BYTES)
                &&& out == text.take(k as int) + truncation_note(utf8_len(text))
            }
    }
}

/// Decode raw hook output (lossily) and cap it at `MAX_OUTPUT_BYTES`.
pub fn process_output(raw: &[u8]) -> (s: String)
    ensures
        capped_output_ok(lossy_utf8(raw@), s@),
{
    let text = from_utf8_lossy(raw);
    let n = text.as_str().as_bytes().len();
    if n <= MAX_OUTPUT_BYTES {
        text
    } else {
        let mut out = truncate_to_bytes(text.as_str(), MAX_OUTPUT_BYTES);
        let ghost k = out@.len();
        let ghost kept = out@;
        let digits = decimal_string(n as u64);
        out.append("\n\n[Output truncated: ");
        let ghost o1 = out@;
        out.append(digits.as_str());
        let ghost o2 = out@;
        out.append(" characters total]");
        proof {
            let t = text@;
            assert(kept == t.take(k as int));
            assert(utf8_len(t.take(k as int)) <= MAX_OUTPUT_BYTES);
            assert(o1 == kept + "\n\n[Output truncated: "@);
            assert(o2 == o1 + decimal(n as nat));
            assert(out@ == o2 + " characters total]"@);
            assert(n == utf8_len(t));
            let a = "\n\n[Output truncated: "@;
            let d = decimal(n as nat);
            let b = " characters total]"@;
            assert(((kept + a) + d) + b =~= kept + ((a + d) + b));
            assert(out@ == t.take(k as int) + truncation_note(utf8_len(t)));
        }
        out
    }
}

/// The environment a hook runs with, as (name, value) pairs.
pub open spec fn hook_env_spec(hook: Hook, ctx: HookContext) -> Seq<(Seq<char>, Seq<char>)> {
    let base = seq![
        ("HOOK_EVENT"@, event_name(hook.event)),
        ("HOOK_NAME"@, hook.name@),
        ("CWD"@, ctx.cwd@),
    ];
    let with_tool = match ctx.tool_name {
        Some(t) => base.push(("TOOL_NAME"@, t@)),
        None => base,
    };
    let with_input = match ctx.tool_input {
        Some(t) => with_tool.push(("TOOL_INPUT"@, t@)),
        None => with_tool,
    };
    let with_result = match ctx.tool_result {
        Some(t) => with_input.push(("TOOL_RESULT"@, t@)),
        None => with_input,
    };
    match ctx.prompt {
        Some(p) => with_result.push(("PROMPT"@, p@)),
        None => with_result,
    }
}

/// `env` sets `name` to `value`.
pub open spec fn env_sets(env: Seq<(Seq<char>, Seq<char>)>, name: Seq<char>, value: Seq<char>) -> bool {
    exists|i: int| 0 <= i < env.len() && #[trigger] env[i] == (name, value)
}

/// `env` does not set `name`.
pub open spec fn env_lacks(env: Seq<(Seq<char>, Seq<char>)>, name: Seq<char>) -> bool {
    forall|i: int| 0 <= i < env.len() ==> (#[trigger] env[i]).0 != name
}

/// An optional context field is passed as `name` exactly when it is there.
pub open spec fn env_passes(env: Seq<(Seq<char>, Seq<char>)>, name: Seq<char>, field: Option<String>) -> bool {
    match field {
        Some(t) => env_sets(env, name, t@),
        None => env_lacks(env, name),
    }
}

proof fn lemma_env_push(env: Seq<(Seq<char>, Seq<char>)>, p: (Seq<char>, Seq<char>), name: Seq<char>, value: Seq<char>)
    ensures
        env_sets(env, name, value) ==> env_sets(env.push(p), name, value),
        p == (name, value) ==> env_sets(env.push(p), name, value),
        env_lacks(env, name) && p.0 != name ==> env_lacks(env.push(p), name),
{
    if env_sets(env, name, value) {
        let i = choose|i: int| 0 <= i < env.len() && #[trigger] env[i] == (name, value);
        assert(env.push(p)[i] == (name, value));
    }
    if p == (name, value) {
        assert(env.push(p)[env.len() as int] == (name, value));
    }
    if env_lacks(env, name) && p.0 != name {
        assert forall|i: int| 0 <= i < env.push(p).len() implies (#[trigger] env.push(p)[i]).0 != name by {
            if i < env.len() {
                assert(env.push(p)[i] == env[i]);
            }
        }
    }
}

/// The environment with an optional field pushed as `key`.
pub open spec fn env_with(env: Seq<(Seq<char>, Seq<char>)>, key: Seq<char>, field: Option<String>) -> Seq<(Seq<char>, Seq<char>)> {
    match field {
        Some(t) => env.push((key, t@)),
        None => env,
    }
}

proof fn lemma_env_with(env: Seq<(Seq<char>, Seq<char>)>, key: Seq<char>, field: Option<String>)
    ensures
        forall|n: Seq<char>, v: Seq<char>| env_sets(env, n, v) ==> #[trigger] env_sets(env_with(env, key, field), n, v),
        forall|n: Seq<char>| env_lacks(env, n) && n != key ==> #[trigger] env_lacks(env_with(env, key, field), n),
        env_lacks(env, key) ==> env_passes(env_with(env, key, field), key, field),
{
    match field {
        Some(t) => {
            assert forall|n: Seq<char>, v: Seq<char>| env_sets(env, n, v) implies #[trigger] env_sets(env_with(env, key, field), n, v) by {
                lemma_env_push(env, (key, t@), n, v);
            }
            assert forall|n: Seq<char>| env_lacks(env, n) && n != key implies #[trigger] env_lacks(env_with(env, key, field), n) by {
                lemma_env_push(env, (key, t@), n, t@);
            }
            lemma_env_push(env, (key, t@), key, t@);
        },
        None => {},
    }
}

/// Law: a hook's environment names its event, its name and the working
/// directory, and passes each of the context's tool name, tool input,
/// tool result and prompt exactly when the context has it, with its value.
pub proof fn law_hook_env_passes_context(hook: Hook, ctx: HookContext)
    ensures
        env_sets(hook_env_spec(hook, ctx), "HOOK_EVENT"@, event_name(hook.event)),
        env_sets(hook_env_spec(hook, ctx), "HOOK_NAME"@, hook.name@),
        env_sets(hook_env_spec(hook, ctx), "CWD"@, ctx.cwd@),
        env_passes(hook_env_spec(hook, ctx), "TOOL_NAME"@, ctx.tool_name),
        env_passes(hook_env_spec(hook, ctx), "TOOL_INPUT"@, ctx.tool_input),
        env_passes(hook_env_spec(hook, ctx), "TOOL_RESULT"@, ctx.tool_result),
        env_passes(hook_env_spec(hook, ctx), "PROMPT"@, ctx.prompt),
{
    reveal_strlit("HOOK_EVENT");
    reveal_strlit("HOOK_NAME");
    reveal_strlit("CWD");
    reveal_strlit("TOOL_NAME");
    reveal_strlit("TOOL_INPUT");
    reveal_strlit("TOOL_RESULT");
    reveal_strlit("PROMPT");
    let kn = "TOOL_NAME"@;
    let ki = "TOOL_INPUT"@;
    let kr = "TOOL_RESULT"@;
    let kp = "PROMPT"@;
    assert(kn != ki && kn != kr && kn != kp) by {
        assert(kn.len() != ki.len() && kn[5] != kr[5] && kn[0] != kp[0]);
    }
    assert(ki != kr && ki != kp && kr != kp) by {
        assert(ki.len() != kr.len() && ki[0] != kp[0] && kr[0] != kp[0]);
    }
    let base = seq![("HOOK_EVENT"@, event_name(hook.event)), ("HOOK_NAME"@, hook.name@), ("CWD"@, ctx.cwd@)];
    assert(base[0] == ("HOOK_EVENT"@, event_name(hook.event)));
    assert(base[1] == ("HOOK_NAME"@, hook.name@));
    assert(base[2] == ("CWD"@, ctx.cwd@));
    assert(env_sets(base, "HOOK_EVENT"@, event_name(hook.event)));
    assert(env_sets(base, "HOOK_NAME"@, hook.name@));
    assert(env_sets(base, "CWD"@, ctx.cwd@));
    assert(env_lacks(base, kn) && env_lacks(base, ki) && env_lacks(base, kr) && env_lacks(base, kp)) by {
        assert forall|i: int| 0 <= i < base.len() implies (#[trigger] base[i]).0 != kn && base[i].0 != ki
            && base[i].0 != kr && base[i].0 != kp by {
            assert(base[i].0[0] != kn[0] && base[i].0[0] != kp[0]);
        }
    }
    let e1 = env_with(base, kn, ctx.tool_name);
    let e2 = env_with(e1, ki, ctx.tool_input);
    let e3 = env_with(e2, kr, ctx.tool_result);
    let e4 = env_with(e3, kp, ctx.prompt);
    assert(e4 == hook_env_spec(hook, ctx));
    lemma_env_with(base, kn, ctx.tool_name);
    lemma_env_with(e1, ki, ctx.tool_input);
    lemma_env_with(e2, kr, ctx.tool_result);
    lemma_env_with(e3, kp, ctx.prompt);
    assert(env_lacks(e1, ki) && env_lacks(e1, kr) && env_lacks(e1, kp));
    assert(env_lacks(e2, kr) && env_lacks(e2, kp));
    assert(env_lacks(e3, kp));
    assert(env_sets(e4, "HOOK_EVENT"@, event_name(hook.event))) by {
        assert(env_sets(e1, "HOOK_EVENT"@, event_name(hook.event)));
        assert(env_sets(e2, "HOOK_EVENT"@, event_name(hook.event)));
        assert(env_sets(e3, "HOOK_EVENT"@, event_name(hook.event)));
    }
    assert(env_sets(e4, "HOOK_NAME"@, hook.name@)) by {
        assert(env_sets(e1, "HOOK_NAME"@, hook.name@));
        assert(env_sets(e2, "HOOK_NAME"@, hook.name@));
        assert(env_sets(e3, "HOOK_NAME"@, hook.name@));
    }
    assert(env_sets(e4, "CWD"@, ctx.cwd@)) by {
        assert(env_sets(e1, "CWD"@, ctx.cwd@));
        assert(env_sets(e2, "CWD"@, ctx.cwd@));
        assert(env_sets(e3, "CWD"@, ctx.cwd@));
    }
    match ctx.tool_name {
        Some(t) => {
            assert(env_sets(e1, kn, t@));
            assert(env_sets(e2, kn, t@));
            assert(env_sets(e3, kn, t@));
            assert(env_sets(e4, kn, t@));
        },
        None => {
            assert(env_lacks(e1, kn));
            assert(env_lacks(e2, kn));
            assert(env_lacks(e3, kn));
            assert(env_lacks(e4, kn));
        },
    }
    match ctx.tool_input {
        Some(t) => {
            assert(env_sets(e2, ki, t@));
            assert(env_sets(e3, ki, t@));
            assert(env_sets(e4, ki, t@));
        },
        None => {
            assert(env_lacks(e2, ki));
            assert(env_lacks(e3, ki));
            assert(env_lacks(e4, ki));
        },
    }
    match ctx.tool_result {
        Some(t) => {
            assert(env_sets(e3, kr, t@));
            assert(env_sets(e4, kr, t@));
        },
        None => {
            assert(env_lacks(e3, kr));
            assert(env_lacks(e4, kr));
        },
    }
}

/// The views of a list of (name, value) pairs.
pub open spec fn pair_views(v: Seq<(String, String)>) -> Seq<(Seq<char>, Seq<char>)> {
    v.map_values(|p: (String, String)| (p.0@, p.1@))
}

fn push_pair(v: &mut Vec<(String, String)>, name: &str, value: &String)
    ensures
        pair_views(final(v)@) == pair_views(old(v)@).push((name@, value@)),
{
    let ghost before = v@;
    v.push((String::from_str(name), value.clone()));
    proof {
        assert(pair_views(v@) =~= pair_views(before).push((name@, value@)));
    }
}

/// The environment variables set for a hook run.
pub fn hook_env(hook: &Hook, ctx: &HookContext) -> (env: Vec<(String, String)>)
    ensures
        pair_views(env@) == hook_env_spec(*hook, *ctx),
{
    let mut env: Vec<(String, String)> = Vec::new();
    let ev = hook.event.to_display_string();
    push_pair(&mut env, "HOOK_EVENT", &ev);
    push_pair(&mut env, "HOOK_NAME", &hook.name);
    push_pair(&mut env, "CWD", &ctx.cwd);
    if let Some(t) = &ctx.tool_name {
        push_pair(&mut env, "TOOL_NAME", t);
    }
    if let Some(t) = &ctx.tool_input {
        push_pair(&mut env, "TOOL_INPUT", t);
    }
    if let Some(t) = &ctx.tool_result {
        push_pair(&mut env, "TOOL_RESULT", t);
    }
    if let Some(p) = &ctx.prompt {
        push_pair(&mut env, "PROMPT", p);
    }
    proof {
        assert(pair_views(env@) =~= hook_env_spec(*hook, *ctx));
    }
    env
}

/// A failed run: exit code 1, no output, `message` on standard error.
pub open spec fn failure_ok(r: HookResult, message: Seq<char>) -> bool {
    &&& r.exit_code == 1
    &&& r.stdout@ == Seq::<char>::empty()
    &&& r.stderr@ == message
    &&& r.stdout_file is None
    &&& r.stderr_file is None
}

fn failure(message: String) -> (r: HookResult)
    ensures
        failure_ok(r, message@),
{
    HookResult { exit_code: 1, stdout: String::new(), stderr: message, stdout_file: None, stderr_file: None }
}

/// The result when the hook process could not be started; `error` is the
/// system's description of the failure.
pub fn spawn_failure(error: &str) -> (r: HookResult)
    ensures
        failure_ok(r, "Failed to spawn hook: "@ + error@),
{
    let mut m = String::from_str("Failed to spawn hook: ");
    m.append(error);
    failure(m)
}

/// The result when waiting for the hook process failed.
pub fn execution_failure(error: &str) -> (r: HookResult)
    ensures
        failure_ok(r, "Hook execution error: "@ + error@),
{
    let mut m = String::from_str("Hook execution error: ");
    m.append(error);
    failure(m)
}

/// The result when the hook ran past `HOOK_TIMEOUT_SECS` and was killed.
pub fn timeout_failure(hook: &Hook) -> (r: HookResult)
    ensures
        failure_ok(r, "Hook '"@ + hook.name@ + "' timed out after "@ + decimal(HOOK_TIMEOUT_SECS as nat) + " seconds"@),
{
    let mut m = String::from_str("Hook '");
    m.append(hook.name.as_str());
    m.append("' timed out after ");
    let secs = decimal_string(HOOK_TIMEOUT_SECS);
    m.append(secs.as_str());
    m.append(" seconds");
    failure(m)
}

/// The result of a hook that ran to completion: its exit code (-1 when it
/// was ended by a signal) and its capped output.
pub fn completed(code: Option<i32>, stdout: &[u8], stderr: &[u8]) -> (r: HookResult)
    ensures
        r.exit_code == (match code {
            Some(c) => c as int,
            None => -1,
        }),
        capped_output_ok(lossy_utf8(stdout@), r.stdout@),
        capped_output_ok(lossy_utf8(stderr@), r.stderr@),
        r.stdout_file is None,
        r.stderr_file is None,
{
    let exit_code = match code {
        Some(c) => c,
        None => -1,
    };
    HookResult {
        exit_code,
        stdout: process_output(stdout),
        stderr: process_output(stderr),
        stdout_file: None,
        stderr_file: None,
    }
}

} // verus!

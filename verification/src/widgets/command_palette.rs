//! The command palette overlay: its height and the rows it shows (the
//! input row, a scrolled page of commands, blank rows).

use vstd::prelude::*;
use crate::text::string_from_chars;
use crate::widgets::{repeat_char, Rect};
use vstd::string::StringExecFns;

verus! {

broadcast use vstd::string::group_string_axioms;

/// A command palette with a search input and a list of (name, description)
/// commands.
pub struct CommandPaletteOverlay {
    pub query: String,
    pub commands: Vec<(String, String)>,
    pub selected: usize,
    pub prefix: String,
    pub scroll_offset: usize,
    pub title: String,
    pub max_visible: usize,
}

/// Width of the name column.
pub const NAME_WIDTH: usize = 20;

/// The visible commands: all of them, at most `max_visible`.
pub open spec fn visible_commands(p: CommandPaletteOverlay) -> nat {
    if p.commands@.len() <= p.max_visible { p.commands@.len() } else { p.max_visible as nat }
}

/// The widget's height: two borders, the input row and the visible commands.
pub open spec fn palette_height(p: CommandPaletteOverlay) -> nat {
    3 + visible_commands(p)
}

/// Commands per page in an area `height` rows tall (at least one).
pub open spec fn palette_page(height: u16) -> nat {
    if height >= 4 { (height - 3) as nat } else { 1 }
}

/// The first command shown: the scroll offset moved to show the selected
/// command, and no further than the last full page of visible commands.
pub open spec fn palette_offset(p: CommandPaletteOverlay, page: nat) -> nat {
    let o: int = if p.selected >= p.scroll_offset + page {
        p.selected - page + 1
    } else if p.selected < p.scroll_offset {
        p.selected as int
    } else {
        p.scroll_offset as int
    };
    let last: int = if visible_commands(p) >= page { visible_commands(p) - page } else { 0 };
    (if o <= last { o } else { last }) as nat
}

/// A name padded with spaces to the name column's width.
pub open spec fn padded_name(name: Seq<char>) -> Seq<char> {
    if name.len() >= NAME_WIDTH { name } else { name + repeat_char(' ', (NAME_WIDTH - name.len()) as nat) }
}

/// A row of the palette, as plain data.
pub enum PaletteRowV {
    Input(Seq<char>),
    Command(Seq<char>, bool),
    Blank,
}

/// A row of the palette.
pub enum PaletteRow {
    /// The input row: prefix and query, followed by the cursor bar.
    Input(String),
    /// A command: padded name and description; whether it is selected.
    Command { text: String, selected: bool },
    /// An empty row.
    Blank,
}

pub open spec fn palette_row_view(r: PaletteRow) -> PaletteRowV {
    match r {
        PaletteRow::Input(s) => PaletteRowV::Input(s@),
        PaletteRow::Command { text, selected } => PaletteRowV::Command(text@, selected),
        PaletteRow::Blank => PaletteRowV::Blank,
    }
}

/// The rows the palette shows in `area` (none under 10 columns or 4 rows):
/// the input row, the page of commands, then blank rows up to the page
/// height.
pub open spec fn palette_rows(p: CommandPaletteOverlay, area: Rect) -> Option<Seq<PaletteRowV>> {
    if area.width < 10 || area.height < 4 {
        None
    } else {
        let page = palette_page(area.height);
        let start = palette_offset(p, page);
        let end: nat = if start + page <= visible_commands(p) { start + page } else { visible_commands(p) };
        let cmds = Seq::new((end - start) as nat, |k: int| {
            let c = p.commands@[start + k];
            PaletteRowV::Command(padded_name(c.0@) + c.1@, start + k == p.selected)
        });
        let lines = seq![PaletteRowV::Input(p.prefix@ + p.query@)] + cmds;
        let blanks: nat = if lines.len() < page { (page - lines.len()) as nat } else { 0 };
        Some(lines + Seq::new(blanks, |_k: int| PaletteRowV::Blank))
    }
}

/// The selected command, when it is among the visible commands, is always
/// on the page shown.
pub proof fn law_palette_page_shows_selection(p: CommandPaletteOverlay, page: nat)
    requires
        page >= 1,
        p.selected < visible_commands(p),
    ensures
        palette_offset(p, page) <= p.selected < palette_offset(p, page) + page,
{
}

impl CommandPaletteOverlay {
    /// An empty palette with prefix "> ", title " Commands " and ten visible
    /// commands at most.
    pub fn new() -> (p: CommandPaletteOverlay)
        ensures
            p.query@ == Seq::<char>::empty(),
            p.commands@.len() == 0,
            p.selected == 0,
            p.prefix@ == "> "@,
            p.scroll_offset == 0,
            p.title@ == " Commands "@,
            p.max_visible == 10,
    {
        CommandPaletteOverlay {
            query: String::new(),
            commands: Vec::new(),
            selected: 0,
            prefix: String::from_str("> "),
            scroll_offset: 0,
            title: String::from_str(" Commands "),
            max_visible: 10,
        }
    }

    /// Set the search query.
    pub fn query(self, query: &str) -> (p: CommandPaletteOverlay)
        ensures
            p.query@ == query@,
            p.commands == self.commands,
            p.selected == self.selected,
            p.prefix == self.prefix,
            p.scroll_offset == self.scroll_offset,
            p.title == self.title,
            p.max_visible == self.max_visible,
    {
        CommandPaletteOverlay { query: String::from_str(query), ..self }
    }

    /// Set the commands.
    pub fn commands(self, commands: Vec<(String, String)>) -> (p: CommandPaletteOverlay)
        ensures
            p == (CommandPaletteOverlay { commands: commands, ..self }),
    {
        CommandPaletteOverlay { commands, ..self }
    }

    /// Set the selected command.
    pub fn selected(self, selected: usize) -> (p: CommandPaletteOverlay)
        ensures
            p == (CommandPaletteOverlay { selected: selected, ..self }),
    {
        CommandPaletteOverlay { selected, ..self }
    }

    /// Set the input prefix.
    pub fn prefix(self, prefix: &str) -> (p: CommandPaletteOverlay)
        ensures
            p.prefix@ == prefix@,
            p.query == self.query,
            p.commands == self.commands,
            p.selected == self.selected,
            p.scroll_offset == self.scroll_offset,
            p.title == self.title,
            p.max_visible == self.max_visible,
    {
        CommandPaletteOverlay { prefix: String::from_str(prefix), ..self }
    }

    /// Set the title.
    pub fn title(self, title: &str) -> (p: CommandPaletteOverlay)
        ensures
            p.title@ == title@,
            p.query == self.query,
            p.commands == self.commands,
            p.selected == self.selected,
            p.prefix == self.prefix,
            p.scroll_offset == self.scroll_offset,
            p.max_visible == self.max_visible,
    {
        CommandPaletteOverlay { title: String::from_str(title), ..self }
    }

    /// Set the most commands shown.
    pub fn max_visible(self, max: usize) -> (p: CommandPaletteOverlay)
        ensures
            p == (CommandPaletteOverlay { max_visible: max, ..self }),
    {
        CommandPaletteOverlay { max_visible: max, ..self }
    }

    /// Set the scroll offset.
    pub fn scroll_offset(self, offset: usize) -> (p: CommandPaletteOverlay)
        ensures
            p == (CommandPaletteOverlay { scroll_offset: offset, ..self }),
    {
        CommandPaletteOverlay { scroll_offset: offset, ..self }
    }

    /// The widget's height: two borders, the input row and the visible
    /// commands.
    pub fn height(&self) -> (h: usize)
        requires
            palette_height(*self) <= usize::MAX,
        ensures
            h == palette_height(*self),
    {
        let visible = if self.commands.len() <= self.max_visible { self.commands.len() } else { self.max_visible };
        3 + visible
    }

    /// One command's row text: the name padded to the name column, then the
    /// description.
    fn command_text(name: &String, desc: &String) -> (t: String)
        ensures
            t@ == padded_name(name@) + desc@,
    {
        let mut chars: Vec<char> = crate::text::chars_of(name.as_str());
        let n = chars.len();
        if n < NAME_WIDTH {
            let mut k: usize = n;
            while k < NAME_WIDTH
                invariant
                    n <= k <= NAME_WIDTH,
                    n == name@.len(),
                    chars@ == name@ + repeat_char(' ', (k - n) as nat),
                decreases NAME_WIDTH - k,
            {
                chars.push(' ');
                k = k + 1;
                assert(chars@ =~= name@ + repeat_char(' ', (k - n) as nat));
            }
        }
        let mut t = string_from_chars(&chars);
        t.append(desc.as_str());
        t
    }

    /// The rows the palette shows in `area` (none under 10 columns or 4
    /// rows): the input row, the page of commands around the selected one,
    /// and blank rows up to the page height.
    pub fn rows(&self, area: Rect) -> (r: Option<Vec<PaletteRow>>)
        requires
            self.scroll_offset + palette_page(area.height) <= usize::MAX,
        ensures
            palette_rows(*self, area) == (match r {
                Some(v) => Some(v@.map_values(|x: PaletteRow| palette_row_view(x))),
                None => None,
            }),
    {
        if area.width < 10 || area.height < 4 {
            return None;
        }
        let page: usize = (area.height - 3) as usize;
        let visible = if self.commands.len() <= self.max_visible { self.commands.len() } else { self.max_visible };
        let mut offset: usize = self.scroll_offset;
        if self.selected >= offset + page {
            offset = self.selected - page + 1;
        } else if self.selected < offset {
            offset = self.selected;
        }
        let last: usize = if visible >= page { visible - page } else { 0 };
        if offset > last {
            offset = last;
        }
        assert(offset == palette_offset(*self, page as nat));
        let end: usize = if visible - offset <= page { visible } else { offset + page };
        let mut input = String::from_str(self.prefix.as_str());
        input.append(self.query.as_str());
        let ghost cmds = Seq::new((end - offset) as nat, |k: int| {
            let c = self.commands@[offset + k];
            PaletteRowV::Command(padded_name(c.0@) + c.1@, offset + k == self.selected)
        });
        let mut out: Vec<PaletteRow> = Vec::new();
        out.push(PaletteRow::Input(input));
        let ghost head = seq![PaletteRowV::Input(self.prefix@ + self.query@)];
        assert(out@.map_values(|x: PaletteRow| palette_row_view(x)) =~= head);
        let mut i: usize = offset;
        while i < end
            invariant
                offset <= i <= end <= visible <= self.commands@.len(),
                cmds == Seq::new((end - offset) as nat, |k: int| {
                    let c = self.commands@[offset + k];
                    PaletteRowV::Command(padded_name(c.0@) + c.1@, offset + k == self.selected)
                }),
                out@.map_values(|x: PaletteRow| palette_row_view(x)) == head + cmds.take(i - offset),
            decreases end - i,
        {
            let text = CommandPaletteOverlay::command_text(&self.commands[i].0, &self.commands[i].1);
            let row = PaletteRow::Command { text, selected: i == self.selected };
            let ghost before = out@;
            out.push(row);
            proof {
                assert(out@.map_values(|x: PaletteRow| palette_row_view(x))
                    =~= before.map_values(|x: PaletteRow| palette_row_view(x)).push(palette_row_view(row)));
                assert(cmds.take(i + 1 - offset) =~= cmds.take(i - offset).push(cmds[i - offset]));
            }
            i = i + 1;
        }
        assert(cmds.take(end - offset) =~= cmds);
        let ghost lines = out@.map_values(|x: PaletteRow| palette_row_view(x));
        let count = out.len();
        let blanks: usize = if count < page { page - count } else { 0 };
        let mut b: usize = 0;
        while b < blanks
            invariant
                b <= blanks,
                out@.map_values(|x: PaletteRow| palette_row_view(x)) == lines + Seq::new(b as nat, |_k: int| PaletteRowV::Blank),
            decreases blanks - b,
        {
            let ghost before = out@;
            out.push(PaletteRow::Blank);
            b = b + 1;
            proof {
                assert(out@.map_values(|x: PaletteRow| palette_row_view(x))
                    =~= before.map_values(|x: PaletteRow| palette_row_view(x)).push(PaletteRowV::Blank));
                assert(out@.map_values(|x: PaletteRow| palette_row_view(x))
                    =~= lines + Seq::new(b as nat, |_k: int| PaletteRowV::Blank));
            }
        }
        Some(out)
    }
}

} // verus!

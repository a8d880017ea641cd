//! The generic overlay panel: a title, content lines with one optionally
//! selected, and its height.

use vstd::prelude::*;
use crate::widgets::Rect;
use vstd::string::StringExecFns;

verus! {

broadcast use vstd::string::group_string_axioms;

/// An overlay panel with a title bar, borders and content lines.
pub struct PanelOverlay {
    pub title: String,
    pub content: Vec<String>,
    pub selected: Option<usize>,
}

/// A row of the panel, as plain data.
pub enum PanelRowV {
    Line(Seq<char>, bool),
    Blank,
}

/// A row of the panel.
pub enum PanelRow {
    /// A content line; whether it is the selected one.
    Line { text: String, selected: bool },
    /// An empty row below the content.
    Blank,
}

pub open spec fn panel_row_view(r: PanelRow) -> PanelRowV {
    match r {
        PanelRow::Line { text, selected } => PanelRowV::Line(text@, selected),
        PanelRow::Blank => PanelRowV::Blank,
    }
}

/// The panel's height: its content lines (at least one) and two borders.
pub open spec fn panel_height(p: PanelOverlay) -> nat {
    (if p.content@.len() >= 1 { p.content@.len() } else { 1 }) + 2
}

/// The rows the panel shows in `area` (none under 4 columns or 2 rows): the
/// content lines, then blank rows up to the inner height (at least one).
pub open spec fn panel_rows(p: PanelOverlay, area: Rect) -> Option<Seq<PanelRowV>> {
    if area.width < 4 || area.height < 2 {
        None
    } else {
        let inner: nat = if area.height >= 3 { (area.height - 2) as nat } else { 1 };
        let lines = Seq::new(p.content@.len(), |i: int| PanelRowV::Line(p.content@[i]@, p.selected == Some(i as usize)));
        let blanks: nat = if lines.len() < inner { (inner - lines.len()) as nat } else { 0 };
        Some(lines + Seq::new(blanks, |_k: int| PanelRowV::Blank))
    }
}

impl PanelOverlay {
    /// An empty panel with the given title.
    pub fn new(title: &str) -> (p: PanelOverlay)
        ensures
            p.title@ == title@,
            p.content@.len() == 0,
            p.selected is None,
    {
        PanelOverlay { title: String::from_str(title), content: Vec::new(), selected: None }
    }

    /// Set the content lines.
    pub fn content(self, content: Vec<String>) -> (p: PanelOverlay)
        ensures
            p == (PanelOverlay { content: content, ..self }),
    {
        PanelOverlay { content, ..self }
    }

    /// Select the line at `index`.
    pub fn selected(self, index: usize) -> (p: PanelOverlay)
        ensures
            p == (PanelOverlay { selected: Some(index), ..self }),
    {
        PanelOverlay { selected: Some(index), ..self }
    }

    /// The panel's height: its content lines (at least one) and two borders.
    pub fn height(&self) -> (h: usize)
        requires
            panel_height(*self) <= usize::MAX,
        ensures
            h == panel_height(*self),
    {
        let n = self.content.len();
        (if n >= 1 { n } else { 1 }) + 2
    }

    /// The rows the panel shows in `area`.
    pub fn rows(&self, area: Rect) -> (r: Option<Vec<PanelRow>>)
        ensures
            panel_rows(*self, area) == (match r {
                Some(v) => Some(v@.map_values(|x: PanelRow| panel_row_view(x))),
                None => None,
            }),
    {
        if area.width < 4 || area.height < 2 {
            return None;
        }
        let inner: usize = if area.height >= 3 { (area.height - 2) as usize } else { 1 };
        let ghost lines = Seq::new(self.content@.len(), |i: int| PanelRowV::Line(self.content@[i]@, self.selected == Some(i as usize)));
        let mut out: Vec<PanelRow> = Vec::new();
        let mut i: usize = 0;
        while i < self.content.len()
            invariant
                i <= self.content@.len(),
                lines == Seq::new(self.content@.len(), |i: int| PanelRowV::Line(self.content@[i]@, self.selected == Some(i as usize))),
                out@.map_values(|x: PanelRow| panel_row_view(x)) == lines.take(i as int),
            decreases self.content@.len() - i,
        {
            let is_selected = match self.selected {
                Some(s) => s == i,
                None => false,
            };
            let row = PanelRow::Line { text: String::from_str(self.content[i].as_str()), selected: is_selected };
            let ghost before = out@;
            out.push(row);
            proof {
                assert(out@.map_values(|x: PanelRow| panel_row_view(x))
                    =~= before.map_values(|x: PanelRow| panel_row_view(x)).push(panel_row_view(row)));
                assert(lines.take(i + 1) =~= lines.take(i as int).push(lines[i as int]));
            }
            i = i + 1;
        }
        assert(lines.take(i as int) =~= lines);
        let count = out.len();
        let blanks: usize = if count < inner { inner - count } else { 0 };
        let mut b: usize = 0;
        while b < blanks
            invariant
                b <= blanks,
                out@.map_values(|x: PanelRow| panel_row_view(x)) == lines + Seq::new(b as nat, |_k: int| PanelRowV::Blank),
            decreases blanks - b,
        {
            let ghost before = out@;
            out.push(PanelRow::Blank);
            b = b + 1;
            proof {
                assert(out@.map_values(|x: PanelRow| panel_row_view(x))
                    =~= before.map_values(|x: PanelRow| panel_row_view(x)).push(PanelRowV::Blank));
                assert(out@.map_values(|x: PanelRow| panel_row_view(x))
                    =~= lines + Seq::new(b as nat, |_k: int| PanelRowV::Blank));
            }
        }
        Some(out)
    }
}

} // verus!

//! Where the parts of the screen go: the main layout and the placement of
//! popups. The layout solver is ratatui's.
use vstd::prelude::*;

use ratatui::layout::{Constraint, Direction, Layout, Rect};

verus! {

/// A rectangle of the screen.
#[derive(Debug, Clone, Copy, PartialEq, Eq, Structural)]
pub struct Area {
    pub x: u16,
    pub y: u16,
    pub width: u16,
    pub height: u16,
}

/// What one part of a split asks for: a fixed length, at least a length,
/// or a percentage of the whole.
#[derive(Debug, Clone, Copy, PartialEq, Eq, Structural)]
pub enum Size {
    Length(u16),
    Min(u16),
    Percentage(u16),
}

/// `part` is a part of splitting `area` top to bottom (where `vertical`) or
/// left to right: it spans the whole of `area` across the split and lies
/// within `area` along it.
pub open spec fn part_of(part: Area, area: Area, vertical: bool) -> bool {
    if vertical {
        &&& part.x == area.x
        &&& part.width == area.width
        &&& area.y <= part.y
        &&& part.y + part.height <= area.y + area.height
    } else {
        &&& part.y == area.y
        &&& part.height == area.height
        &&& area.x <= part.x
        &&& part.x + part.width <= area.x + area.width
    }
}

/// `a` lies within `area`.
pub open spec fn within(a: Area, area: Area) -> bool {
    &&& area.x <= a.x
    &&& a.x + a.width <= area.x + area.width
    &&& area.y <= a.y
    &&& a.y + a.height <= area.y + area.height
}

/// The parts `parts` of a split come one after another without overlap,
/// top to bottom (where `vertical`) or left to right.
pub open spec fn in_order(parts: Seq<Area>, vertical: bool) -> bool {
    forall|i: int, j: int|
        0 <= i < j < parts.len() ==> if vertical {
            (#[trigger] parts[i]).y + parts[i].height <= (#[trigger] parts[j]).y
        } else {
            parts[i].x + parts[i].width <= parts[j].x
        }
}

/// The splits of `area` for `sizes` (top to bottom where `vertical`, else
/// left to right) that ratatui's layout solver may give.
pub uninterp spec fn possible_splits(vertical: bool, sizes: Seq<Size>, area: Area) -> Set<Seq<Area>>;

/// `Layout::split` (ratatui): the parts of `area` for `sizes`, one for each,
/// in order. Claimed: the parts are one of the named `possible_splits` of
/// the arguments; there are as many parts as sizes; each spans the whole of
/// `area` across the split and lies within it along the split; and they
/// follow one another without overlap (the solver holds every part between
/// the area's ends, and each part's end before the next part's start, as
/// required constraints). Which of the possible splits comes out is not
/// stated: the solver's pivoting walks hash maps.
#[verifier::external_body]
fn split_area(vertical: bool, sizes: &Vec<Size>, area: Area) -> (r: Vec<Area>)
    ensures
        possible_splits(vertical, sizes@, area).contains(r@),
        r@.len() == sizes@.len(),
        forall|i: int| 0 <= i < r@.len() ==> part_of(#[trigger] r@[i], area, vertical),
        in_order(r@, vertical),
{
    let constraints: Vec<Constraint> = sizes.iter().map(|s| match *s {
        Size::Length(n) => Constraint::Length(n),
        Size::Min(n) => Constraint::Min(n),
        Size::Percentage(n) => Constraint::Percentage(n),
    }).collect();
    let direction = if vertical { Direction::Vertical } else { Direction::Horizontal };
    let rect = Rect { x: area.x, y: area.y, width: area.width, height: area.height };
    let parts = Layout::default().direction(direction).constraints(constraints).split(rect);
    parts.iter().map(|p| Area { x: p.x, y: p.y, width: p.width, height: p.height }).collect()
}

/// The parts of the screen: the tab bar, the qube table, the key hints and
/// the status line.
#[derive(Debug, Clone, Copy)]
pub struct LayoutAreas {
    pub tab_bar: Area,
    pub main_table: Area,
    pub key_hints: Area,
    pub status_bar: Area,
}

/// The rows of the screen: one line of tabs, the table taking the rest, one
/// line of key hints and one status line.
pub open spec fn screen_rows() -> Seq<Size> {
    seq![Size::Length(1), Size::Min(0), Size::Length(1), Size::Length(1)]
}

/// The sizes of the rows of the screen.
pub fn screen_sizes() -> (r: Vec<Size>)
    ensures
        r@ == screen_rows(),
{
    let r = vec![
        Size::Length(1),  // tab bar
        Size::Min(0),  // main content
        Size::Length(1),  // key hints
        Size::Length(1),  // status bar
    ];
    assert(r@ =~= screen_rows());
    r
}

/// Splits the screen `area` into its rows: one line of tabs, the table
/// taking the rest, one line of key hints and one status line, top to
/// bottom.
pub fn compute(area: Area) -> (r: LayoutAreas)
    ensures
        exists|rows: Seq<Area>|
            #[trigger] possible_splits(true, screen_rows(), area).contains(rows) && rows.len() == 4
                && r.tab_bar == rows[0] && r.main_table == rows[1] && r.key_hints == rows[2]
                && r.status_bar == rows[3],
        part_of(r.tab_bar, area, true),
        part_of(r.main_table, area, true),
        part_of(r.key_hints, area, true),
        part_of(r.status_bar, area, true),
        in_order(seq![r.tab_bar, r.main_table, r.key_hints, r.status_bar], true),
{
    let sizes = screen_sizes();
    let rows = split_area(true, &sizes, area);
    let r = LayoutAreas {
        tab_bar: rows[0],
        main_table: rows[1],
        key_hints: rows[2],
        status_bar: rows[3],
    };
    assert(seq![r.tab_bar, r.main_table, r.key_hints, r.status_bar] =~= rows@);
    r
}

/// The sizes that put a part of `percent` in the middle of a split: the
/// rest is shared out on both sides.
pub open spec fn middle(percent: u16) -> Seq<Size> {
    let side = ((100 - percent) / 2) as u16;
    seq![Size::Percentage(side), Size::Percentage(percent), Size::Percentage(side)]
}

/// The sizes that put a part of `percent` in the middle of a split.
pub fn middle_sizes(percent: u16) -> (r: Vec<Size>)
    requires
        percent <= 100,
    ensures
        r@ == middle(percent),
{
    let side = (100 - percent) / 2;
    let r = vec![Size::Percentage(side), Size::Percentage(percent), Size::Percentage(side)];
    assert(r@ =~= middle(percent));
    r
}

/// The part of `area` that is `percent_x` wide and `percent_y` high, in its
/// middle: the middle of three rows, then the middle of three columns of
/// it.
pub fn centered_rect(percent_x: u16, percent_y: u16, area: Area) -> (r: Area)
    requires
        percent_x <= 100,
        percent_y <= 100,
    ensures
        exists|rows: Seq<Area>, cols: Seq<Area>|
            #[trigger] possible_splits(true, middle(percent_y), area).contains(rows)
                && rows.len() == 3 && #[trigger] possible_splits(false, middle(percent_x), rows[1]).contains(cols)
                && cols.len() == 3 && r == cols[1],
        within(r, area),
{
    let rows = middle_sizes(percent_y);
    let vert = split_area(true, &rows, area);
    let cols = middle_sizes(percent_x);
    let horiz = split_area(false, &cols, vert[1]);
    horiz[1]
}

/// The `width` by `height` rectangle centred in `area`, cut to fit in it.
pub fn centered_rect_abs(width: u16, height: u16, area: Area) -> (r: Area)
    requires
        area.x + area.width <= u16::MAX,
        area.y + area.height <= u16::MAX,
    ensures
        r.x == area.x + (if area.width > width { area.width - width } else { 0 }) / 2,
        r.y == area.y + (if area.height > height { area.height - height } else { 0 }) / 2,
        r.width == if width < area.width { width } else { area.width },
        r.height == if height < area.height { height } else { area.height },
{
    let x = area.x + area.width.saturating_sub(width) / 2;
    let y = area.y + area.height.saturating_sub(height) / 2;
    Area {
        x,
        y,
        width: if width < area.width { width } else { area.width },
        height: if height < area.height { height } else { area.height },
    }
}

} // verus!

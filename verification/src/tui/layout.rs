//! Where things go on the screen.

use ratatui::layout::{Constraint, Layout};
use vstd::prelude::*;

verus! {

/// A rectangle of character cells.
#[derive(PartialEq, Eq, Clone, Copy, Structural)]
pub struct Rect {
    pub x: u16,
    pub y: u16,
    pub width: u16,
    pub height: u16,
}

/// How much room a part asks for.
#[derive(PartialEq, Eq, Clone, Copy, Structural)]
pub enum Fit {
    Length(u16),
    Min(u16),
    Max(u16),
    Percentage(u16),
}

/// The rectangle ends within the coordinates that there are.
pub open spec fn on_screen(area: Rect) -> bool {
    area.x + area.width <= u16::MAX && area.y + area.height <= u16::MAX
}

/// The one rectangle lies within the other.
pub open spec fn within(inner: Rect, outer: Rect) -> bool {
    &&& outer.x <= inner.x && inner.x + inner.width <= outer.x + outer.width
    &&& outer.y <= inner.y && inner.y + inner.height <= outer.y + outer.height
}

/// `parts` are `n` full-width parts of `area`.
pub open spec fn stacked(parts: Seq<Rect>, area: Rect, n: int) -> bool {
    &&& parts.len() == n
    &&& forall|i: int|
        0 <= i < n ==> within(#[trigger] parts[i], area) && parts[i].x == area.x && parts[i].width
            == area.width
}

/// `parts` are `n` full-height parts of `area`.
pub open spec fn side_by_side(parts: Seq<Rect>, area: Rect, n: int) -> bool {
    &&& parts.len() == n
    &&& forall|i: int|
        0 <= i < n ==> within(#[trigger] parts[i], area) && parts[i].y == area.y
            && parts[i].height == area.height
}

/// The number that a fit names.
pub open spec fn number_of(fit: Fit) -> int {
    match fit {
        Fit::Length(n) | Fit::Min(n) | Fit::Max(n) | Fit::Percentage(n) => n as int,
    }
}

/// The numbers of the first `n` fits together.
pub open spec fn numbers_below(fits: Seq<Fit>, n: int) -> int
    decreases n,
{
    if n <= 0 {
        0
    } else {
        numbers_below(fits, n - 1) + number_of(fits[n - 1])
    }
}

/// Every fit names a size, the one at `k` as the least it takes, and there is room
/// for all of them.
pub open spec fn has_room(fits: Seq<Fit>, k: int, extent: int) -> bool {
    &&& 0 <= k < fits.len() && fits[k] is Min
    &&& forall|i: int|
        0 <= i < fits.len() && i != k ==> (#[trigger] fits[i] is Length || fits[i] is Max)
    &&& numbers_below(fits, fits.len() as int) <= extent
}

/// What a part starts at, from the start of the area, where there is room for
/// everything: behind the sizes before it, the one at `k` having all that is left.
pub open spec fn roomy_start(fits: Seq<Fit>, k: int, extent: int, i: int) -> int {
    numbers_below(fits, i) + if i > k {
        extent - numbers_below(fits, fits.len() as int)
    } else {
        0
    }
}

/// Every fit is a percentage, and together they are the whole.
pub open spec fn shares_out(fits: Seq<Fit>) -> bool {
    &&& forall|i: int| 0 <= i < fits.len() ==> #[trigger] fits[i] is Percentage
    &&& numbers_below(fits, fits.len() as int) == 100
}

/// `percent` of an extent, rounded to the nearest cell.
pub open spec fn share(percent: int, extent: int) -> int {
    (percent * extent + 50) / 100
}

/// Of an area that begins at `start` and is `extent` long, the part that `fits[i]`
/// asks for goes from `from` over `size` cells, where the fits decide that.
pub open spec fn placed(
    fits: Seq<Fit>,
    start: int,
    extent: int,
    i: int,
    from: int,
    size: int,
) -> bool {
    &&& forall|k: int| #[trigger]
        has_room(fits, k, extent) ==> from == start + roomy_start(fits, k, extent, i) && size
            == roomy_start(fits, k, extent, i + 1) - roomy_start(fits, k, extent, i)
    &&& shares_out(fits) ==> from == start + share(numbers_below(fits, i), extent) && size
        == share(numbers_below(fits, i + 1), extent) - share(numbers_below(fits, i), extent)
}

/// Each part lies where the fits put it, from top to bottom.
pub open spec fn placed_down(parts: Seq<Rect>, area: Rect, fits: Seq<Fit>) -> bool {
    forall|i: int|
        0 <= i < fits.len() ==> placed(
            fits,
            area.y as int,
            area.height as int,
            i,
            (#[trigger] parts[i]).y as int,
            parts[i].height as int,
        )
}

/// Each part lies where the fits put it, from left to right.
pub open spec fn placed_across(parts: Seq<Rect>, area: Rect, fits: Seq<Fit>) -> bool {
    forall|i: int|
        0 <= i < fits.len() ==> placed(
            fits,
            area.x as int,
            area.width as int,
            i,
            (#[trigger] parts[i]).x as int,
            parts[i].width as int,
        )
}

/// Divides an area from top to bottom, with `ratatui::layout::Layout::vertical` and
/// its `split`. There is one part for each entry of `fits`, each part lies within
/// the area, and each has the left edge and the width of the area.
///
/// Where the area ends within the coordinates that there are, two kinds of lists
/// decide where the parts go. With one `Min` among lengths and maximums that all
/// have room, every part but that one has the size it names, and they lie one behind
/// the other from the first row to the last: the solver behind the call minimises
/// weighted errors, and giving up any of this costs more than it could gain. With
/// percentages that make up the whole, each boundary is at its share of the area,
/// rounded to a row. Of every other list the heights are left unsaid: the solver
/// weighs the entries against each other, and where they cannot all be met its
/// answer is not determined by its input.
#[verifier::external_body]
fn divided_down(area: Rect, fits: &Vec<Fit>) -> (res: Vec<Rect>)
    ensures
        stacked(res@, area, fits@.len() as int),
        on_screen(area) ==> placed_down(res@, area, fits@),
{
    let wanted = fits.iter().map(|fit| match *fit {
        Fit::Length(n) => Constraint::Length(n),
        Fit::Min(n) => Constraint::Min(n),
        Fit::Max(n) => Constraint::Max(n),
        Fit::Percentage(n) => Constraint::Percentage(n),
    });
    let whole = ratatui::layout::Rect { x: area.x, y: area.y, width: area.width, height: area.height };
    let parts = Layout::vertical(wanted).split(whole);
    parts.iter().map(|r| Rect { x: r.x, y: r.y, width: r.width, height: r.height }).collect()
}

/// Divides an area from left to right, with `ratatui::layout::Layout::horizontal`
/// and its `split`. There is one part for each entry of `fits`, each part lies
/// within the area, and each has the top edge and the height of the area. Where they
/// go from left to right is said, and left unsaid, as in `divided_down`.
#[verifier::external_body]
fn divided_across(area: Rect, fits: &Vec<Fit>) -> (res: Vec<Rect>)
    ensures
        side_by_side(res@, area, fits@.len() as int),
        on_screen(area) ==> placed_across(res@, area, fits@),
{
    let wanted = fits.iter().map(|fit| match *fit {
        Fit::Length(n) => Constraint::Length(n),
        Fit::Min(n) => Constraint::Min(n),
        Fit::Max(n) => Constraint::Max(n),
        Fit::Percentage(n) => Constraint::Percentage(n),
    });
    let whole = ratatui::layout::Rect { x: area.x, y: area.y, width: area.width, height: area.height };
    let parts = Layout::horizontal(wanted).split(whole);
    parts.iter().map(|r| Rect { x: r.x, y: r.y, width: r.width, height: r.height }).collect()
}

/// An area, how much room its parts were to have, and the parts it was divided into.
pub struct Split {
    pub area: Rect,
    pub fits: Vec<Fit>,
    pub parts: Vec<Rect>,
}

/// `area` was divided from top to bottom for parts that ask for `fits`.
pub open spec fn is_down(split: Split, area: Rect, fits: Seq<Fit>) -> bool {
    &&& split.area == area
    &&& split.fits@ == fits
    &&& stacked(split.parts@, area, fits.len() as int)
    &&& on_screen(area) ==> placed_down(split.parts@, area, fits)
}

/// `area` was divided from left to right for parts that ask for `fits`.
pub open spec fn is_across(split: Split, area: Rect, fits: Seq<Fit>) -> bool {
    &&& split.area == area
    &&& split.fits@ == fits
    &&& side_by_side(split.parts@, area, fits.len() as int)
    &&& on_screen(area) ==> placed_across(split.parts@, area, fits)
}

impl Split {
    /// Divide an area from top to bottom.
    pub fn down(area: Rect, fits: Vec<Fit>) -> (res: Split)
        ensures
            is_down(res, area, fits@),
    {
        let parts = if fits.len() > 0 {
            divided_down(area, &fits)
        } else {
            Vec::new()
        };
        Split { area, fits, parts }
    }

    /// Divide an area from left to right.
    pub fn across(area: Rect, fits: Vec<Fit>) -> (res: Split)
        ensures
            is_across(res, area, fits@),
    {
        let parts = if fits.len() > 0 {
            divided_across(area, &fits)
        } else {
            Vec::new()
        };
        Split { area, fits, parts }
    }
}

/// `a - b`, but not below zero.
pub open spec fn less(a: int, b: int) -> int {
    if a >= b {
        a - b
    } else {
        0
    }
}

pub open spec fn smaller(a: int, b: int) -> int {
    if a <= b {
        a
    } else {
        b
    }
}

pub open spec fn larger(a: int, b: int) -> int {
    if a >= b {
        a
    } else {
        b
    }
}

/// `a - b`, but not below zero.
pub fn minus(a: u16, b: u16) -> (res: u16)
    ensures
        res == less(a as int, b as int),
{
    if a >= b {
        a - b
    } else {
        0
    }
}

/// One side of a centred box: as long as asked, within a margin, and at least one
/// cell.
pub open spec fn side(room: int, wanted: int) -> int {
    larger(smaller(wanted, less(room, 2)), 1)
}

/// A box of at most `width` × `height`, centred, but never larger than what is
/// there — a dialog that overflows a small terminal draws nothing at all.
pub fn centred(area: Rect, width: u16, height: u16) -> (res: Rect)
    requires
        on_screen(area),
    ensures
        res.width == side(area.width as int, width as int),
        res.height == side(area.height as int, height as int),
        res.x == area.x + less(area.width as int, res.width as int) / 2,
        res.y == area.y + less(area.height as int, res.height as int) / 2,
{
    let w: u16 = one_side(area.width, width);
    let h: u16 = one_side(area.height, height);
    Rect {
        x: area.x + minus(area.width, w) / 2,
        y: area.y + minus(area.height, h) / 2,
        width: w,
        height: h,
    }
}

fn one_side(room: u16, wanted: u16) -> (res: u16)
    ensures
        res == side(room as int, wanted as int),
{
    let free: u16 = minus(room, 2);
    let fitting: u16 = if wanted <= free {
        wanted
    } else {
        free
    };
    if fitting >= 1 {
        fitting
    } else {
        1
    }
}

/// `a`, but no further than coordinates go.
pub open spec fn capped(a: int) -> int {
    smaller(a, u16::MAX as int)
}

/// What is left of an area inside a frame whose text is set one column in.
pub open spec fn inside(area: Rect) -> Rect {
    let left = capped(smaller(area.x + 1, area.x + area.width));
    Rect {
        x: capped(left + 1) as u16,
        y: capped(smaller(area.y + 1, area.y + area.height)) as u16,
        width: less(area.width as int, 4) as u16,
        height: less(area.height as int, 2) as u16,
    }
}

fn one_further(at: u16) -> (res: u16)
    ensures
        res == capped(at + 1),
{
    if at < u16::MAX {
        at + 1
    } else {
        at
    }
}

/// What is left of an area inside a frame whose text is set one column in.
pub fn framed(area: Rect) -> (res: Rect)
    ensures
        res == inside(area),
{
    let left: u16 = if area.width >= 1 {
        one_further(area.x)
    } else {
        area.x
    };
    let top: u16 = if area.height >= 1 {
        one_further(area.y)
    } else {
        area.y
    };
    Rect {
        x: one_further(left),
        y: top,
        width: minus(area.width, 4),
        height: minus(area.height, 2),
    }
}

/// A dialog never exceeds the screen, however small that is.
pub proof fn law_a_dialog_never_exceeds_the_screen(area: Rect, width: int, height: int)
    requires
        area.width >= 1,
        area.height >= 1,
        0 <= width,
        0 <= height,
    ensures
        ({
            let w = side(area.width as int, width);
            let h = side(area.height as int, height);
            let x = area.x + less(area.width as int, w) / 2;
            let y = area.y + less(area.height as int, h) / 2;
            &&& 1 <= w <= area.width
            &&& 1 <= h <= area.height
            &&& area.x <= x && x + w <= area.x + area.width
            &&& area.y <= y && y + h <= area.y + area.height
        }),
{
}

} // verus!

//! Panes: the parts that a screen is made of.

use super::layout;
use super::layout::{minus, Rect};
use super::theme;
use super::theme::{
    bold, coloured, panel, plain, push_line, text_panel, Line, Panel, PanelModel, SpanModel, WARN,
};
use vstd::prelude::*;

verus! {

/// What a pane holds.
pub enum Body {
    /// Nothing: the area is wiped.
    Blank,
    /// Lines, broken at the edge where `wrap` says so, from line `scroll` on.
    Text { lines: Vec<Line>, wrap: bool, scroll: u16, centred: bool },
    /// Rows with a cursor, and a scroll bar where they do not all fit.
    List { rows: Vec<Line>, cursor: usize, focused: bool, bar: bool },
}

#[verifier::ext_equal]
pub enum BodyModel {
    Blank,
    Text { lines: Seq<Seq<SpanModel>>, wrap: bool, scroll: int, centred: bool },
    List { rows: Seq<Seq<SpanModel>>, cursor: int, focused: bool, bar: bool },
}

impl View for Body {
    type V = BodyModel;

    open spec fn view(&self) -> BodyModel {
        match *self {
            Body::Blank => BodyModel::Blank,
            Body::Text { lines, wrap, scroll, centred } => BodyModel::Text {
                lines: theme::line_views(lines@),
                wrap,
                scroll: scroll as int,
                centred,
            },
            Body::List { rows, cursor, focused, bar } => BodyModel::List {
                rows: theme::line_views(rows@),
                cursor: cursor as int,
                focused,
                bar,
            },
        }
    }
}

/// A part of the screen and what is in it.
pub struct Pane {
    pub area: Rect,
    pub frame: Option<Panel>,
    pub body: Body,
}

#[verifier::ext_equal]
pub struct PaneModel {
    pub area: Rect,
    pub frame: Option<PanelModel>,
    pub body: BodyModel,
}

impl View for Pane {
    type V = PaneModel;

    open spec fn view(&self) -> PaneModel {
        PaneModel {
            area: self.area,
            frame: match self.frame {
                Some(p) => Some(p@),
                None => None,
            },
            body: self.body@,
        }
    }
}

pub open spec fn pane_views(panes: Seq<Pane>) -> Seq<PaneModel> {
    Seq::new(panes.len(), |i: int| panes[i]@)
}

/// Add a pane to a screen.
pub fn push_pane(panes: &mut Vec<Pane>, pane: Pane)
    ensures
        pane_views(final(panes)@) == pane_views(old(panes)@).push(pane@),
{
    let ghost before = pane_views(panes@);
    panes.push(pane);
    assert(pane_views(panes@) =~= before.push(pane@));
}

/// Lines without a frame.
pub open spec fn bare(area: Rect, lines: Seq<Seq<SpanModel>>, wrap: bool) -> PaneModel {
    PaneModel {
        area,
        frame: None,
        body: BodyModel::Text { lines, wrap, scroll: 0, centred: false },
    }
}

/// Prose in a frame.
pub open spec fn prose(
    area: Rect,
    title: Seq<char>,
    focused: bool,
    lines: Seq<Seq<SpanModel>>,
    wrap: bool,
) -> PaneModel {
    PaneModel {
        area,
        frame: Some(theme::frame(title, focused, true)),
        body: BodyModel::Text { lines, wrap, scroll: 0, centred: false },
    }
}

/// A list in a frame. A list taller than its pane scrolls silently otherwise, and
/// a reader who cannot see that there are two more rows below the fold will not go
/// looking for them.
pub open spec fn listed(
    area: Rect,
    title: Seq<char>,
    focused: bool,
    rows: Seq<Seq<SpanModel>>,
    cursor: int,
) -> PaneModel {
    let visible = layout::less(area.height as int, 2);
    PaneModel {
        area,
        frame: Some(theme::frame(title, focused, false)),
        body: BodyModel::List {
            rows,
            cursor: layout::smaller(cursor, layout::less(rows.len() as int, 1)),
            focused,
            bar: rows.len() > visible && visible > 0,
        },
    }
}

/// Lines without a frame.
pub fn bare_pane(area: Rect, lines: Vec<Line>, wrap: bool) -> (res: Pane)
    ensures
        res@ == bare(area, theme::line_views(lines@), wrap),
{
    Pane { area, frame: None, body: Body::Text { lines, wrap, scroll: 0, centred: false } }
}

/// Prose in a frame.
pub fn prose_pane(area: Rect, title: &str, focused: bool, lines: Vec<Line>, wrap: bool) -> (res: Pane)
    ensures
        res@ == prose(area, title@, focused, theme::line_views(lines@), wrap),
{
    Pane {
        area,
        frame: Some(text_panel(title, focused)),
        body: Body::Text { lines, wrap, scroll: 0, centred: false },
    }
}

/// A list in a frame. Rows that do not all fit get a scroll bar.
pub fn list_pane(area: Rect, title: &str, focused: bool, rows: Vec<Line>, cursor: usize) -> (res: Pane)
    ensures
        res@ == listed(area, title@, focused, theme::line_views(rows@), cursor as int),
{
    assert(theme::line_views(rows@).len() == rows@.len());
    let visible: usize = minus(area.height, 2) as usize;
    let last: usize = if rows.len() >= 1 {
        rows.len() - 1
    } else {
        0
    };
    let bar = rows.len() > visible && visible > 0;
    Pane {
        area,
        frame: Some(panel(title, focused)),
        body: Body::List {
            rows,
            cursor: if cursor <= last {
                cursor
            } else {
                last
            },
            focused,
            bar,
        },
    }
}

/// The right-hand pane: a heading and prose, optionally with a caveat.
pub open spec fn details(
    area: Rect,
    title: Seq<char>,
    body: Seq<char>,
    caveat: Option<Seq<char>>,
) -> PaneModel {
    let lines = seq![seq![theme::plain_span(body)]] + (match caveat {
        Some(c) => seq![
            theme::blank_line(),
            seq![theme::bold_span("! "@, WARN), theme::coloured_span(c, WARN)],
        ],
        None => seq![],
    });
    prose(area, title, false, lines, true)
}

/// The right-hand pane: a heading and prose, optionally with a caveat.
pub fn detail(area: Rect, title: &str, body: &str, caveat: Option<&str>) -> (res: Pane)
    ensures
        res@ == details(
            area,
            title@,
            body@,
            match caveat {
                Some(c) => Some(c@),
                None => None,
            },
        ),
{
    let mut lines: Vec<Line> = Vec::new();
    push_line(&mut lines, Line::of(plain(body)));
    if let Some(c) = caveat {
        push_line(&mut lines, Line::blank());
        push_line(&mut lines, Line::of2(bold("! ", WARN), coloured(c, WARN)));
    }
    let res = prose_pane(area, title, false, lines, true);
    assert(theme::line_views(lines@) =~= seq![seq![theme::plain_span(body@)]] + (match caveat {
        Some(c) => seq![
            theme::blank_line(),
            seq![theme::bold_span("! "@, WARN), theme::coloured_span(c@, WARN)],
        ],
        None => seq![],
    }));
    res
}

} // verus!

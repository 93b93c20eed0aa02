//! The whole screen: the furniture, the body, and a dialog over it.

use super::app;
use super::app::{App, AppModel, Screen};
use super::dialogs::{Copies, CopiesModel, Modal, ModalModel};
use super::layout;
use super::layout::{centred, framed, minus, Fit, Rect, Split};
use super::panes;
use super::panes::{bare_pane, push_pane, Body, BodyModel, Pane, PaneModel};
use super::screens;
use super::theme;
use super::theme::{
    bold_style, colour_style, plain, push_line, styled, text_panel, Colour, Line, Panel,
    PanelModel, Span, SpanModel, Style, ACCENT, DANGER, MUTED,
};
use crate::text;
use crate::text::cat3;
use vstd::prelude::*;

verus! {

// ---------------------------------------------------------------------------
// The dialog
// ---------------------------------------------------------------------------

/// How many rows a line takes, `width` columns to a row.
pub open spec fn rows_taken(line: Seq<char>, width: int) -> int {
    layout::larger((line.len() + width - 1) / width, 1)
}

/// How many rows the first `n` lines take.
pub open spec fn rows_below(body: Seq<Seq<char>>, width: int, n: int) -> int
    decreases n,
{
    if n <= 0 {
        0
    } else {
        rows_below(body, width, n - 1) + rows_taken(body[n - 1], width)
    }
}

pub open spec fn dialog_width(area: Rect) -> int {
    layout::larger(layout::smaller(68, layout::less(area.width as int, 4)), 20)
}

/// Tall enough for what it says and no taller: a dialog padded out with blank rows
/// looks like it is still loading something.
pub open spec fn dialog_height(m: ModalModel, area: Rect) -> int {
    let width = layout::larger(layout::less(dialog_width(area), 4), 1);
    (rows_below(m.body, width, m.body.len() as int) + 5) % 0x1_0000
}

/// Where a dialog goes.
pub open spec fn dialog_area(m: ModalModel, area: Rect) -> Rect {
    let w = layout::side(area.width as int, dialog_width(area));
    let h = layout::side(area.height as int, dialog_height(m, area));
    Rect {
        x: (area.x + layout::less(area.width as int, w) / 2) as u16,
        y: (area.y + layout::less(area.height as int, h) / 2) as u16,
        width: w as u16,
        height: h as u16,
    }
}

pub open spec fn button(label: Seq<char>, active: bool, danger: bool) -> SpanModel {
    SpanModel {
        text: "  "@ + label + "  "@,
        style: if active {
            Style {
                fg: Colour::Black,
                bg: Colour::Indexed(
                    if danger {
                        DANGER
                    } else {
                        ACCENT
                    },
                ),
                bold: true,
            }
        } else {
            theme::in_colour(MUTED)
        },
    }
}

pub open spec fn buttons(m: ModalModel) -> Seq<SpanModel> {
    seq![
        button(m.confirm, m.cursor == 0, m.danger),
        theme::plain_span("   "@),
        button("Cancel"@, m.cursor == 1, false),
    ]
}

/// The panes of a dialog; `parts` is how the room inside its frame is divided.
pub open spec fn dialog(m: ModalModel, area: Rect, parts: Seq<Rect>) -> Seq<PaneModel> {
    let place = dialog_area(m, area);
    seq![
        PaneModel { area: place, frame: None, body: BodyModel::Blank },
        PaneModel {
            area: place,
            frame: Some(
                PanelModel {
                    border: theme::in_bold(
                        if m.danger {
                            DANGER
                        } else {
                            ACCENT
                        },
                    ),
                    ..theme::frame(m.title, false, true)
                },
            ),
            body: BodyModel::Text { lines: seq![], wrap: false, scroll: 0, centred: false },
        },
        panes::bare(
            parts[0],
            m.body.map_values(|l: Seq<char>| seq![theme::plain_span(l)]),
            true,
        ),
        PaneModel {
            area: parts[1],
            frame: None,
            body: BodyModel::Text { lines: seq![buttons(m)], wrap: false, scroll: 0, centred: true },
        },
    ]
}

/// How many rows a dialog's text takes, as far as a row number goes.
fn body_rows(m: &Modal, width: u16) -> (res: u32)
    requires
        width >= 1,
    ensures
        res == rows_below(m@.body, width as int, m@.body.len() as int) % 0x1_0000,
{
    let mut rows: u32 = 0;
    let mut i: usize = 0;
    while i < m.body.len()
        invariant
            i <= m.body@.len(),
            width >= 1,
            rows < 0x1_0000,
            rows == rows_below(m@.body, width as int, i as int) % 0x1_0000,
        decreases m.body@.len() - i,
    {
        assert(m@.body[i as int] == m.body@[i as int]@);
        let len: usize = m.body[i].as_str().unicode_len();
        let full: u128 = (len as u128 + width as u128 - 1) / (width as u128);
        assert(full <= len as u128 + width as u128) by (nonlinear_arith)
            requires
                full == (len as u128 + width as u128 - 1) / (width as int),
                width >= 1,
        ;
        let taken: u128 = if full >= 1 {
            full
        } else {
            1
        };
        let more: u32 = (taken % 0x1_0000) as u32;
        rows = (rows + more) % 0x1_0000;
        i = i + 1;
    }
    rows
}

fn dialog_place(m: &Modal, area: Rect) -> (res: Rect)
    requires
        layout::on_screen(area),
    ensures
        res == dialog_area(m@, area),
{
    let free: u16 = minus(area.width, 4);
    let fitting: u16 = if 68 <= free {
        68
    } else {
        free
    };
    let width: u16 = if fitting >= 20 {
        fitting
    } else {
        20
    };
    let text_width: u16 = minus(width, 4);
    let rows: u32 = body_rows(m, text_width);
    let height: u16 = ((rows + 5) % 0x1_0000) as u16;
    let ghost total = rows_below(m@.body, text_width as int, m@.body.len() as int);
    assert(height == (total + 5) % 0x1_0000) by {
        vstd::arithmetic::div_mod::lemma_add_mod_noop(total, 5, 0x1_0000);
    }
    let place = centred(area, width, height);
    assert(dialog_width(area) == width);
    assert(dialog_height(m@, area) == height);
    place
}

fn button_span(label: &str, active: bool, danger: bool) -> (res: Span)
    ensures
        res@ == button(label@, active, danger),
{
    let said = cat3("  ", label, "  ");
    let style = if active {
        Style {
            fg: Colour::Black,
            bg: Colour::Indexed(
                if danger {
                    DANGER
                } else {
                    ACCENT
                },
            ),
            bold: true,
        }
    } else {
        colour_style(MUTED)
    };
    styled(said.as_str(), style)
}

/// A dialog, drawn into the parts of the room inside its frame.
pub fn modal(m: &Modal, area: Rect, parts: &Vec<Rect>) -> (res: Vec<Pane>)
    requires
        layout::on_screen(area),
        parts@.len() >= 2,
    ensures
        panes::pane_views(res@) == dialog(m@, area, parts@),
{
    let place = dialog_place(m, area);
    let made = text_panel(m.title.as_str(), false);
    let border = bold_style(
        if m.danger {
            DANGER
        } else {
            ACCENT
        },
    );
    let ghost all = m@.body.map_values(|l: Seq<char>| seq![theme::plain_span(l)]);
    let mut lines: Vec<Line> = Vec::new();
    let mut i: usize = 0;
    assert(theme::line_views(lines@) =~= all.take(0));
    while i < m.body.len()
        invariant
            i <= m.body@.len(),
            all == m@.body.map_values(|l: Seq<char>| seq![theme::plain_span(l)]),
            theme::line_views(lines@) == all.take(i as int),
        decreases m.body@.len() - i,
    {
        assert(m@.body[i as int] == m.body@[i as int]@);
        push_line(&mut lines, Line::of(plain(m.body[i].as_str())));
        assert(theme::line_views(lines@) =~= all.take(i + 1));
        i = i + 1;
    }
    assert(all.take(i as int) =~= all);
    let mut answers: Vec<Line> = Vec::new();
    push_line(
        &mut answers,
        Line::of3(
            button_span(m.confirm.as_str(), m.cursor == 0, m.danger),
            plain("   "),
            button_span("Cancel", m.cursor == 1, false),
        ),
    );
    assert(theme::line_views(answers@) =~= seq![buttons(m@)]);
    let none: Vec<Line> = Vec::new();
    assert(theme::line_views(none@) =~= Seq::<Seq<SpanModel>>::empty());
    let mut panes: Vec<Pane> = Vec::new();
    push_pane(&mut panes, Pane { area: place, frame: None, body: Body::Blank });
    push_pane(
        &mut panes,
        Pane {
            area: place,
            frame: Some(
                Panel {
                    title: made.title,
                    title_style: made.title_style,
                    border,
                    inset: made.inset,
                },
            ),
            body: Body::Text { lines: none, wrap: false, scroll: 0, centred: false },
        },
    );
    push_pane(&mut panes, bare_pane(parts[0], lines, true));
    push_pane(
        &mut panes,
        Pane {
            area: parts[1],
            frame: None,
            body: Body::Text { lines: answers, wrap: false, scroll: 0, centred: true },
        },
    );
    assert(panes::pane_views(panes@) =~= dialog(m@, area, parts@));
    panes
}

// ---------------------------------------------------------------------------
// How the screen is divided
// ---------------------------------------------------------------------------

/// A breadcrumb line, a body, and a line of key hints.
pub open spec fn furniture() -> Seq<Fit> {
    seq![Fit::Length(1), Fit::Min(0), Fit::Length(1)]
}

/// How the body of a screen is divided from top to bottom. The opening list is
/// sized to what is in it: a five-row list stretched down thirty rows of empty box
/// reads as something having failed to load.
pub open spec fn body_fits(a: AppModel) -> Seq<Fit> {
    match a.screen {
        Screen::Targets => seq![
            Fit::Length(2),
            Fit::Max(((a.targets.len() + 2) % 0x1_0000) as u16),
            Fit::Length(7),
            Fit::Min(0),
        ],
        Screen::AskPath => seq![Fit::Length(6), Fit::Length(3), Fit::Min(0)],
        // Five rows for the summary, not four: its second line is a sentence that
        // wraps on a narrow terminal, and a header that loses half its warning is
        // worse than one with a blank row in it.
        Screen::Overview => seq![Fit::Length(5), Fit::Min(6), Fit::Length(5)],
        Screen::Patch => seq![Fit::Min(6), Fit::Length(4)],
        Screen::Manage => seq![],
        Screen::Result => seq![],
    }
}

/// A list and what explains it.
pub open spec fn halves() -> Seq<Fit> {
    seq![Fit::Percentage(58), Fit::Percentage(42)]
}

/// What a dialog says, and its buttons.
pub open spec fn dialog_halves() -> Seq<Fit> {
    seq![Fit::Min(0), Fit::Length(2)]
}

/// The part of the screen that is divided from left to right, if any.
pub open spec fn divided_part(a: AppModel, middle: Rect, body: Seq<Rect>) -> Option<Rect> {
    match a.screen {
        Screen::Overview => if a.inspection is Some {
            Some(body[1])
        } else {
            None
        },
        Screen::Patch => Some(body[0]),
        Screen::Manage => Some(middle),
        _ => None,
    }
}

/// The body of the screen.
pub open spec fn body_of(
    a: AppModel,
    copies: CopiesModel,
    middle: Rect,
    body: Seq<Rect>,
    columns: Seq<Rect>,
) -> Seq<PaneModel> {
    match a.screen {
        Screen::Targets => screens::targets_screen(a, body),
        Screen::AskPath => screens::ask_path_screen(a, body),
        Screen::Overview => screens::overview_screen(a, body, columns),
        Screen::Patch => screens::patch_screen(a, body, columns),
        Screen::Manage => screens::manage_screen(a, copies, columns),
        Screen::Result => screens::result_screen(a, middle),
    }
}

/// The whole screen.
pub open spec fn scene_of(
    a: AppModel,
    copies: CopiesModel,
    area: Rect,
    whole: Seq<Rect>,
    body: Seq<Rect>,
    columns: Seq<Rect>,
    parts: Seq<Rect>,
) -> Seq<PaneModel> {
    (seq![panes::bare(whole[0], seq![screens::header_line(a)], false)] + body_of(
        a,
        copies,
        whole[1],
        body,
        columns,
    )).push(panes::bare(whole[2], seq![screens::footer_line(a)], false)) + (match a.modal {
        Some(m) => dialog(m, area, parts),
        None => seq![],
    })
}

/// The screen is divided as its contents need it.
pub open spec fn well_divided(
    a: AppModel,
    area: Rect,
    whole: Seq<Rect>,
    body: Seq<Rect>,
    columns: Seq<Rect>,
    parts: Seq<Rect>,
) -> bool {
    &&& layout::stacked(whole, area, 3)
    &&& layout::stacked(body, whole[1], body_fits(a).len() as int)
    &&& divided_part(a, whole[1], body) matches Some(part) ==> layout::side_by_side(
        columns,
        part,
        2,
    )
    &&& a.modal matches Some(m) ==> layout::stacked(
        parts,
        layout::inside(dialog_area(m, area)),
        2,
    )
}

/// How the screen is divided into its furniture and its body.
pub fn frame_fits() -> (res: Vec<Fit>)
    ensures
        res@ == furniture(),
{
    let res: Vec<Fit> = vec![Fit::Length(1), Fit::Min(0), Fit::Length(1)];
    assert(res@ =~= furniture());
    res
}

/// How a list and what explains it share a row.
pub fn column_fits() -> (res: Vec<Fit>)
    ensures
        res@ == halves(),
{
    let res: Vec<Fit> = vec![Fit::Percentage(58), Fit::Percentage(42)];
    assert(res@ =~= halves());
    res
}

/// How the room inside a dialog is divided.
pub fn dialog_fits() -> (res: Vec<Fit>)
    ensures
        res@ == dialog_halves(),
{
    let res: Vec<Fit> = vec![Fit::Min(0), Fit::Length(2)];
    assert(res@ =~= dialog_halves());
    res
}

fn fits_of_body(app: &App) -> (res: Vec<Fit>)
    ensures
        res@ == body_fits(app@),
{
    assert(app@.targets.len() == app.targets@.len());
    let res: Vec<Fit> = match app.screen {
        Screen::Targets => {
            let room: u16 = ((app.targets.len() as u128 + 2) % 0x1_0000) as u16;
            vec![Fit::Length(2), Fit::Max(room), Fit::Length(7), Fit::Min(0)]
        },
        Screen::AskPath => vec![Fit::Length(6), Fit::Length(3), Fit::Min(0)],
        Screen::Overview => vec![Fit::Length(5), Fit::Min(6), Fit::Length(5)],
        Screen::Patch => vec![Fit::Min(6), Fit::Length(4)],
        Screen::Manage => Vec::new(),
        Screen::Result => Vec::new(),
    };
    assert(res@ =~= body_fits(app@));
    res
}

fn push_panes(panes: &mut Vec<Pane>, more: Vec<Pane>)
    ensures
        panes::pane_views(final(panes)@) == panes::pane_views(old(panes)@) + panes::pane_views(
            more@,
        ),
{
    let ghost before = panes::pane_views(panes@);
    let mut more = more;
    let ghost given = more@;
    panes.append(&mut more);
    assert(panes::pane_views(panes@) =~= before + panes::pane_views(given));
}

/// The whole screen, drawn into the parts it was divided into.
pub fn compose(
    app: &App,
    copies: &Copies,
    area: Rect,
    whole: &Vec<Rect>,
    body: &Vec<Rect>,
    columns: &Vec<Rect>,
    parts: &Vec<Rect>,
) -> (res: Vec<Pane>)
    requires
        app.wf(),
        layout::on_screen(area),
        well_divided(app@, area, whole@, body@, columns@, parts@),
    ensures
        panes::pane_views(res@) == scene_of(
            app@,
            copies@,
            area,
            whole@,
            body@,
            columns@,
            parts@,
        ),
{
    let mut panes: Vec<Pane> = Vec::new();
    let mut top: Vec<Line> = Vec::new();
    push_line(&mut top, screens::header(app));
    assert(theme::line_views(top@) =~= seq![screens::header_line(app@)]);
    push_pane(&mut panes, bare_pane(whole[0], top, false));
    assert(panes::pane_views(panes@) =~= seq![
        panes::bare(whole@[0], seq![screens::header_line(app@)], false),
    ]);
    let middle = match app.screen {
        Screen::Targets => screens::targets(app, body),
        Screen::AskPath => screens::ask_path(app, body),
        Screen::Overview => screens::overview(app, body, columns),
        Screen::Patch => screens::patch(app, body, columns),
        Screen::Manage => screens::manage(app, copies, columns),
        Screen::Result => screens::result(app, whole[1]),
    };
    push_panes(&mut panes, middle);
    let mut bottom: Vec<Line> = Vec::new();
    push_line(&mut bottom, screens::footer(app));
    assert(theme::line_views(bottom@) =~= seq![screens::footer_line(app@)]);
    push_pane(&mut panes, bare_pane(whole[2], bottom, false));
    let ghost so_far = panes::pane_views(panes@);
    assert(so_far + Seq::<PaneModel>::empty() =~= so_far);
    if let Some(m) = &app.modal {
        push_panes(&mut panes, modal(m, area, parts));
    }
    panes
}

/// A drawn screen, and how it was divided.
pub struct Scene {
    pub panes: Vec<Pane>,
    /// The furniture and the body.
    pub whole: Split,
    /// The body, from top to bottom.
    pub body: Split,
    /// The part of the body that is divided from left to right, if any.
    pub columns: Option<Split>,
    /// The room inside the dialog, if there is one.
    pub dialog: Option<Split>,
}

/// The parts of what was divided, if anything was.
pub open spec fn parts_of(split: Option<Split>) -> Seq<Rect> {
    match split {
        Some(s) => s.parts@,
        None => seq![],
    }
}

/// The panes of a drawn screen.
pub open spec fn drawn_scene(
    a: AppModel,
    copies: CopiesModel,
    area: Rect,
    drawn: Scene,
) -> Seq<PaneModel> {
    scene_of(
        a,
        copies,
        area,
        drawn.whole.parts@,
        drawn.body.parts@,
        parts_of(drawn.columns),
        parts_of(drawn.dialog),
    )
}

/// The panes of a drawn screen's body.
pub open spec fn drawn_body(a: AppModel, copies: CopiesModel, drawn: Scene) -> Seq<PaneModel> {
    body_of(
        a,
        copies,
        drawn.whole.parts@[1],
        drawn.body.parts@,
        parts_of(drawn.columns),
    )
}

/// Everything that was divided was divided into what the screen asks for.
pub open spec fn divided_for(
    a: AppModel,
    area: Rect,
    whole: Split,
    body: Split,
    columns: Option<Split>,
    inner: Option<Split>,
) -> bool {
    &&& layout::is_down(whole, area, furniture())
    &&& layout::is_down(body, whole.parts@[1], body_fits(a))
    &&& match (divided_part(a, whole.parts@[1], body.parts@), columns) {
        (Some(part), Some(split)) => layout::is_across(split, part, halves()),
        (None, None) => true,
        _ => false,
    }
    &&& match (a.modal, inner) {
        (Some(m), Some(split)) => layout::is_down(
            split,
            layout::inside(dialog_area(m, area)),
            dialog_halves(),
        ),
        (None, None) => true,
        _ => false,
    }
}

fn rects_of(split: Option<&Split>) -> (res: Vec<Rect>)
    ensures
        res@ == (match split {
            Some(s) => s.parts@,
            None => seq![],
        }),
{
    match split {
        Some(s) => s.parts.clone(),
        None => Vec::new(),
    }
}

/// The whole screen. `copies` is what the manage screen shows.
pub fn draw(app: &App, copies: &Copies, area: Rect) -> (res: Scene)
    requires
        app.wf(),
        layout::on_screen(area),
    ensures
        divided_for(app@, area, res.whole, res.body, res.columns, res.dialog),
        panes::pane_views(res.panes@) == drawn_scene(app@, copies@, area, res),
{
    let whole = Split::down(area, frame_fits());
    let body = Split::down(whole.parts[1], fits_of_body(app));
    let part: Option<Rect> = match app.screen {
        Screen::Overview => if app.inspection.is_some() {
            Some(body.parts[1])
        } else {
            None
        },
        Screen::Patch => Some(body.parts[0]),
        Screen::Manage => Some(whole.parts[1]),
        _ => None,
    };
    let columns: Option<Split> = match part {
        Some(part) => Some(Split::across(part, column_fits())),
        None => None,
    };
    let dialog: Option<Split> = match &app.modal {
        Some(m) => Some(Split::down(framed(dialog_place(m, area)), dialog_fits())),
        None => None,
    };
    let halves = rects_of(columns.as_ref());
    let inner = rects_of(dialog.as_ref());
    let panes = compose(app, copies, area, &whole.parts, &body.parts, &halves, &inner);
    Scene { panes, whole, body, columns, dialog }
}

// ---------------------------------------------------------------------------
// Laws
// ---------------------------------------------------------------------------

/// A dialog lies on the screen, whatever it says.
pub proof fn law_dialogs_fit_the_screen(m: ModalModel, area: Rect)
    requires
        layout::on_screen(area),
        area.width >= 1,
        area.height >= 1,
    ensures
        ({
            let place = dialog_area(m, area);
            &&& area.x <= place.x && place.x + place.width <= area.x + area.width
            &&& area.y <= place.y && place.y + place.height <= area.y + area.height
            &&& place.width >= 1
            &&& place.height >= 1
        }),
{
    layout::law_a_dialog_never_exceeds_the_screen(
        area,
        dialog_width(area),
        dialog_height(m, area),
    );
}

/// The breadcrumbs come first on every screen, and the key hints come last but for
/// a dialog.
pub proof fn law_the_furniture_frames_the_body(
    a: AppModel,
    copies: CopiesModel,
    area: Rect,
    whole: Seq<Rect>,
    body: Seq<Rect>,
    columns: Seq<Rect>,
    parts: Seq<Rect>,
)
    ensures
        ({
            let scene = scene_of(a, copies, area, whole, body, columns, parts);
            let n = body_of(a, copies, whole[1], body, columns).len() as int;
            &&& scene.len() >= n + 2
            &&& scene[0] == panes::bare(whole[0], seq![screens::header_line(a)], false)
            &&& scene[n + 1] == panes::bare(whole[2], seq![screens::footer_line(a)], false)
            &&& a.modal is None ==> scene.len() == n + 2
            &&& a.modal is Some ==> scene.len() == n + 6
        }),
{
}

/// On a screen of two rows or more the breadcrumbs have the first row, the key hints
/// the last one, and the body all that is between them.
pub proof fn law_the_furniture_is_the_first_and_the_last_row(whole: Split, area: Rect)
    requires
        layout::is_down(whole, area, furniture()),
        layout::on_screen(area),
        area.height >= 2,
    ensures
        whole.parts@ == seq![
            Rect { x: area.x, y: area.y, width: area.width, height: 1 },
            Rect {
                x: area.x,
                y: (area.y + 1) as u16,
                width: area.width,
                height: (area.height - 2) as u16,
            },
            Rect {
                x: area.x,
                y: (area.y + area.height - 1) as u16,
                width: area.width,
                height: 1,
            },
        ],
{
    let fits = furniture();
    reveal_with_fuel(layout::numbers_below, 4);
    assert(layout::has_room(fits, 1, area.height as int));
    let p = whole.parts@;
    assert(p[0].y == area.y && p[0].height == 1);
    assert(p[1].y == area.y + 1 && p[1].height == area.height - 2);
    assert(p[2].y == area.y + area.height - 1 && p[2].height == 1);
    assert(p[0].x == area.x && p[1].x == area.x && p[2].x == area.x);
}

/// Moving between screens never moves the furniture: whatever two states of the
/// interface show, and whether a dialog is open in them or not, the breadcrumbs and
/// the key hints are drawn in the same places, if only the screen was divided the
/// same way. That it was is certain on a screen of two rows or more.
pub proof fn law_the_furniture_never_moves(
    a: AppModel,
    b: AppModel,
    copies_a: CopiesModel,
    copies_b: CopiesModel,
    area: Rect,
    drawn_a: Scene,
    drawn_b: Scene,
)
    requires
        layout::on_screen(area),
        divided_for(a, area, drawn_a.whole, drawn_a.body, drawn_a.columns, drawn_a.dialog),
        divided_for(b, area, drawn_b.whole, drawn_b.body, drawn_b.columns, drawn_b.dialog),
        drawn_a.whole.parts@ == drawn_b.whole.parts@ || area.height >= 2,
    ensures
        ({
            let one = drawn_scene(a, copies_a, area, drawn_a);
            let other = drawn_scene(b, copies_b, area, drawn_b);
            let n = drawn_body(a, copies_a, drawn_a).len() as int;
            let m = drawn_body(b, copies_b, drawn_b).len() as int;
            &&& one[0].area == other[0].area
            &&& one[n + 1].area == other[m + 1].area
            &&& area.height >= 2 ==> one[0].area == (Rect { height: 1, ..area })
            &&& area.height >= 2 ==> one[n + 1].area == (Rect {
                y: (area.y + area.height - 1) as u16,
                height: 1,
                ..area
            })
        }),
{
    if area.height >= 2 {
        law_the_furniture_is_the_first_and_the_last_row(drawn_a.whole, area);
        law_the_furniture_is_the_first_and_the_last_row(drawn_b.whole, area);
    }
    law_the_furniture_frames_the_body(
        a,
        copies_a,
        area,
        drawn_a.whole.parts@,
        drawn_a.body.parts@,
        parts_of(drawn_a.columns),
        parts_of(drawn_a.dialog),
    );
    law_the_furniture_frames_the_body(
        b,
        copies_b,
        area,
        drawn_b.whole.parts@,
        drawn_b.body.parts@,
        parts_of(drawn_b.columns),
        parts_of(drawn_b.dialog),
    );
}

/// A list and what explains it stand side by side: the list has its share of the
/// width, and what explains it has the rest.
pub proof fn law_columns_share_the_width(columns: Split, part: Rect)
    requires
        layout::is_across(columns, part, halves()),
        layout::on_screen(part),
    ensures
        ({
            let left = layout::share(58, part.width as int);
            &&& columns.parts@[0] == (Rect { width: left as u16, ..part })
            &&& columns.parts@[1] == (Rect {
                x: (part.x + left) as u16,
                width: (part.width - left) as u16,
                ..part
            })
            &&& 0 <= left <= part.width
        }),
{
    let fits = halves();
    reveal_with_fuel(layout::numbers_below, 3);
    assert(layout::shares_out(fits));
    let p = columns.parts@;
    assert(p[0].x == part.x && p[0].width == layout::share(58, part.width as int));
    assert(p[1].x == part.x + p[0].width && p[1].width == part.width - p[0].width);
    assert(p[0].y == part.y && p[1].y == part.y);
}

/// Where a dialog has room for its buttons they are its last two rows, and what it
/// says has all the rows above them.
pub proof fn law_buttons_are_at_the_bottom(inner: Split, room: Rect)
    requires
        layout::is_down(inner, room, dialog_halves()),
        layout::on_screen(room),
        room.height >= 2,
    ensures
        inner.parts@[0] == (Rect { height: (room.height - 2) as u16, ..room }),
        inner.parts@[1] == (Rect { y: (room.y + room.height - 2) as u16, height: 2, ..room }),
{
    let fits = dialog_halves();
    reveal_with_fuel(layout::numbers_below, 3);
    assert(layout::has_room(fits, 0, room.height as int));
    let p = inner.parts@;
    assert(p[0].y == room.y && p[0].height == room.height - 2);
    assert(p[1].y == room.y + room.height - 2 && p[1].height == 2);
    assert(p[0].x == room.x && p[1].x == room.x);
}

/// What was divided for a screen is divided as its contents need it.
pub proof fn law_a_drawn_screen_is_well_divided(
    a: AppModel,
    area: Rect,
    whole: Split,
    body: Split,
    columns: Option<Split>,
    inner: Option<Split>,
)
    requires
        divided_for(a, area, whole, body, columns, inner),
    ensures
        well_divided(a, area, whole.parts@, body.parts@, parts_of(columns), parts_of(inner)),
{
}

/// Every pane lies on the screen, those of a dialog too if the screen has room for
/// the two columns by which its text is set in.
pub proof fn law_panes_lie_on_the_screen(
    a: AppModel,
    copies: CopiesModel,
    area: Rect,
    whole: Seq<Rect>,
    body: Seq<Rect>,
    columns: Seq<Rect>,
    parts: Seq<Rect>,
    k: int,
)
    requires
        app::well_formed(a),
        layout::on_screen(area),
        a.modal is Some ==> area.width >= 2 && area.height >= 1,
        well_divided(a, area, whole, body, columns, parts),
        0 <= k < scene_of(a, copies, area, whole, body, columns, parts).len(),
    ensures
        layout::within(scene_of(a, copies, area, whole, body, columns, parts)[k].area, area),
{
    let middle = body_of(a, copies, whole[1], body, columns);
    let scene = scene_of(a, copies, area, whole, body, columns, parts);
    let n = middle.len() as int;
    assert(layout::within(whole[0], area) && layout::within(whole[2], area));
    if 1 <= k <= n {
        lemma_body_lies_on_the_screen(a, copies, area, whole, body, columns, parts, k - 1);
        assert(scene[k] == middle[k - 1]);
    } else if k >= n + 2 {
        let m = a.modal->0;
        lemma_dialog_lies_on_the_screen(m, area, parts, k - n - 2);
        assert(scene[k] == dialog(m, area, parts)[k - n - 2]);
    }
}

proof fn lemma_body_lies_on_the_screen(
    a: AppModel,
    copies: CopiesModel,
    area: Rect,
    whole: Seq<Rect>,
    body: Seq<Rect>,
    columns: Seq<Rect>,
    parts: Seq<Rect>,
    k: int,
)
    requires
        app::well_formed(a),
        well_divided(a, area, whole, body, columns, parts),
        0 <= k < body_of(a, copies, whole[1], body, columns).len(),
    ensures
        layout::within(body_of(a, copies, whole[1], body, columns)[k].area, area),
{
    assert(layout::within(whole[1], area));
    assert forall|i: int| 0 <= i < body.len() implies layout::within(#[trigger] body[i], area) by {
        assert(layout::within(body[i], whole[1]));
    }
    if let Some(part) = divided_part(a, whole[1], body) {
        assert(layout::within(part, area));
        assert(layout::within(columns[0], part));
        assert(layout::within(columns[1], part));
    }
}

proof fn lemma_dialog_lies_on_the_screen(m: ModalModel, area: Rect, parts: Seq<Rect>, k: int)
    requires
        layout::on_screen(area),
        area.width >= 2 && area.height >= 1,
        layout::stacked(parts, layout::inside(dialog_area(m, area)), 2),
        0 <= k < 4,
    ensures
        layout::within(dialog(m, area, parts)[k].area, area),
{
    law_dialogs_fit_the_screen(m, area);
    let place = dialog_area(m, area);
    assert(layout::within(place, area));
    assert(layout::within(layout::inside(place), area));
    assert(layout::within(parts[0], layout::inside(place)));
    assert(layout::within(parts[1], layout::inside(place)));
}

} // verus!

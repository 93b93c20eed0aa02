//! What every screen shows. Every screen is a pure function of [`App`]; nothing
//! here decides anything or touches a file.
//!
//! The shape is the same throughout — a breadcrumb line, a body, and a line of
//! key hints — so that moving between screens never moves the furniture. Where
//! a screen has two panes, the left one is the list and the right one explains
//! whatever the cursor is on, because every choice in this tool needs a
//! sentence that does not assume the reader knows what Opus is.

use super::app;
use super::app::{App, AppModel, Focus, Screen};
use super::dialogs;
use super::dialogs::{Copies, CopiesModel, ItemModel, ManageItem};
use super::jobs;
use super::jobs::LogLineModel;
use super::layout;
use super::layout::{minus, Rect};
use super::panes;
use super::panes::{
    bare_pane, detail, list_pane, prose_pane, push_pane, Body, BodyModel, Pane, PaneModel,
};
use super::targets;
use super::targets::{Kind, Target, TargetModel};
use super::theme;
use super::theme::{
    accent, bold, bytes, coloured, cursor, dot, faint, key_hint, level_color, muted, pad, plain, push_line,
    row_style, styled, text_panel, Colour, Line, Panel, PanelModel, SpanModel, Style, ACCENT, BAD,
    DANGER, FAINT, GOOD, MUTED, WARN,
};
use crate::cli::VERSION;
use crate::patch::State;
use crate::picker;
use crate::picker::coverage;
use crate::sites::groups;
use crate::sites::groups::Group;
use crate::status::readout::{Level, Row, RowModel};
use crate::status::{Baseline, Inspection, InspectionModel};
use crate::text;
use crate::text::{cat2, cat3, chars_of, slice_of, str_eq, to_decimal};
use vstd::prelude::*;

verus! {

// ---------------------------------------------------------------------------
// Chrome
// ---------------------------------------------------------------------------

pub open spec fn leaf_of(screen: Screen) -> Option<Seq<char>> {
    match screen {
        Screen::Patch => Some("Patch"@),
        Screen::Manage => Some("Manage"@),
        Screen::AskPath => Some("Module by path"@),
        Screen::Result => Some("Result"@),
        Screen::Targets => None,
        Screen::Overview => None,
    }
}

/// The breadcrumbs.
pub open spec fn header_line(a: AppModel) -> Seq<SpanModel> {
    seq![
        theme::bold_span(" stereocord "@, ACCENT),
        theme::coloured_span("v"@ + VERSION@ + "  "@, FAINT),
    ] + (match app::target_of(a) {
        Some(t) => seq![theme::coloured_span("›  "@, FAINT), theme::plain_span(t.label)],
        None => seq![],
    }) + (match leaf_of(a.screen) {
        Some(leaf) => seq![
            theme::coloured_span("  ›  "@, FAINT),
            theme::coloured_span(leaf, ACCENT),
        ],
        None => seq![],
    })
}

/// The breadcrumbs.
pub fn header(app: &App) -> (res: Line)
    ensures
        res@ == header_line(app@),
{
    let version = cat3("v", VERSION, "  ");
    let mut line = Line::of2(bold(" stereocord ", ACCENT), faint(version.as_str()));
    if let Some(t) = app.target() {
        line.push(faint("›  "));
        line.push(plain(t.label.as_str()));
    }
    let leaf: Option<&'static str> = match app.screen {
        Screen::Patch => Some("Patch"),
        Screen::Manage => Some("Manage"),
        Screen::AskPath => Some("Module by path"),
        Screen::Result => Some("Result"),
        Screen::Targets => None,
        Screen::Overview => None,
    };
    if let Some(leaf) = leaf {
        line.push(faint("  ›  "));
        line.push(accent(leaf));
    }
    assert(line@ =~= header_line(app@));
    line
}

/// The keys that work on a screen, and what they do.
pub open spec fn keys_of(a: AppModel) -> Seq<(Seq<char>, Seq<char>)> {
    if a.modal is Some {
        seq![("←→"@, "choose"@), ("enter"@, "go"@), ("esc"@, "cancel"@)]
    } else if a.busy is Some {
        seq![("ctrl-c"@, "quit"@)]
    } else {
        match a.screen {
            Screen::Targets => seq![
                ("↑↓"@, "move"@),
                ("enter"@, "open"@),
                ("r"@, "refresh"@),
                ("q"@, "quit"@),
            ],
            Screen::AskPath => seq![
                ("tab"@, "complete"@),
                ("enter"@, "open"@),
                ("esc"@, "back"@),
            ],
            Screen::Overview => seq![
                ("↑↓"@, "move"@),
                ("tab"@, "pane"@),
                ("enter"@, "choose"@),
                ("p"@, "patch"@),
                ("m"@, "manage"@),
                ("r"@, "re-read"@),
                ("esc"@, "back"@),
            ],
            Screen::Patch => seq![
                ("↑↓"@, "move"@),
                ("space"@, "toggle"@),
                ("←→"@, "bitrate"@),
                ("a/n/d"@, "all/none/defaults"@),
                ("enter"@, "apply"@),
                ("esc"@, "back"@),
            ],
            Screen::Manage => seq![("↑↓"@, "move"@), ("enter"@, "choose"@), ("esc"@, "back"@)],
            Screen::Result => seq![("↑↓"@, "scroll"@), ("enter"@, "continue"@)],
        }
    }
}

/// The first `n` key hints of a footer.
pub open spec fn hints_below(keys: Seq<(Seq<char>, Seq<char>)>, n: int) -> Seq<SpanModel>
    decreases n,
{
    if n <= 0 {
        seq![theme::plain_span(" "@)]
    } else {
        hints_below(keys, n - 1) + theme::hint(keys[n - 1].0, keys[n - 1].1)
    }
}

pub open spec fn footer_line(a: AppModel) -> Seq<SpanModel> {
    hints_below(keys_of(a), keys_of(a).len() as int)
}

pub open spec fn key_views(keys: Seq<(&'static str, &'static str)>) -> Seq<(Seq<char>, Seq<char>)> {
    Seq::new(keys.len(), |i: int| (keys[i].0@, keys[i].1@))
}

fn keys(app: &App) -> (res: Vec<(&'static str, &'static str)>)
    ensures
        key_views(res@) == keys_of(app@),
{
    let res: Vec<(&'static str, &'static str)> = if app.modal.is_some() {
        vec![("←→", "choose"), ("enter", "go"), ("esc", "cancel")]
    } else if app.busy.is_some() {
        vec![("ctrl-c", "quit")]
    } else {
        match app.screen {
            Screen::Targets => vec![
                ("↑↓", "move"),
                ("enter", "open"),
                ("r", "refresh"),
                ("q", "quit"),
            ],
            Screen::AskPath => vec![("tab", "complete"), ("enter", "open"), ("esc", "back")],
            Screen::Overview => vec![
                ("↑↓", "move"),
                ("tab", "pane"),
                ("enter", "choose"),
                ("p", "patch"),
                ("m", "manage"),
                ("r", "re-read"),
                ("esc", "back"),
            ],
            Screen::Patch => vec![
                ("↑↓", "move"),
                ("space", "toggle"),
                ("←→", "bitrate"),
                ("a/n/d", "all/none/defaults"),
                ("enter", "apply"),
                ("esc", "back"),
            ],
            Screen::Manage => vec![("↑↓", "move"), ("enter", "choose"), ("esc", "back")],
            Screen::Result => vec![("↑↓", "scroll"), ("enter", "continue")],
        }
    };
    assert(key_views(res@) =~= keys_of(app@));
    res
}

/// The keys that work here.
pub fn footer(app: &App) -> (res: Line)
    ensures
        res@ == footer_line(app@),
{
    let list = keys(app);
    let ghost all = keys_of(app@);
    let mut line = Line::of(plain(" "));
    let mut i: usize = 0;
    assert(key_views(list@).len() == list@.len());
    assert(line@ =~= hints_below(all, 0));
    while i < list.len()
        invariant
            i <= list@.len(),
            key_views(list@) == all,
            line@ == hints_below(all, i as int),
        decreases list@.len() - i,
    {
        assert(key_views(list@)[i as int] == (list@[i as int].0@, list@[i as int].1@));
        line.append(key_hint(list[i].0, list[i].1));
        i = i + 1;
    }
    line
}

pub open spec fn spinner_at(tick: int) -> Seq<char> {
    let frames = seq!["⠋"@, "⠙"@, "⠹"@, "⠸"@, "⠼"@, "⠴"@, "⠦"@, "⠧"@, "⠇"@, "⠏"@];
    frames[(tick / 2) % 10]
}

fn spinner(app: &App) -> (res: &'static str)
    ensures
        res@ == spinner_at(app@.tick),
{
    let frames: Vec<&'static str> = vec!["⠋", "⠙", "⠹", "⠸", "⠼", "⠴", "⠦", "⠧", "⠇", "⠏"];
    let place: usize = ((app.tick / 2) % 10) as usize;
    frames[place]
}

// ---------------------------------------------------------------------------
// Screen: the opening list
// ---------------------------------------------------------------------------

pub const WHICH_CLIENT: &'static str =
    " Which client should this work on? Anything greyed out is not installed here.";

pub const STILL_LOADED: &'static str =
    "A running client already has the old module loaded, so nothing you change here reaches it until you close it and start it again.";

pub const ONE_KEYPRESS: &'static str =
    "The untouched module is copied aside before the first change, and putting it back is one keypress away.";

/// The width of the longest label among the first `n`, and at least 20.
pub open spec fn label_width(list: Seq<TargetModel>, n: int) -> int
    decreases n,
{
    if n <= 0 {
        20
    } else {
        layout::larger(label_width(list, n - 1), list[n - 1].label.len() as int)
    }
}

/// One row of the opening list.
pub open spec fn target_line(t: TargetModel, selected: bool, width: int) -> Seq<SpanModel> {
    let enabled = targets::can_select(t);
    seq![
        theme::cursor_span(selected, enabled),
        SpanModel {
            text: text::padded(t.label, width + 2),
            style: if t.kind is AskForPath {
                theme::in_colour(ACCENT)
            } else {
                theme::style_of_row(selected, enabled)
            },
        },
        theme::coloured_span(
            t.detail,
            if t.kind is NotInstalled || t.kind is NoModule {
                FAINT
            } else {
                MUTED
            },
        ),
    ]
}

pub open spec fn target_lines(a: AppModel) -> Seq<Seq<SpanModel>> {
    let width = label_width(a.targets, a.targets.len() as int);
    Seq::new(
        a.targets.len(),
        |i: int| target_line(a.targets[i], i == a.target_cursor, width),
    )
}

pub open spec fn worth_knowing() -> Seq<Seq<SpanModel>> {
    seq![
        seq![
            theme::coloured_span("Quit Discord first. "@, MUTED),
            theme::coloured_span(STILL_LOADED@, FAINT),
        ],
        theme::blank_line(),
        seq![
            theme::coloured_span("Nothing here is one-way. "@, MUTED),
            theme::coloured_span(ONE_KEYPRESS@, FAINT),
        ],
    ]
}

pub open spec fn targets_screen(a: AppModel, rows: Seq<Rect>) -> Seq<PaneModel> {
    seq![
        panes::bare(rows[0], seq![seq![theme::coloured_span(WHICH_CLIENT@, MUTED)]], false),
        panes::listed(rows[1], "Discord installs"@, true, target_lines(a), a.target_cursor),
        panes::prose(rows[2], "Worth knowing"@, false, worth_knowing(), true),
    ]
}

fn widest(list: &Vec<Target>) -> (res: usize)
    ensures
        res == label_width(targets::target_views(list@), list@.len() as int),
{
    let ghost all = targets::target_views(list@);
    let mut width: usize = 20;
    let mut i: usize = 0;
    while i < list.len()
        invariant
            i <= list@.len(),
            all == targets::target_views(list@),
            width == label_width(all, i as int),
        decreases list@.len() - i,
    {
        assert(all[i as int] == list@[i as int]@);
        let n: usize = list[i].label.as_str().unicode_len();
        if n > width {
            width = n;
        }
        i = i + 1;
    }
    width
}

proof fn lemma_labels_fit(list: Seq<TargetModel>, n: int, i: int)
    requires
        0 <= i < n <= list.len(),
    ensures
        list[i].label.len() <= label_width(list, n),
    decreases n,
{
    if i < n - 1 {
        lemma_labels_fit(list, n - 1, i);
    }
}

fn line_of_target(t: &Target, selected: bool, width: usize) -> (res: Line)
    requires
        t@.label.len() <= width,
    ensures
        res@ == target_line(t@, selected, width as int),
{
    let enabled = t.selectable();
    let (asks, quiet) = match &t.kind {
        Kind::AskForPath => (true, false),
        Kind::NotInstalled => (false, true),
        Kind::NoModule { .. } => (false, true),
        Kind::Ready { .. } => (false, false),
        Kind::Loose { .. } => (false, false),
    };
    let fill: usize = width - t.label.as_str().unicode_len();
    let label = cat3(t.label.as_str(), text::repeat_char(' ', fill).as_str(), "  ");
    proof {
        reveal_strlit("  ");
        assert(label@ =~= text::padded(t@.label, width + 2));
    }
    let style = if asks {
        theme::colour_style(ACCENT)
    } else {
        row_style(selected, enabled)
    };
    let said = if quiet {
        faint(t.detail.as_str())
    } else {
        muted(t.detail.as_str())
    };
    Line::of3(cursor(selected, enabled), styled(label.as_str(), style), said)
}

/// The opening list.
pub fn targets(app: &App, rows: &Vec<Rect>) -> (res: Vec<Pane>)
    requires
        rows@.len() >= 3,
    ensures
        panes::pane_views(res@) == targets_screen(app@, rows@),
{
    let mut question: Vec<Line> = Vec::new();
    push_line(&mut question, Line::of(muted(WHICH_CLIENT)));
    assert(theme::line_views(question@) =~= seq![
        seq![theme::coloured_span(WHICH_CLIENT@, MUTED)],
    ]);
    let width: usize = widest(&app.targets);
    let ghost all = target_lines(app@);
    let mut list: Vec<Line> = Vec::new();
    let mut i: usize = 0;
    assert(theme::line_views(list@) =~= all.take(0));
    while i < app.targets.len()
        invariant
            i <= app.targets@.len(),
            all == target_lines(app@),
            width == label_width(app@.targets, app@.targets.len() as int),
            theme::line_views(list@) == all.take(i as int),
        decreases app.targets@.len() - i,
    {
        assert(app@.targets[i as int] == app.targets@[i as int]@);
        proof {
            lemma_labels_fit(app@.targets, app@.targets.len() as int, i as int);
        }
        let line = line_of_target(&app.targets[i], i == app.target_cursor, width);
        push_line(&mut list, line);
        assert(theme::line_views(list@) =~= all.take(i + 1));
        i = i + 1;
    }
    assert(all.take(i as int) =~= all);
    let mut notes: Vec<Line> = Vec::new();
    push_line(&mut notes, Line::of2(muted("Quit Discord first. "), faint(STILL_LOADED)));
    push_line(&mut notes, Line::blank());
    push_line(&mut notes, Line::of2(muted("Nothing here is one-way. "), faint(ONE_KEYPRESS)));
    assert(theme::line_views(notes@) =~= worth_knowing());
    let mut panes: Vec<Pane> = Vec::new();
    push_pane(&mut panes, bare_pane(rows[0], question, false));
    push_pane(&mut panes, list_pane(rows[1], "Discord installs", true, list, app.target_cursor));
    push_pane(&mut panes, prose_pane(rows[2], "Worth knowing", false, notes, true));
    assert(panes::pane_views(panes@) =~= targets_screen(app@, rows@));
    panes
}

// ---------------------------------------------------------------------------
// Screen: a module by path
// ---------------------------------------------------------------------------

pub const CUSTOM_CLIENTS: &'static str =
    "Custom clients ship Discord's own voice module, so this works on them too. Point at the discord_voice.node file itself.";

pub const FILED_UNDER: &'static str =
    "A backup is kept for it the same way, filed under the path you give here.";

pub const TAB_COMPLETES: &'static str =
    "  Tab completes. ~ works. Typically …/modules/discord_voice-1/discord_voice/discord_voice.node";

/// The typed path. Paths here run to a hundred characters: the end of one that
/// does not fit is shown, not the beginning, since what you are typing has to stay
/// visible, and the part already typed is the part you can remember.
pub open spec fn input_line(input: Seq<char>, width: int) -> Seq<SpanModel> {
    let room = layout::less(width, 8);
    seq![
        theme::coloured_span("› "@, ACCENT),
        theme::coloured_span(
            if input.len() > room {
                "…"@
            } else {
                ""@
            },
            FAINT,
        ),
        theme::plain_span(
            if input.len() > room {
                input.skip(input.len() - room)
            } else {
                input
            },
        ),
        theme::coloured_span("█"@, ACCENT),
    ]
}

pub open spec fn ask_path_screen(a: AppModel, rows: Seq<Rect>) -> Seq<PaneModel> {
    seq![
        panes::prose(
            rows[0],
            "Module by path"@,
            false,
            seq![
                seq![theme::plain_span(CUSTOM_CLIENTS@)],
                theme::blank_line(),
                seq![theme::coloured_span(FILED_UNDER@, MUTED)],
            ],
            true,
        ),
        panes::prose(rows[1], "Path"@, true, seq![input_line(a.input, rows[1].width as int)], false),
        match a.input_error {
            Some(err) => panes::bare(
                rows[2],
                seq![
                    seq![theme::coloured_span("  ! "@, BAD), theme::coloured_span(err, BAD)],
                ],
                true,
            ),
            None => panes::bare(
                rows[2],
                seq![seq![theme::coloured_span(TAB_COMPLETES@, FAINT)]],
                true,
            ),
        },
    ]
}

fn line_of_input(input: &str, width: u16) -> (res: Line)
    ensures
        res@ == input_line(input@, width as int),
{
    let room: usize = minus(width, 8) as usize;
    let typed = chars_of(input);
    let (ellipsis, visible) = if typed.len() > room {
        let tail = slice_of(&typed, typed.len() - room, typed.len());
        assert(tail@ =~= input@.skip(input@.len() - room));
        ("…", tail)
    } else {
        ("", input.to_owned())
    };
    let mut line = Line::of3(accent("› "), faint(ellipsis), plain(visible.as_str()));
    line.push(accent("█"));
    assert(line@ =~= input_line(input@, width as int));
    line
}

/// Asking for a path.
pub fn ask_path(app: &App, rows: &Vec<Rect>) -> (res: Vec<Pane>)
    requires
        rows@.len() >= 3,
    ensures
        panes::pane_views(res@) == ask_path_screen(app@, rows@),
{
    let mut help: Vec<Line> = Vec::new();
    push_line(&mut help, Line::of(plain(CUSTOM_CLIENTS)));
    push_line(&mut help, Line::blank());
    push_line(&mut help, Line::of(muted(FILED_UNDER)));
    assert(theme::line_views(help@) =~= seq![
        seq![theme::plain_span(CUSTOM_CLIENTS@)],
        theme::blank_line(),
        seq![theme::coloured_span(FILED_UNDER@, MUTED)],
    ]);
    let mut typed: Vec<Line> = Vec::new();
    push_line(&mut typed, line_of_input(app.input.as_str(), rows[1].width));
    assert(theme::line_views(typed@) =~= seq![
        input_line(app@.input, rows@[1].width as int),
    ]);
    let mut last: Vec<Line> = Vec::new();
    match &app.input_error {
        Some(err) => {
            push_line(&mut last, Line::of2(coloured("  ! ", BAD), coloured(err.as_str(), BAD)));
            assert(theme::line_views(last@) =~= seq![
                seq![theme::coloured_span("  ! "@, BAD), theme::coloured_span(err@, BAD)],
            ]);
        },
        None => {
            push_line(&mut last, Line::of(faint(TAB_COMPLETES)));
            assert(theme::line_views(last@) =~= seq![
                seq![theme::coloured_span(TAB_COMPLETES@, FAINT)],
            ]);
        },
    }
    let mut panes: Vec<Pane> = Vec::new();
    push_pane(&mut panes, prose_pane(rows[0], "Module by path", false, help, true));
    push_pane(&mut panes, prose_pane(rows[1], "Path", true, typed, false));
    push_pane(&mut panes, bare_pane(rows[2], last, true));
    assert(panes::pane_views(panes@) =~= ask_path_screen(app@, rows@));
    panes
}

// ---------------------------------------------------------------------------
// Screen: the readout
// ---------------------------------------------------------------------------

pub const DOES_TO_AUDIO: &'static str = "What this module does to your audio";

pub const NOTHING_MATCHED: &'static str =
    "nothing in this file matched — either it is not Discord's voice module, or it is a build this version has never seen";

pub const READ_EXACTLY: &'static str = "read against the backup, so every line below is exact";

pub const READ_DIRECTLY: &'static str =
    "read directly; the module is untouched, so nothing is hidden";

pub const PARTLY_HIDDEN: &'static str =
    "no backup on record — a patch hides the very bytes that identify it, so some lines below will say they cannot be read";

/// What a file is, in one word.
pub open spec fn verdict(i: InspectionModel) -> (Seq<char>, u8) {
    if i.located == 0 {
        ("not a voice module this tool knows"@, BAD)
    } else {
        match i.state {
            State::Stock => ("untouched"@, BAD),
            State::Stereocord => ("patched by stereocord"@, GOOD),
            State::Foreign => ("patched"@, GOOD),
        }
    }
}

/// Where the readings came from. Without a backup, a patched module can only be
/// read where a signature happens to survive its own patch, and claiming otherwise
/// would be the one thing this panel must never do.
pub open spec fn trust_line(i: InspectionModel) -> Seq<SpanModel> {
    if i.located == 0 {
        seq![theme::coloured_span(NOTHING_MATCHED@, BAD)]
    } else if i.baseline == Baseline::Backup {
        seq![theme::coloured_span(READ_EXACTLY@, FAINT)]
    } else if i.state == State::Stock {
        seq![theme::coloured_span(READ_DIRECTLY@, FAINT)]
    } else {
        seq![theme::coloured_span(PARTLY_HIDDEN@, WARN)]
    }
}

/// What a file is, and whether what follows can be trusted.
pub open spec fn facts_lines(i: InspectionModel) -> Seq<Seq<SpanModel>> {
    let between = theme::coloured_span("  ·  "@, FAINT);
    seq![
        seq![
            theme::bold_span(verdict(i).0, verdict(i).1),
            between,
            theme::coloured_span(theme::size_text(i.size), MUTED),
            between,
            theme::coloured_span("md5 "@ + i.md5.take(12), MUTED),
            between,
            theme::coloured_span(
                match i.symbols {
                    Some(n) => text::decimal(n as nat) + " symbols"@,
                    None => "stripped"@,
                },
                MUTED,
            ),
        ],
        trust_line(i),
    ]
}

/// Where a row of the opening list is on disk.
pub open spec fn place_text(t: TargetModel) -> Seq<char> {
    match targets::node_of(t) {
        Some(node) => node,
        None => match targets::install_of(t) {
            Some(i) => i.app_dir,
            None => ""@,
        },
    }
}

/// The one-glance pane, where there is something to look at.
pub open spec fn summary(a: AppModel, area: Rect) -> Seq<PaneModel> {
    match app::target_of(a) {
        Some(t) => seq![
            panes::prose(
                area,
                t.label,
                false,
                match a.inspection {
                    Some(i) => facts_lines(i),
                    None => seq![seq![theme::coloured_span(place_text(t), MUTED)]],
                },
                true,
            ),
        ],
        None => seq![],
    }
}

/// One line of the readout.
pub open spec fn status_line(row: RowModel, selected: bool) -> Seq<SpanModel> {
    seq![
        theme::plain_span(" "@),
        theme::coloured_span(theme::glyph_of(row.level), theme::colour_of(row.level)),
        theme::plain_span(" "@),
        SpanModel {
            text: text::padded(row.label, 21),
            style: theme::style_of_row(selected, true),
        },
        theme::coloured_span(row.value, theme::colour_of(row.level)),
    ]
}

pub open spec fn status_lines(rows: Seq<RowModel>, cursor: int) -> Seq<Seq<SpanModel>> {
    Seq::new(rows.len(), |i: int| status_line(rows[i], i == cursor))
}

/// The readout, and the line under the cursor explained.
pub open spec fn readout_panes(a: AppModel, i: InspectionModel, columns: Seq<Rect>) -> Seq<
    PaneModel,
> {
    let known = 0 <= a.status_cursor < i.rows.len();
    seq![
        panes::listed(
            columns[0],
            DOES_TO_AUDIO@,
            a.focus == Focus::Status,
            status_lines(i.rows, a.status_cursor),
            a.status_cursor,
        ),
        panes::details(
            columns[1],
            if known {
                i.rows[a.status_cursor].label
            } else {
                "Details"@
            },
            if known {
                i.rows[a.status_cursor].note
            } else {
                ""@
            },
            None,
        ),
    ]
}

pub const NOT_HERE: &'static str = "The voice module is not here.";

pub const NOT_FETCHED_AGAIN: &'static str =
    "Discord will not download it again on its own: its updater still has this module recorded as installed, and it trusts that record without checking the files. That is why the client reports the installation as corrupt, and why restarting does not help.";

pub const WAY_OUT: &'static str =
    "\"Manage copies on disk\" → \"Reinstall the voice module\" clears that record. The next start fetches a fresh one.";

pub const NOT_YET: &'static str = "No voice module here yet.";

pub const ON_FIRST_LAUNCH: &'static str =
    "Discord downloads it on first launch. Start the client, join a voice channel once, then come back.";

/// Why there is no module to read: one reason is fixed by launching Discord and the
/// other cannot be fixed by launching Discord at all.
pub open spec fn absence_lines(a: AppModel) -> Seq<Seq<SpanModel>> {
    let removed = match app::target_of(a) {
        Some(t) => match t.kind {
            targets::KindModel::NoModule { removed, .. } => removed,
            _ => false,
        },
        None => false,
    };
    if removed {
        seq![
            seq![theme::bold_span(NOT_HERE@, BAD)],
            theme::blank_line(),
            seq![theme::plain_span(NOT_FETCHED_AGAIN@)],
            theme::blank_line(),
            seq![theme::plain_span(WAY_OUT@)],
        ]
    } else {
        seq![
            seq![theme::coloured_span(NOT_YET@, MUTED)],
            theme::blank_line(),
            seq![theme::plain_span(ON_FIRST_LAUNCH@)],
        ]
    }
}

/// The middle of the readout screen.
pub open spec fn readout_part(a: AppModel, area: Rect, columns: Seq<Rect>) -> Seq<PaneModel> {
    match (a.inspection, a.busy) {
        (Some(i), _) => readout_panes(a, i, columns),
        (None, Some(verb)) => seq![
            panes::prose(
                area,
                DOES_TO_AUDIO@,
                false,
                seq![
                    seq![
                        theme::coloured_span("  "@ + spinner_at(a.tick) + " "@, ACCENT),
                        theme::plain_span(verb + "…"@),
                    ],
                ],
                false,
            ),
        ],
        (None, None) => seq![panes::prose(area, DOES_TO_AUDIO@, false, absence_lines(a), true)],
    }
}

/// One action of the readout screen.
pub open spec fn action_line(a: AppModel, index: int) -> Seq<SpanModel> {
    let enabled = app::can_act(a, index);
    let selected = index == a.action_cursor;
    seq![
        theme::cursor_span(selected, enabled),
        SpanModel {
            text: text::padded(app::actions()[index].0, 26),
            style: theme::style_of_row(selected, enabled),
        },
        theme::coloured_span(
            if enabled {
                app::actions()[index].1
            } else {
                "no module to patch"@
            },
            FAINT,
        ),
    ]
}

pub open spec fn action_lines(a: AppModel) -> Seq<Seq<SpanModel>> {
    seq![action_line(a, 0), action_line(a, 1), action_line(a, 2)]
}

pub open spec fn overview_screen(a: AppModel, rows: Seq<Rect>, columns: Seq<Rect>) -> Seq<
    PaneModel,
> {
    (summary(a, rows[0]) + readout_part(a, rows[1], columns)).push(
        panes::listed(
            rows[2],
            "What next"@,
            a.focus == Focus::Actions,
            action_lines(a),
            a.action_cursor,
        ),
    )
}

fn lines_of_facts(i: &Inspection) -> (res: Vec<Line>)
    requires
        i.wf(),
    ensures
        theme::line_views(res@) == facts_lines(i@),
{
    let (word, colour) = if !i.recognised() {
        ("not a voice module this tool knows", BAD)
    } else {
        match i.state {
            State::Stock => ("untouched", BAD),
            State::Stereocord => ("patched by stereocord", GOOD),
            State::Foreign => ("patched", GOOD),
        }
    };
    let digest = chars_of(i.md5.as_str());
    let head = slice_of(&digest, 0, 12);
    assert(head@ =~= i.md5@.take(12));
    let sum = cat2("md5 ", head.as_str());
    let symbols = match i.symbols {
        Some(n) => cat2(to_decimal(n as u64).as_str(), " symbols"),
        None => "stripped".to_owned(),
    };
    let mut first = Line::of3(bold(word, colour), faint("  ·  "), muted(bytes(i.size).as_str()));
    first.push(faint("  ·  "));
    first.push(muted(sum.as_str()));
    first.push(faint("  ·  "));
    first.push(muted(symbols.as_str()));
    assert(first@ =~= facts_lines(i@)[0]);
    let said = if !i.recognised() {
        coloured(NOTHING_MATCHED, BAD)
    } else if i.baseline == Baseline::Backup {
        faint(READ_EXACTLY)
    } else if i.state == State::Stock {
        faint(READ_DIRECTLY)
    } else {
        coloured(PARTLY_HIDDEN, WARN)
    };
    let mut lines: Vec<Line> = Vec::new();
    push_line(&mut lines, first);
    push_line(&mut lines, Line::of(said));
    assert(theme::line_views(lines@) =~= facts_lines(i@));
    lines
}

fn push_summary(panes: &mut Vec<Pane>, app: &App, area: Rect)
    requires
        app.wf(),
    ensures
        panes::pane_views(final(panes)@) == panes::pane_views(old(panes)@) + summary(app@, area),
{
    let ghost before = panes::pane_views(panes@);
    assert(before + Seq::<PaneModel>::empty() =~= before);
    if let Some(t) = app.target() {
        let lines = match &app.inspection {
            Some(i) => lines_of_facts(i),
            None => {
                let place = match t.node() {
                    Some(node) => node.clone(),
                    None => match t.install() {
                        Some(i) => i.app_dir.clone(),
                        None => "".to_owned(),
                    },
                };
                let mut lines: Vec<Line> = Vec::new();
                push_line(&mut lines, Line::of(muted(place.as_str())));
                assert(theme::line_views(lines@) =~= seq![
                    seq![theme::coloured_span(place_text(t@), MUTED)],
                ]);
                lines
            },
        };
        push_pane(panes, prose_pane(area, t.label.as_str(), false, lines, true));
        assert(panes::pane_views(panes@) =~= before + summary(app@, area));
    }
}

fn line_of_row(row: &Row, selected: bool) -> (res: Line)
    ensures
        res@ == status_line(row@, selected),
{
    let label = pad(row.label, 21);
    let mut line = Line::of3(plain(" "), dot(row.level), plain(" "));
    line.push(styled(label.as_str(), row_style(selected, true)));
    line.push(coloured(row.value.as_str(), level_color(row.level)));
    assert(line@ =~= status_line(row@, selected));
    line
}

fn push_readout(panes: &mut Vec<Pane>, app: &App, i: &Inspection, columns: &Vec<Rect>)
    requires
        columns@.len() >= 2,
    ensures
        panes::pane_views(final(panes)@) == panes::pane_views(old(panes)@) + readout_panes(
            app@,
            i@,
            columns@,
        ),
{
    let ghost before = panes::pane_views(panes@);
    let ghost all = status_lines(i@.rows, app@.status_cursor);
    let mut list: Vec<Line> = Vec::new();
    let mut k: usize = 0;
    assert(theme::line_views(list@) =~= all.take(0));
    while k < i.rows.len()
        invariant
            k <= i.rows@.len(),
            all == status_lines(i@.rows, app@.status_cursor),
            theme::line_views(list@) == all.take(k as int),
        decreases i.rows@.len() - k,
    {
        assert(i@.rows[k as int] == i.rows@[k as int]@);
        push_line(&mut list, line_of_row(&i.rows[k], k == app.status_cursor));
        assert(theme::line_views(list@) =~= all.take(k + 1));
        k = k + 1;
    }
    assert(all.take(k as int) =~= all);
    push_pane(
        panes,
        list_pane(
            columns[0],
            DOES_TO_AUDIO,
            app.focus == Focus::Status,
            list,
            app.status_cursor,
        ),
    );
    let pane = if app.status_cursor < i.rows.len() {
        assert(i@.rows[app.status_cursor as int] == i.rows@[app.status_cursor as int]@);
        let row: &Row = &i.rows[app.status_cursor];
        detail(columns[1], row.label, row.note.as_str(), None)
    } else {
        detail(columns[1], "Details", "", None)
    };
    push_pane(panes, pane);
    assert(panes::pane_views(panes@) =~= before + readout_panes(app@, i@, columns@));
}

fn lines_of_absence(app: &App) -> (res: Vec<Line>)
    ensures
        theme::line_views(res@) == absence_lines(app@),
{
    let removed = match app.target() {
        Some(t) => match &t.kind {
            Kind::NoModule { removed, .. } => *removed,
            _ => false,
        },
        None => false,
    };
    let mut lines: Vec<Line> = Vec::new();
    if removed {
        push_line(&mut lines, Line::of(bold(NOT_HERE, BAD)));
        push_line(&mut lines, Line::blank());
        push_line(&mut lines, Line::of(plain(NOT_FETCHED_AGAIN)));
        push_line(&mut lines, Line::blank());
        push_line(&mut lines, Line::of(plain(WAY_OUT)));
    } else {
        push_line(&mut lines, Line::of(muted(NOT_YET)));
        push_line(&mut lines, Line::blank());
        push_line(&mut lines, Line::of(plain(ON_FIRST_LAUNCH)));
    }
    assert(theme::line_views(lines@) =~= absence_lines(app@));
    lines
}

fn push_readout_part(panes: &mut Vec<Pane>, app: &App, area: Rect, columns: &Vec<Rect>)
    requires
        app.inspection is Some ==> columns@.len() >= 2,
    ensures
        panes::pane_views(final(panes)@) == panes::pane_views(old(panes)@) + readout_part(
            app@,
            area,
            columns@,
        ),
{
    let ghost before = panes::pane_views(panes@);
    if let Some(i) = &app.inspection {
        push_readout(panes, app, i, columns);
        return;
    }
    if let Some(verb) = app.busy {
        let turning = cat3("  ", spinner(app), " ");
        let what = cat2(verb, "…");
        let mut lines: Vec<Line> = Vec::new();
        push_line(&mut lines, Line::of2(accent(turning.as_str()), plain(what.as_str())));
        assert(theme::line_views(lines@) =~= seq![
            seq![
                theme::coloured_span("  "@ + spinner_at(app@.tick) + " "@, ACCENT),
                theme::plain_span(verb@ + "…"@),
            ],
        ]);
        push_pane(panes, prose_pane(area, DOES_TO_AUDIO, false, lines, false));
    } else {
        push_pane(panes, prose_pane(area, DOES_TO_AUDIO, false, lines_of_absence(app), true));
    }
    assert(panes::pane_views(panes@) =~= before + readout_part(app@, area, columns@));
}

fn line_of_action(app: &App, index: usize, label: &str, hint: &str) -> (res: Line)
    requires
        index < app::ACTION_COUNT,
        label@ == app::actions()[index as int].0,
        hint@ == app::actions()[index as int].1,
    ensures
        res@ == action_line(app@, index as int),
{
    let enabled = app.action_enabled(index);
    let selected = index == app.action_cursor;
    let padded = pad(label, 26);
    Line::of3(
        cursor(selected, enabled),
        styled(padded.as_str(), row_style(selected, enabled)),
        if enabled {
            faint(hint)
        } else {
            faint("no module to patch")
        },
    )
}

/// The readout.
pub fn overview(app: &App, rows: &Vec<Rect>, columns: &Vec<Rect>) -> (res: Vec<Pane>)
    requires
        app.wf(),
        rows@.len() >= 3,
        app.inspection is Some ==> columns@.len() >= 2,
    ensures
        panes::pane_views(res@) == overview_screen(app@, rows@, columns@),
{
    let mut panes: Vec<Pane> = Vec::new();
    assert(panes::pane_views(panes@) =~= Seq::<PaneModel>::empty());
    push_summary(&mut panes, app, rows[0]);
    push_readout_part(&mut panes, app, rows[1], columns);
    let mut list: Vec<Line> = Vec::new();
    push_line(
        &mut list,
        line_of_action(app, 0, "Patch this module", "Choose what to change, then write it."),
    );
    push_line(
        &mut list,
        line_of_action(
            app,
            1,
            "Manage copies on disk",
            "Restore the original, or start fresh.",
        ),
    );
    push_line(
        &mut list,
        line_of_action(app, 2, "Back to the list", "Pick a different Discord install."),
    );
    assert(theme::line_views(list@) =~= action_lines(app@));
    push_pane(
        &mut panes,
        list_pane(
            rows[2],
            "What next",
            app.focus == Focus::Actions,
            list,
            app.action_cursor,
        ),
    );
    assert(panes::pane_views(panes@) =~= overview_screen(app@, rows@, columns@));
    panes
}

// ---------------------------------------------------------------------------
// Screen: choosing what to change
// ---------------------------------------------------------------------------

/// How much of a group the build is covered for, where that is known.
pub open spec fn group_coverage(a: AppModel, name: Seq<char>) -> (int, int) {
    match a.inspection {
        Some(i) => picker::coverage_of(i.report, name),
        None => (0, 0),
    }
}

/// One group.
pub open spec fn group_line(a: AppModel, index: int) -> Seq<SpanModel> {
    let group = groups::group_catalogue()[index];
    let selected = index == a.group_cursor;
    let checked = a.groups_on[index];
    let cov = group_coverage(a, group.name);
    let ratio = text::decimal(cov.0 as nat) + "/"@ + text::decimal(cov.1 as nat);
    seq![
        theme::cursor_span(selected, true),
        if checked {
            theme::coloured_span("[x] "@, GOOD)
        } else {
            theme::coloured_span("[ ] "@, FAINT)
        },
        SpanModel {
            text: text::padded(group.title, 28),
            style: if checked {
                theme::style_of_row(selected, true)
            } else {
                theme::in_colour(MUTED)
            },
        },
        if cov.1 == 0 {
            theme::coloured_span("—"@, FAINT)
        } else if cov.0 == cov.1 {
            theme::coloured_span(ratio, FAINT)
        } else {
            theme::coloured_span(ratio, WARN)
        },
    ]
}

pub open spec fn group_lines(a: AppModel) -> Seq<Seq<SpanModel>> {
    Seq::new(groups::GROUP_COUNT as nat, |i: int| group_line(a, i))
}

pub const NOT_IN_BUILD: &'static str = " changes are not in this build and will be skipped.";

/// What the group under the cursor does, and outright when some of it will be
/// skipped on this build.
pub open spec fn group_body(a: AppModel) -> Seq<char> {
    let group = groups::group_catalogue()[a.group_cursor];
    let cov = group_coverage(a, group.name);
    if cov.1 > 0 && cov.0 < cov.1 {
        group.summary + "\n\n"@ + text::decimal((cov.1 - cov.0) as nat) + " of this group's "@
            + text::decimal(cov.1 as nat) + NOT_IN_BUILD@
    } else {
        group.summary
    }
}

pub const OWN_MAXIMUM: &'static str =
    "Discord's own maximum is 96 kbps outside a boosted server.";

pub const SWITCH_ON: &'static str = "switch on \"High bitrate\" for this to do anything";

pub const FROM_MODULE: &'static str =
    " Starting from what this module already has, not from the defaults — press d for the recommended set.";

/// The group that locks the bitrate is on.
pub open spec fn wants_bitrate(on: Seq<bool>) -> bool {
    exists|k: int|
        0 <= k < groups::GROUP_COUNT && on[k] && (#[trigger] groups::group_catalogue()[k]).name
            == "bitrate"@
}

pub open spec fn bitrate_lines(a: AppModel) -> Seq<Seq<SpanModel>> {
    let wanted = wants_bitrate(a.groups_on);
    let tone = if wanted {
        ACCENT
    } else {
        FAINT
    };
    let first = seq![
        theme::plain_span(" "@),
        theme::coloured_span("◂ "@, tone),
        SpanModel {
            text: text::decimal(a.bitrate as nat) + " kbps"@,
            style: if wanted {
                theme::in_bold(ACCENT)
            } else {
                theme::in_colour(FAINT)
            },
        },
        theme::coloured_span(" ▸   "@, tone),
        if wanted {
            theme::coloured_span(OWN_MAXIMUM@, MUTED)
        } else {
            theme::coloured_span(SWITCH_ON@, FAINT)
        },
    ];
    if a.seeded_from_module {
        seq![first, seq![theme::coloured_span(FROM_MODULE@, FAINT)]]
    } else {
        seq![first]
    }
}

pub open spec fn patch_screen(a: AppModel, rows: Seq<Rect>, columns: Seq<Rect>) -> Seq<PaneModel> {
    let group = groups::group_catalogue()[a.group_cursor];
    seq![
        panes::listed(
            columns[0],
            "Choose what to change"@,
            true,
            group_lines(a),
            a.group_cursor,
        ),
        panes::details(columns[1], group.title, group_body(a), group.caveat),
        panes::prose(rows[1], "Bitrate"@, false, bitrate_lines(a), true),
    ]
}

fn known_coverage(app: &App, name: &str) -> (res: (usize, usize))
    requires
        app.wf(),
    ensures
        (res.0 as int, res.1 as int) == group_coverage(app@, name@),
        res.0 <= res.1,
{
    match &app.inspection {
        Some(i) => coverage(&i.report, name),
        None => (0, 0),
    }
}

fn line_of_group(app: &App, group: &Group, index: usize) -> (res: Line)
    requires
        app.wf(),
        index < groups::GROUP_COUNT,
        group@ == groups::group_catalogue()[index as int],
    ensures
        res@ == group_line(app@, index as int),
{
    let selected = index == app.group_cursor;
    let checked = app.groups_on[index];
    let (found, total) = known_coverage(app, group.name);
    let title = pad(group.title, 28);
    let mark = if checked {
        coloured("[x] ", GOOD)
    } else {
        faint("[ ] ")
    };
    let style = if checked {
        row_style(selected, true)
    } else {
        theme::colour_style(MUTED)
    };
    let ratio = cat3(to_decimal(found as u64).as_str(), "/", to_decimal(total as u64).as_str());
    let cov = if total == 0 {
        faint("—")
    } else if found == total {
        faint(ratio.as_str())
    } else {
        coloured(ratio.as_str(), WARN)
    };
    let mut line = Line::of3(cursor(selected, true), mark, styled(title.as_str(), style));
    line.push(cov);
    assert(line@ =~= group_line(app@, index as int));
    line
}

fn locks_bitrate(on: &Vec<bool>) -> (res: bool)
    requires
        on@.len() == groups::GROUP_COUNT,
    ensures
        res == wants_bitrate(on@),
{
    let list = groups::groups();
    let mut i: usize = 0;
    assert(groups::group_models(list@).len() == list@.len());
    while i < list.len()
        invariant
            i <= list@.len(),
            list@.len() == groups::GROUP_COUNT,
            on@.len() == groups::GROUP_COUNT,
            groups::group_models(list@) == groups::group_catalogue(),
            forall|k: int|
                0 <= k < i ==> !(on@[k] && (#[trigger] groups::group_catalogue()[k]).name
                    == "bitrate"@),
        decreases list@.len() - i,
    {
        let g: &'static Group = list[i];
        assert(groups::group_models(list@)[i as int] == g@);
        if on[i] && str_eq(g.name, "bitrate") {
            assert(groups::group_catalogue()[i as int].name == "bitrate"@);
            return true;
        }
        i = i + 1;
    }
    false
}

fn lines_of_bitrate(app: &App) -> (res: Vec<Line>)
    requires
        app.wf(),
    ensures
        theme::line_views(res@) == bitrate_lines(app@),
{
    let wanted = locks_bitrate(&app.groups_on);
    let tone: u8 = if wanted {
        ACCENT
    } else {
        FAINT
    };
    let value = cat2(to_decimal(app.bitrate as u64).as_str(), " kbps");
    let shown = if wanted {
        bold(value.as_str(), ACCENT)
    } else {
        faint(value.as_str())
    };
    let mut first = Line::of3(plain(" "), coloured("◂ ", tone), shown);
    first.push(coloured(" ▸   ", tone));
    first.push(
        if wanted {
            muted(OWN_MAXIMUM)
        } else {
            faint(SWITCH_ON)
        },
    );
    let mut lines: Vec<Line> = Vec::new();
    assert(first@ =~= bitrate_lines(app@)[0]);
    push_line(&mut lines, first);
    if app.seeded_from_module {
        push_line(&mut lines, Line::of(faint(FROM_MODULE)));
    }
    assert(theme::line_views(lines@) =~= bitrate_lines(app@));
    lines
}

/// Choosing what to change.
pub fn patch(app: &App, rows: &Vec<Rect>, columns: &Vec<Rect>) -> (res: Vec<Pane>)
    requires
        app.wf(),
        rows@.len() >= 2,
        columns@.len() >= 2,
    ensures
        panes::pane_views(res@) == patch_screen(app@, rows@, columns@),
{
    let list = groups::groups();
    let ghost all = group_lines(app@);
    let mut lines: Vec<Line> = Vec::new();
    let mut i: usize = 0;
    assert(groups::group_models(list@).len() == list@.len());
    assert(theme::line_views(lines@) =~= all.take(0));
    while i < list.len()
        invariant
            i <= list@.len(),
            list@.len() == groups::GROUP_COUNT,
            app.wf(),
            all == group_lines(app@),
            groups::group_models(list@) == groups::group_catalogue(),
            theme::line_views(lines@) == all.take(i as int),
        decreases list@.len() - i,
    {
        let g: &'static Group = list[i];
        assert(groups::group_models(list@)[i as int] == g@);
        push_line(&mut lines, line_of_group(app, g, i));
        assert(theme::line_views(lines@) =~= all.take(i + 1));
        i = i + 1;
    }
    assert(all.take(i as int) =~= all);
    let group: &'static Group = list[app.group_cursor];
    assert(groups::group_models(list@)[app.group_cursor as int] == group@);
    let (found, total) = known_coverage(app, group.name);
    let mut body = group.summary.to_owned();
    if total > 0 && found < total {
        body.append("\n\n");
        body.append(to_decimal((total - found) as u64).as_str());
        body.append(" of this group's ");
        body.append(to_decimal(total as u64).as_str());
        body.append(NOT_IN_BUILD);
    }
    let mut panes: Vec<Pane> = Vec::new();
    push_pane(
        &mut panes,
        list_pane(columns[0], "Choose what to change", true, lines, app.group_cursor),
    );
    push_pane(&mut panes, detail(columns[1], group.title, body.as_str(), group.caveat));
    push_pane(&mut panes, prose_pane(rows[1], "Bitrate", false, lines_of_bitrate(app), true));
    assert(panes::pane_views(panes@) =~= patch_screen(app@, rows@, columns@));
    panes
}

// ---------------------------------------------------------------------------
// Screen: managing what is on disk
// ---------------------------------------------------------------------------

/// One entry.
pub open spec fn item_line(item: ItemModel, selected: bool) -> Seq<SpanModel> {
    seq![
        theme::cursor_span(selected, item.enabled),
        SpanModel {
            text: text::padded(item.label, 32),
            style: if !item.enabled {
                theme::in_colour(FAINT)
            } else if item.danger {
                theme::in_colour(DANGER)
            } else {
                theme::style_of_row(selected, true)
            },
        },
        theme::coloured_span(item.hint, FAINT),
    ]
}

pub open spec fn item_lines(items: Seq<ItemModel>, cursor: int) -> Seq<Seq<SpanModel>> {
    Seq::new(items.len(), |i: int| item_line(items[i], i == cursor))
}

pub open spec fn manage_screen(a: AppModel, copies: CopiesModel, columns: Seq<Rect>) -> Seq<
    PaneModel,
> {
    let items = dialogs::items_for(app::target_of(a), copies);
    let item = items[a.manage_cursor];
    seq![
        panes::listed(
            columns[0],
            "Copies on disk"@,
            true,
            item_lines(items, a.manage_cursor),
            a.manage_cursor,
        ),
        panes::details(
            columns[1],
            item.label,
            item.detail,
            if item.enabled {
                None
            } else {
                Some("Not available for this install."@)
            },
        ),
    ]
}

fn line_of_item(item: &ManageItem, selected: bool) -> (res: Line)
    ensures
        res@ == item_line(item@, selected),
{
    let label = pad(item.label, 32);
    let style = if !item.enabled {
        theme::colour_style(FAINT)
    } else if item.danger {
        theme::colour_style(DANGER)
    } else {
        row_style(selected, true)
    };
    Line::of3(
        cursor(selected, item.enabled),
        styled(label.as_str(), style),
        faint(item.hint.as_str()),
    )
}

/// Managing what is on disk.
pub fn manage(app: &App, copies: &Copies, columns: &Vec<Rect>) -> (res: Vec<Pane>)
    requires
        app.wf(),
        columns@.len() >= 2,
    ensures
        panes::pane_views(res@) == manage_screen(app@, copies@, columns@),
{
    let list = app.manage_items(copies);
    let ghost items = dialogs::item_views(list@);
    let ghost all = item_lines(items, app@.manage_cursor);
    let mut lines: Vec<Line> = Vec::new();
    let mut i: usize = 0;
    assert(theme::line_views(lines@) =~= all.take(0));
    while i < list.len()
        invariant
            i <= list@.len(),
            items == dialogs::item_views(list@),
            all == item_lines(items, app@.manage_cursor),
            theme::line_views(lines@) == all.take(i as int),
        decreases list@.len() - i,
    {
        assert(items[i as int] == list@[i as int]@);
        push_line(&mut lines, line_of_item(&list[i], i == app.manage_cursor));
        assert(theme::line_views(lines@) =~= all.take(i + 1));
        i = i + 1;
    }
    assert(all.take(i as int) =~= all);
    assert(items[app.manage_cursor as int] == list@[app.manage_cursor as int]@);
    let item: &ManageItem = &list[app.manage_cursor];
    let caveat: Option<&str> = if item.enabled {
        None
    } else {
        Some("Not available for this install.")
    };
    let mut panes: Vec<Pane> = Vec::new();
    push_pane(
        &mut panes,
        list_pane(columns[0], "Copies on disk", true, lines, app.manage_cursor),
    );
    push_pane(&mut panes, detail(columns[1], item.label, item.detail, caveat));
    assert(panes::pane_views(panes@) =~= manage_screen(app@, copies@, columns@));
    panes
}

// ---------------------------------------------------------------------------
// Screen: what happened
// ---------------------------------------------------------------------------

/// One line of the log.
pub open spec fn log_line(entry: LogLineModel) -> Seq<SpanModel> {
    seq![
        theme::plain_span("  "@),
        theme::coloured_span(theme::glyph_of(entry.level), theme::colour_of(entry.level)),
        theme::plain_span(" "@),
        SpanModel {
            text: entry.text,
            style: match entry.level {
                Level::Bad => theme::in_colour(BAD),
                Level::Warn => theme::in_colour(WARN),
                _ => Style { fg: Colour::Reset, ..theme::unstyled() },
            },
        },
    ]
}

pub open spec fn result_screen(a: AppModel, area: Rect) -> Seq<PaneModel> {
    match a.log {
        Some(log) => seq![
            PaneModel {
                area,
                frame: Some(
                    PanelModel {
                        border: theme::in_colour(
                            if log.ok {
                                GOOD
                            } else {
                                BAD
                            },
                        ),
                        ..theme::frame(
                            if log.ok {
                                "✓ "@ + log.title
                            } else {
                                "✗ "@ + log.title
                            },
                            false,
                            true,
                        )
                    },
                ),
                body: BodyModel::Text {
                    lines: log.lines.map_values(|l: LogLineModel| log_line(l)),
                    wrap: true,
                    scroll: a.log_scroll,
                    centred: false,
                },
            },
        ],
        None => seq![],
    }
}

fn line_of_log(entry: &jobs::LogLine) -> (res: Line)
    ensures
        res@ == log_line(entry@),
{
    let style = match entry.level {
        Level::Bad => theme::colour_style(BAD),
        Level::Warn => theme::colour_style(WARN),
        _ => Style { fg: Colour::Reset, bg: Colour::Unset, bold: false },
    };
    let mut line = Line::of3(plain("  "), dot(entry.level), plain(" "));
    line.push(styled(entry.text.as_str(), style));
    assert(line@ =~= log_line(entry@));
    line
}

/// What happened.
pub fn result(app: &App, area: Rect) -> (res: Vec<Pane>)
    ensures
        panes::pane_views(res@) == result_screen(app@, area),
{
    let mut panes: Vec<Pane> = Vec::new();
    assert(panes::pane_views(panes@) =~= Seq::<PaneModel>::empty());
    if let Some(log) = &app.log {
        let ghost all = log@.lines.map_values(|l: LogLineModel| log_line(l));
        let mut lines: Vec<Line> = Vec::new();
        let mut i: usize = 0;
        assert(theme::line_views(lines@) =~= all.take(0));
        while i < log.lines.len()
            invariant
                i <= log.lines@.len(),
                all == log@.lines.map_values(|l: LogLineModel| log_line(l)),
                theme::line_views(lines@) == all.take(i as int),
            decreases log.lines@.len() - i,
        {
            assert(log@.lines[i as int] == log.lines@[i as int]@);
            push_line(&mut lines, line_of_log(&log.lines[i]));
            assert(theme::line_views(lines@) =~= all.take(i + 1));
            i = i + 1;
        }
        assert(all.take(i as int) =~= all);
        let title = if log.ok {
            cat2("✓ ", log.title.as_str())
        } else {
            cat2("✗ ", log.title.as_str())
        };
        let made = text_panel(title.as_str(), false);
        let border = theme::colour_style(
            if log.ok {
                GOOD
            } else {
                BAD
            },
        );
        push_pane(
            &mut panes,
            Pane {
                area,
                frame: Some(
                    Panel {
                        title: made.title,
                        title_style: made.title_style,
                        border,
                        inset: made.inset,
                    },
                ),
                body: Body::Text { lines, wrap: true, scroll: app.log_scroll, centred: false },
            },
        );
        assert(panes::pane_views(panes@) =~= result_screen(app@, area));
    }
    panes
}

} // verus!

//! One place for every colour and glyph, so the screens stay consistent.
//!
//! The palette is 256-colour rather than truecolour: the muted shades survive
//! terminals that remap the sixteen named colours to a theme, and nothing here
//! needs a precision that 256 entries cannot give. Red and green carry real
//! meaning in this tool — red is "Discord is still degrading your audio" — so
//! they are picked to stay legible rather than to be loud.

use crate::status::readout::Level;
use crate::text;
use crate::text::{cat3, cat4, to_decimal, wide_decimal};
use vstd::prelude::*;

verus! {

// ---------------------------------------------------------------------------
// Colours and styles
// ---------------------------------------------------------------------------

/// Steel blue.
pub const ACCENT: u8 = 74;

/// Sage green.
pub const GOOD: u8 = 114;

/// Clay red.
pub const BAD: u8 = 210;

/// Amber.
pub const WARN: u8 = 179;

pub const MUTED: u8 = 245;

pub const FAINT: u8 = 240;

pub const DANGER: u8 = 203;

/// Behind the row that the cursor is on.
pub const HIGHLIGHT: u8 = 236;

#[derive(PartialEq, Eq, Clone, Copy, Structural)]
pub enum Colour {
    /// Whatever is there already.
    Unset,
    /// The terminal's own.
    Reset,
    Black,
    Indexed(u8),
}

#[derive(PartialEq, Eq, Clone, Copy, Structural)]
pub struct Style {
    pub fg: Colour,
    pub bg: Colour,
    pub bold: bool,
}

pub open spec fn unstyled() -> Style {
    Style { fg: Colour::Unset, bg: Colour::Unset, bold: false }
}

pub open spec fn in_colour(index: u8) -> Style {
    Style { fg: Colour::Indexed(index), ..unstyled() }
}

pub open spec fn in_bold(index: u8) -> Style {
    Style { fg: Colour::Indexed(index), bg: Colour::Unset, bold: true }
}

/// No style at all.
pub fn no_style() -> (res: Style)
    ensures
        res == unstyled(),
{
    Style { fg: Colour::Unset, bg: Colour::Unset, bold: false }
}

/// Text in a colour of the palette.
pub fn colour_style(index: u8) -> (res: Style)
    ensures
        res == in_colour(index),
{
    Style { fg: Colour::Indexed(index), bg: Colour::Unset, bold: false }
}

/// Bold text in a colour of the palette.
pub fn bold_style(index: u8) -> (res: Style)
    ensures
        res == in_bold(index),
{
    Style { fg: Colour::Indexed(index), bg: Colour::Unset, bold: true }
}

pub open spec fn colour_of(level: Level) -> u8 {
    match level {
        Level::Good => GOOD,
        Level::Warn => WARN,
        Level::Bad => BAD,
        Level::Neutral => MUTED,
        Level::Unknown => FAINT,
    }
}

pub fn level_color(level: Level) -> (res: u8)
    ensures
        res == colour_of(level),
{
    match level {
        Level::Good => GOOD,
        Level::Warn => WARN,
        Level::Bad => BAD,
        Level::Neutral => MUTED,
        Level::Unknown => FAINT,
    }
}

pub open spec fn glyph_of(level: Level) -> Seq<char> {
    match level {
        Level::Good => "●"@,
        Level::Warn => "◐"@,
        Level::Bad => "●"@,
        Level::Neutral => "○"@,
        Level::Unknown => "·"@,
    }
}

/// A filled dot for anything decided, a hollow one for anything not. The shape
/// carries the same information as the colour, which matters on a terminal
/// that has been themed into uselessness — or to a colour-blind reader.
pub fn level_glyph(level: Level) -> (res: &'static str)
    ensures
        res@ == glyph_of(level),
{
    match level {
        Level::Good => "●",
        Level::Warn => "◐",
        Level::Bad => "●",
        Level::Neutral => "○",
        Level::Unknown => "·",
    }
}

// ---------------------------------------------------------------------------
// Styled text
// ---------------------------------------------------------------------------

/// A run of text in one style.
pub struct Span {
    pub text: String,
    pub style: Style,
}

#[verifier::ext_equal]
pub struct SpanModel {
    pub text: Seq<char>,
    pub style: Style,
}

impl View for Span {
    type V = SpanModel;

    open spec fn view(&self) -> SpanModel {
        SpanModel { text: self.text@, style: self.style }
    }
}

/// A line of styled text.
pub struct Line {
    pub spans: Vec<Span>,
}

pub open spec fn span_views(spans: Seq<Span>) -> Seq<SpanModel> {
    Seq::new(spans.len(), |i: int| spans[i]@)
}

impl View for Line {
    type V = Seq<SpanModel>;

    open spec fn view(&self) -> Seq<SpanModel> {
        span_views(self.spans@)
    }
}

pub open spec fn line_views(lines: Seq<Line>) -> Seq<Seq<SpanModel>> {
    Seq::new(lines.len(), |i: int| lines[i]@)
}

impl Line {
    /// A line with nothing on it.
    pub fn new() -> (res: Line)
        ensures
            res@ == Seq::<SpanModel>::empty(),
    {
        let res = Line { spans: Vec::new() };
        assert(res@ =~= Seq::<SpanModel>::empty());
        res
    }

    /// Continue the line.
    pub fn push(&mut self, span: Span)
        ensures
            final(self)@ == old(self)@.push(span@),
    {
        let ghost before = self@;
        self.spans.push(span);
        assert(self@ =~= before.push(span@));
    }

    /// Continue the line with all of another.
    pub fn append(&mut self, more: Line)
        ensures
            final(self)@ == old(self)@ + more@,
    {
        let ghost before = self@;
        let ghost given = more.spans@;
        let mut more = more;
        self.spans.append(&mut more.spans);
        assert(self@ =~= before + span_views(given));
    }

    /// A line of one run.
    pub fn of(span: Span) -> (res: Line)
        ensures
            res@ == seq![span@],
    {
        let mut line = Line::new();
        line.push(span);
        assert(line@ =~= seq![span@]);
        line
    }

    /// A line of two runs.
    pub fn of2(a: Span, b: Span) -> (res: Line)
        ensures
            res@ == seq![a@, b@],
    {
        let mut line = Line::of(a);
        line.push(b);
        assert(line@ =~= seq![a@, b@]);
        line
    }

    /// A line of three runs.
    pub fn of3(a: Span, b: Span, c: Span) -> (res: Line)
        ensures
            res@ == seq![a@, b@, c@],
    {
        let mut line = Line::of2(a, b);
        line.push(c);
        assert(line@ =~= seq![a@, b@, c@]);
        line
    }

    /// A line with nothing but an empty run on it.
    pub fn blank() -> (res: Line)
        ensures
            res@ == blank_line(),
    {
        Line::of(plain(""))
    }
}

/// Add a line to a text.
pub fn push_line(lines: &mut Vec<Line>, line: Line)
    ensures
        line_views(final(lines)@) == line_views(old(lines)@).push(line@),
{
    let ghost before = line_views(lines@);
    lines.push(line);
    assert(line_views(lines@) =~= before.push(line@));
}

pub open spec fn blank_line() -> Seq<SpanModel> {
    seq![plain_span(""@)]
}

pub open spec fn plain_span(s: Seq<char>) -> SpanModel {
    SpanModel { text: s, style: unstyled() }
}

pub open spec fn coloured_span(s: Seq<char>, index: u8) -> SpanModel {
    SpanModel { text: s, style: in_colour(index) }
}

pub open spec fn bold_span(s: Seq<char>, index: u8) -> SpanModel {
    SpanModel { text: s, style: in_bold(index) }
}

pub fn styled(s: &str, style: Style) -> (res: Span)
    ensures
        res@ == (SpanModel { text: s@, style }),
{
    Span { text: s.to_owned(), style }
}

pub fn dot(level: Level) -> (res: Span)
    ensures
        res@ == coloured_span(glyph_of(level), colour_of(level)),
{
    styled(level_glyph(level), colour_style(level_color(level)))
}

pub fn muted(s: &str) -> (res: Span)
    ensures
        res@ == coloured_span(s@, MUTED),
{
    styled(s, colour_style(MUTED))
}

pub fn faint(s: &str) -> (res: Span)
    ensures
        res@ == coloured_span(s@, FAINT),
{
    styled(s, colour_style(FAINT))
}

pub fn plain(s: &str) -> (res: Span)
    ensures
        res@ == plain_span(s@),
{
    styled(s, no_style())
}

pub fn accent(s: &str) -> (res: Span)
    ensures
        res@ == coloured_span(s@, ACCENT),
{
    styled(s, colour_style(ACCENT))
}

pub fn coloured(s: &str, colour: u8) -> (res: Span)
    ensures
        res@ == coloured_span(s@, colour),
{
    styled(s, colour_style(colour))
}

pub fn bold(s: &str, colour: u8) -> (res: Span)
    ensures
        res@ == bold_span(s@, colour),
{
    styled(s, bold_style(colour))
}

/// A key and what it does.
pub open spec fn hint(key: Seq<char>, what: Seq<char>) -> Seq<SpanModel> {
    seq![bold_span(key, ACCENT), coloured_span(" "@ + what + "  "@, MUTED)]
}

/// A key in the footer, and what it does.
pub fn key_hint(key: &str, what: &str) -> (res: Line)
    ensures
        res@ == hint(key@, what@),
{
    let said = cat3(" ", what, "  ");
    Line::of2(bold(key, ACCENT), muted(said.as_str()))
}

// ---------------------------------------------------------------------------
// Frames
// ---------------------------------------------------------------------------

/// A titled frame.
pub struct Panel {
    pub title: String,
    pub title_style: Style,
    pub border: Style,
    /// Whether the text is set one column away from the border.
    pub inset: bool,
}

#[verifier::ext_equal]
pub struct PanelModel {
    pub title: Seq<char>,
    pub title_style: Style,
    pub border: Style,
    pub inset: bool,
}

impl View for Panel {
    type V = PanelModel;

    open spec fn view(&self) -> PanelModel {
        PanelModel {
            title: self.title@,
            title_style: self.title_style,
            border: self.border,
            inset: self.inset,
        }
    }
}

pub open spec fn frame(title: Seq<char>, focused: bool, inset: bool) -> PanelModel {
    PanelModel {
        title: " "@ + title + " "@,
        title_style: if focused {
            in_bold(ACCENT)
        } else {
            in_colour(MUTED)
        },
        border: if focused {
            in_colour(ACCENT)
        } else {
            in_colour(FAINT)
        },
        inset,
    }
}

/// A titled frame. `focused` brightens the border, which is the only cue that
/// says which pane the arrow keys are talking to.
pub fn panel(title: &str, focused: bool) -> (res: Panel)
    ensures
        res@ == frame(title@, focused, false),
{
    let (title_style, border) = if focused {
        (bold_style(ACCENT), colour_style(ACCENT))
    } else {
        (colour_style(MUTED), colour_style(FAINT))
    };
    Panel { title: cat3(" ", title, " "), title_style, border, inset: false }
}

/// A frame for prose rather than for a list. Lists draw their own leading
/// column, so only this variant insets the text away from the border.
pub fn text_panel(title: &str, focused: bool) -> (res: Panel)
    ensures
        res@ == frame(title@, focused, true),
{
    let made = panel(title, focused);
    Panel { title: made.title, title_style: made.title_style, border: made.border, inset: true }
}

// ---------------------------------------------------------------------------
// List rows
// ---------------------------------------------------------------------------

pub open spec fn cursor_span(selected: bool, enabled: bool) -> SpanModel {
    if selected && enabled {
        bold_span(" ▸ "@, ACCENT)
    } else if selected {
        coloured_span(" ▸ "@, FAINT)
    } else {
        plain_span("   "@)
    }
}

/// The cursor column in every list: an arrow for the current row, blank
/// otherwise, always the same width so nothing shifts as it moves.
pub fn cursor(selected: bool, enabled: bool) -> (res: Span)
    ensures
        res@ == cursor_span(selected, enabled),
{
    if selected && enabled {
        bold(" ▸ ", ACCENT)
    } else if selected {
        faint(" ▸ ")
    } else {
        plain("   ")
    }
}

pub open spec fn style_of_row(selected: bool, enabled: bool) -> Style {
    if !enabled {
        in_colour(FAINT)
    } else {
        Style { bold: selected, ..unstyled() }
    }
}

/// Style for a row's text, given whether it is the cursor row and whether it
/// can be chosen at all.
pub fn row_style(selected: bool, enabled: bool) -> (res: Style)
    ensures
        res == style_of_row(selected, enabled),
{
    if !enabled {
        colour_style(FAINT)
    } else {
        Style { fg: Colour::Unset, bg: Colour::Unset, bold: selected }
    }
}

/// The cursor column is as wide on every row.
pub proof fn law_the_cursor_column_never_shifts(
    selected: bool,
    enabled: bool,
    other_selected: bool,
    other_enabled: bool,
)
    ensures
        cursor_span(selected, enabled).text.len() == cursor_span(
            other_selected,
            other_enabled,
        ).text.len(),
{
    reveal_strlit(" ▸ ");
    reveal_strlit("   ");
}

/// Pad `s` to `width` display columns. Everything drawn is either ASCII or one of
/// a handful of single-width symbols, so counting characters is right.
pub fn pad(s: &str, width: usize) -> (res: String)
    ensures
        res@ == text::padded(s@, width as int),
{
    text::pad(s, width)
}

// ---------------------------------------------------------------------------
// Sizes
// ---------------------------------------------------------------------------

/// `n / d`, rounded to the nearest whole number, and to an even one from halfway.
pub open spec fn nearest(n: int, d: int) -> int {
    let q = n / d;
    let r = n % d;
    if 2 * r > d || (2 * r == d && q % 2 == 1) {
        q + 1
    } else {
        q
    }
}

/// The distance between neighbouring doubles at `n`.
pub open spec fn double_step(n: int) -> int
    decreases n,
{
    if n < 0x20_0000_0000_0000 {
        1
    } else {
        2 * double_step(n / 2)
    }
}

/// The double nearest to `n`.
pub open spec fn as_double(n: int) -> int {
    double_step(n) * nearest(n, double_step(n))
}

/// A number of bytes in tenths of a megabyte, rounded.
pub open spec fn tenths(n: int) -> int {
    nearest(10 * as_double(n), 0x10_0000)
}

/// A byte count as it is shown.
pub open spec fn size_text(n: int) -> Seq<char> {
    if n >= 0x10_0000 {
        text::decimal((tenths(n) / 10) as nat) + "."@ + text::decimal((tenths(n) % 10) as nat)
            + " MB"@
    } else {
        text::decimal(n as nat) + " B"@
    }
}

proof fn lemma_double_step(n: int)
    ensures
        double_step(n) == 1 || double_step(n) * 0x10_0000_0000_0000 <= n,
        double_step(n) >= 1,
    decreases n,
{
    if n >= 0x20_0000_0000_0000 {
        lemma_double_step(n / 2);
    }
}

fn step_at(n: u128) -> (res: u128)
    requires
        n <= u64::MAX,
    ensures
        res == double_step(n as int),
        1 <= res <= 0x1000,
    decreases n,
{
    proof {
        lemma_double_step(n as int);
    }
    if n < 0x20_0000_0000_0000 {
        1
    } else {
        2 * step_at(n / 2)
    }
}

fn rounded(n: u128, d: u128) -> (res: u128)
    requires
        1 <= d <= 0x10_0000,
        n < 0x1_0000_0000_0000_0000_0000_0000,
    ensures
        res == nearest(n as int, d as int),
        res <= n + 1,
{
    let q: u128 = n / d;
    let r: u128 = n % d;
    assert(q <= n) by (nonlinear_arith)
        requires
            q == n / d,
            d >= 1,
            n >= 0,
    ;
    if 2 * r > d || (2 * r == d && q % 2 == 1) {
        q + 1
    } else {
        q
    }
}

/// Human-readable byte count, for module and backup sizes.
pub fn bytes(n: u64) -> (res: String)
    ensures
        res@ == size_text(n as int),
{
    if n >= 0x10_0000 {
        let step: u128 = step_at(n as u128);
        let near: u128 = rounded(n as u128, step);
        assert(step * near <= 0x1000 * 0x1_0000_0000_0000_0000) by (nonlinear_arith)
            requires
                step <= 0x1000,
                near <= 0x1_0000_0000_0000_0000,
        ;
        let whole: u128 = step * near;
        let t: u128 = rounded(10 * whole, 0x10_0000);
        cat4(
            wide_decimal(t / 10).as_str(),
            ".",
            wide_decimal(t % 10).as_str(),
            " MB",
        )
    } else {
        text::cat2(to_decimal(n).as_str(), " B")
    }
}

/// A size below a megabyte is exact, and a larger one is off by no more than
/// half a tenth of a megabyte, as long as a double holds the size exactly.
pub proof fn law_sizes_are_rounded_to_a_tenth(n: int)
    requires
        0x10_0000 <= n < 0x20_0000_0000_0000,
    ensures
        -0x10_0000 <= 2 * (tenths(n) * 0x10_0000 - 10 * n) <= 0x10_0000,
{
    assert(double_step(n) == 1);
    assert(nearest(n, 1) == n);
    assert(as_double(n) == n);
}

} // verus!

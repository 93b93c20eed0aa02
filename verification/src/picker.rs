//! The group picker: a list of checkboxes drawn with escape sequences.
//!
//! [`screen`] is the whole picture as one string and [`Picker::press`] is what a
//! key does to it; reading the keys and setting the terminal up is the caller's
//! part.

pub mod laws;

use crate::console;
use crate::console::members;
use crate::resolve;
use crate::resolve::{OutcomeModel, Report};
use crate::sites;
use crate::sites::groups;
use crate::sites::groups::{Group, GroupModel};
use crate::sites::Site;
use crate::text;
use crate::text::{
    cat2, cat3, cat4, cat5, chars_of, push_text, repeat_char, str_eq, to_decimal, wrap_plain,
};
use vstd::prelude::*;

verus! {

/// What the user chose, or that they backed out.
pub enum Choice {
    Apply(Vec<String>),
    Cancel,
}

#[verifier::ext_equal]
pub enum ChoiceModel {
    Apply(Seq<Seq<char>>),
    Cancel,
}

impl View for Choice {
    type V = ChoiceModel;

    open spec fn view(&self) -> ChoiceModel {
        match *self {
            Choice::Apply(names) => ChoiceModel::Apply(text::views(names@)),
            Choice::Cancel => ChoiceModel::Cancel,
        }
    }
}

// ---------------------------------------------------------------------------
// Coverage
// ---------------------------------------------------------------------------

/// A site that was found, or that the build does not need.
pub open spec fn is_covered(report: Seq<(Seq<char>, OutcomeModel)>, name: Seq<char>) -> bool {
    resolve::found(report, name) is Some || resolve::excuse_for(report, name) is Some
}

/// How many of the group's sites, among the first `n` of the catalogue, the
/// build is covered for.
pub open spec fn covered_below(
    report: Seq<(Seq<char>, OutcomeModel)>,
    group: Seq<char>,
    n: int,
) -> int
    decreases n,
{
    if n <= 0 {
        0
    } else {
        let site = sites::catalogue()[n - 1];
        covered_below(report, group, n - 1) + if site.group == group && is_covered(
            report,
            site.name,
        ) {
            1int
        } else {
            0
        }
    }
}

/// How many of the group's sites the build is covered for, and how many there
/// are.
pub open spec fn coverage_of(report: Seq<(Seq<char>, OutcomeModel)>, group: Seq<char>) -> (
    int,
    int,
) {
    let n = sites::catalogue().len() as int;
    (covered_below(report, group, n), console::members_below(group, n))
}

/// How many of a group's sites this build is actually covered for.
///
/// A site the build does not need counts as covered, the same way `scan` prints
/// it as `n/a` rather than as a gap — otherwise every build would look short by
/// however many surround-codec and inlined-filter sites it happens not to have.
pub fn coverage(report: &Report, group: &str) -> (res: (usize, usize))
    requires
        report.wf(),
    ensures
        (res.0 as int, res.1 as int) == coverage_of(report@, group@),
        res.0 <= res.1 <= sites::SITE_COUNT,
{
    let list = sites::sites();
    let ghost cat = sites::catalogue();
    let total: usize = members(group);
    let mut found: usize = 0;
    let mut i: usize = 0;
    assert(sites::models(list@).len() == cat.len());
    while i < list.len()
        invariant
            i <= list@.len(),
            list@.len() == sites::SITE_COUNT,
            report.wf(),
            found <= i,
            cat == sites::catalogue(),
            cat.len() == list@.len(),
            sites::models(list@) == cat,
            found == covered_below(report@, group@, i as int),
        decreases list@.len() - i,
    {
        let site: &'static Site = list[i];
        assert(cat[i as int] == sites::models(list@)[i as int]);
        if str_eq(site.group, group) {
            if report.covered(site.name) {
                found = found + 1;
            }
        }
        i = i + 1;
    }
    proof {
        lemma_coverage_bounds(report@, group@, cat.len() as int);
    }
    (found, total)
}

proof fn lemma_coverage_bounds(
    report: Seq<(Seq<char>, OutcomeModel)>,
    group: Seq<char>,
    n: int,
)
    ensures
        0 <= covered_below(report, group, n) <= console::members_below(group, n),
    decreases n,
{
    if n > 0 {
        lemma_coverage_bounds(report, group, n - 1);
    }
}

/// A group is never covered for more sites than it has.
pub proof fn law_coverage_is_at_most_whole(
    report: Seq<(Seq<char>, OutcomeModel)>,
    group: Seq<char>,
)
    ensures
        0 <= coverage_of(report, group).0 <= coverage_of(report, group).1,
{
    lemma_coverage_bounds(report, group, sites::catalogue().len() as int);
}

// ---------------------------------------------------------------------------
// Measuring and wrapping
// ---------------------------------------------------------------------------

pub open spec fn is_ascii_letter(c: char) -> bool {
    'a' <= c <= 'z' || 'A' <= c <= 'Z'
}

/// How many characters of `s` show, where an escape sequence runs from the
/// escape character to the next letter. `inside` tells whether `s` starts within
/// such a sequence.
pub open spec fn shown_from(s: Seq<char>, inside: bool) -> nat
    decreases s.len(),
{
    if s.len() == 0 {
        0
    } else if inside {
        shown_from(s.drop_first(), !is_ascii_letter(s[0]))
    } else if s[0] == '\x1b' {
        shown_from(s.drop_first(), true)
    } else {
        1 + shown_from(s.drop_first(), false)
    }
}

/// Visible width of `s`, i.e. ignoring ANSI escape sequences. Only used for
/// column padding, so it assumes the well-formed `ESC [ ... letter` sequences
/// this module emits rather than trying to be a general parser.
pub fn visible_width(s: &str) -> (res: usize)
    ensures
        res == shown_from(s@, false),
{
    let chars = chars_of(s);
    let mut n: usize = 0;
    let mut inside = false;
    let mut i: usize = 0;
    assert(s@.skip(0) =~= s@);
    while i < chars.len()
        invariant
            i <= chars@.len(),
            chars@ == s@,
            n <= i,
            n + shown_from(s@.skip(i as int), inside) == shown_from(s@, false),
        decreases chars@.len() - i,
    {
        let c = chars[i];
        assert(s@.skip(i as int).drop_first() =~= s@.skip(i + 1));
        assert(s@.skip(i as int)[0] == c);
        if inside {
            if ('a' <= c && c <= 'z') || ('A' <= c && c <= 'Z') {
                inside = false;
            }
        } else if c == '\x1b' {
            inside = true;
        } else {
            n = n + 1;
        }
        i = i + 1;
    }
    n
}

/// A text wrapped to `width` columns, every line behind `indent` spaces.
pub open spec fn indented(s: Seq<char>, width: int, indent: int) -> Seq<Seq<char>> {
    text::wrapped(s, width).map_values(|l: Seq<char>| text::repeated(' ', indent) + l)
}

/// Break `text` into lines of at most `width` columns, indenting every line by
/// `indent` spaces. Whitespace-only wrapping; the summaries are plain prose so
/// there is nothing cleverer to do.
pub fn wrap(s: &str, width: usize, indent: usize) -> (res: Vec<String>)
    ensures
        text::views(res@) == indented(s@, width as int, indent as int),
{
    let pad = repeat_char(' ', indent);
    let lines = wrap_plain(s, width);
    let ghost all = indented(s@, width as int, indent as int);
    let mut out: Vec<String> = Vec::new();
    let mut i: usize = 0;
    assert(text::views(lines@).len() == lines@.len());
    assert(text::views(out@) =~= all.take(0));
    while i < lines.len()
        invariant
            i <= lines@.len(),
            pad@ == text::repeated(' ', indent as int),
            text::views(lines@) == text::wrapped(s@, width as int),
            all == indented(s@, width as int, indent as int),
            all.len() == lines@.len(),
            text::views(out@) == all.take(i as int),
        decreases lines@.len() - i,
    {
        assert(text::views(lines@)[i as int] == lines@[i as int]@);
        let line = cat2(pad.as_str(), lines[i].as_str());
        assert(all[i as int] == line@);
        assert(all.take(i + 1) =~= all.take(i as int).push(line@));
        push_text(&mut out, line);
        i = i + 1;
    }
    assert(all.take(i as int) =~= all);
    out
}

/// Every line starts with the indent, and what follows it is at most `width`
/// columns long, unless it is a single word.
pub proof fn law_wrapped_text_is_indented_and_fits(s: Seq<char>, width: int, indent: int, k: int)
    requires
        0 <= k < indented(s, width, indent).len(),
        0 <= indent,
    ensures
        ({
            let line = indented(s, width, indent)[k];
            let rest = line.skip(indent);
            &&& text::begins(line, text::repeated(' ', indent))
            &&& rest.len() <= width || text::words(s).contains(rest)
        }),
{
    let line = indented(s, width, indent)[k];
    let l = text::wrapped(s, width)[k];
    assert(line == text::repeated(' ', indent) + l);
    assert(line.take(indent) =~= text::repeated(' ', indent));
    assert(line.skip(indent) =~= l);
    text::law_wrapped_lines_fit(text::words(s), width, k);
}

// ---------------------------------------------------------------------------
// The picture
// ---------------------------------------------------------------------------

pub const DIM: &'static str = "\x1b[2m";

pub const BOLD: &'static str = "\x1b[1m";

pub const GREEN: &'static str = "\x1b[32m";

pub const YELLOW: &'static str = "\x1b[33m";

pub const RESET: &'static str = "\x1b[0m";

pub const CLEAR: &'static str = "\x1b[2J\x1b[H";

pub const BREAK: &'static str = "\r\n";

pub const PROMISE: &'static str =
    " kbps. Everything below is applied to a copy; the original is backed up first.";

pub const KEYS: &'static str =
    "↑/↓ move   space toggle   a all   n none   d defaults   enter apply   q cancel";

pub const SKIPPED: &'static str =
    " changes could not be found in this build and will be skipped.";

pub open spec fn styled(style: Seq<char>, s: Seq<char>) -> Seq<char> {
    style + s + RESET@
}

fn in_style(style: &str, s: &str) -> (res: String)
    ensures
        res@ == styled(style@, s@),
{
    cat3(style, s, RESET)
}

pub open spec fn heading(label: Seq<char>, bitrate: int) -> Seq<char> {
    CLEAR@ + styled(BOLD@, "stereocord"@) + " — choose what to change in "@ + label + BREAK@
        + styled(DIM@, "Bitrate "@ + text::decimal(bitrate as nat) + PROMISE@) + BREAK@ + BREAK@
}

/// One row of the list.
pub open spec fn row(g: GroupModel, selected: bool, on: bool, cov: (int, int)) -> Seq<char> {
    let title = if selected {
        styled(BOLD@, g.title)
    } else if on {
        g.title
    } else {
        styled(DIM@, g.title)
    };
    let ratio = text::decimal(cov.0 as nat) + "/"@ + text::decimal(cov.1 as nat);
    (if selected {
        "›"@
    } else {
        " "@
    }) + " "@ + (if on {
        styled(GREEN@, "[x]"@)
    } else {
        styled(DIM@, "[ ]"@)
    }) + " "@ + title + text::repeated(' ', 32 - shown_from(title, false)) + " "@ + (if cov.0
        == cov.1 {
        styled(DIM@, ratio)
    } else {
        styled(YELLOW@, ratio)
    }) + BREAK@
}

/// The first `n` rows of the list.
pub open spec fn rows_below(
    report: Seq<(Seq<char>, OutcomeModel)>,
    on: Seq<bool>,
    cursor: int,
    n: int,
) -> Seq<char>
    decreases n,
{
    if n <= 0 {
        seq![]
    } else {
        let g = groups::group_catalogue()[n - 1];
        rows_below(report, on, cursor, n - 1) + row(
            g,
            n - 1 == cursor,
            on[n - 1],
            coverage_of(report, g.name),
        )
    }
}

/// The first `n` lines, each ended.
pub open spec fn plain_lines(lines: Seq<Seq<char>>, n: int) -> Seq<char>
    decreases n,
{
    if n <= 0 {
        seq![]
    } else {
        plain_lines(lines, n - 1) + lines[n - 1] + BREAK@
    }
}

/// The first `n` lines in yellow, each ended.
pub open spec fn yellow_lines(lines: Seq<Seq<char>>, n: int) -> Seq<char>
    decreases n,
{
    if n <= 0 {
        seq![]
    } else {
        yellow_lines(lines, n - 1) + styled(YELLOW@, lines[n - 1]) + BREAK@
    }
}

/// A paragraph below the list.
pub open spec fn paragraph(s: Seq<char>) -> Seq<char> {
    let lines = indented(s, 72, 4);
    plain_lines(lines, lines.len() as int)
}

/// A paragraph below the list that is a warning.
pub open spec fn warning(s: Seq<char>) -> Seq<char> {
    let lines = indented(s, 72, 4);
    BREAK@ + yellow_lines(lines, lines.len() as int)
}

/// What is said of a group that the build is not fully covered for.
pub open spec fn shortfall(cov: (int, int)) -> Seq<char> {
    text::decimal((cov.1 - cov.0) as nat) + " of this group's "@ + text::decimal(cov.1 as nat)
        + SKIPPED@
}

/// What is said of the group under the cursor.
pub open spec fn details(g: GroupModel, cov: (int, int)) -> Seq<char> {
    BREAK@ + paragraph(g.summary) + (match g.caveat {
        Some(c) => warning(c),
        None => seq![],
    }) + (if cov.0 < cov.1 {
        warning(shortfall(cov))
    } else {
        seq![]
    })
}

/// The whole picture.
pub open spec fn picture(
    label: Seq<char>,
    on: Seq<bool>,
    cursor: int,
    report: Seq<(Seq<char>, OutcomeModel)>,
    bitrate: int,
) -> Seq<char> {
    let g = groups::group_catalogue()[cursor];
    heading(label, bitrate) + rows_below(report, on, cursor, groups::GROUP_COUNT as int) + details(
        g,
        coverage_of(report, g.name),
    ) + BREAK@ + styled(DIM@, KEYS@) + BREAK@
}

fn heading_text(label: &str, bitrate: u32) -> (res: String)
    ensures
        res@ == heading(label@, bitrate as int),
{
    let name = in_style(BOLD, "stereocord");
    let first = cat5(CLEAR, name.as_str(), " — choose what to change in ", label, BREAK);
    let promise = cat3("Bitrate ", to_decimal(bitrate as u64).as_str(), PROMISE);
    let second = in_style(DIM, promise.as_str());
    let res = cat4(first.as_str(), second.as_str(), BREAK, BREAK);
    assert(res@ =~= heading(label@, bitrate as int));
    res
}

fn row_text(g: &Group, selected: bool, on: bool, found: usize, total: usize) -> (res: String)
    ensures
        res@ == row(g@, selected, on, (found as int, total as int)),
{
    let marker = if selected {
        "›"
    } else {
        " "
    };
    let mark = if on {
        in_style(GREEN, "[x]")
    } else {
        in_style(DIM, "[ ]")
    };
    let title = if selected {
        in_style(BOLD, g.title)
    } else if on {
        g.title.to_owned()
    } else {
        in_style(DIM, g.title)
    };
    let width: usize = visible_width(title.as_str());
    let missing: usize = if width < 32 {
        32 - width
    } else {
        0
    };
    // Padded by visible width: the escape sequences take no room.
    let pad = repeat_char(' ', missing);
    assert(pad@ =~= text::repeated(' ', 32 - shown_from(title@, false)));
    let ratio = cat3(to_decimal(found as u64).as_str(), "/", to_decimal(total as u64).as_str());
    let cov = if found == total {
        in_style(DIM, ratio.as_str())
    } else {
        in_style(YELLOW, ratio.as_str())
    };
    let first = cat4(marker, " ", mark.as_str(), " ");
    let second = cat3(first.as_str(), title.as_str(), pad.as_str());
    cat4(second.as_str(), " ", cov.as_str(), BREAK)
}

fn paragraph_text(s: &str) -> (res: String)
    ensures
        res@ == paragraph(s@),
{
    let lines = wrap(s, 72, 4);
    let ghost all = indented(s@, 72, 4);
    let mut out = String::new();
    let mut i: usize = 0;
    assert(text::views(lines@).len() == lines@.len());
    assert(out@ =~= plain_lines(all, 0));
    while i < lines.len()
        invariant
            i <= lines@.len(),
            text::views(lines@) == all,
            all.len() == lines@.len(),
            out@ == plain_lines(all, i as int),
        decreases lines@.len() - i,
    {
        assert(text::views(lines@)[i as int] == lines@[i as int]@);
        out.append(lines[i].as_str());
        out.append(BREAK);
        i = i + 1;
    }
    out
}

fn warning_text(s: &str) -> (res: String)
    ensures
        res@ == warning(s@),
{
    let lines = wrap(s, 72, 4);
    let ghost all = indented(s@, 72, 4);
    let mut out = BREAK.to_owned();
    let mut i: usize = 0;
    assert(text::views(lines@).len() == lines@.len());
    assert(out@ =~= BREAK@ + yellow_lines(all, 0));
    while i < lines.len()
        invariant
            i <= lines@.len(),
            text::views(lines@) == all,
            all.len() == lines@.len(),
            out@ == BREAK@ + yellow_lines(all, i as int),
        decreases lines@.len() - i,
    {
        assert(text::views(lines@)[i as int] == lines@[i as int]@);
        let line = in_style(YELLOW, lines[i].as_str());
        out.append(line.as_str());
        out.append(BREAK);
        assert(out@ =~= BREAK@ + yellow_lines(all, i + 1));
        i = i + 1;
    }
    out
}

fn details_text(g: &Group, found: usize, total: usize) -> (res: String)
    requires
        found <= total,
    ensures
        res@ == details(g@, (found as int, total as int)),
{
    let mut out = cat2(BREAK, paragraph_text(g.summary).as_str());
    let ghost first = out@;
    assert(first + Seq::<char>::empty() =~= first);
    if let Some(c) = g.caveat {
        out.append(warning_text(c).as_str());
    }
    let ghost second = out@;
    assert(second + Seq::<char>::empty() =~= second);
    if found < total {
        let short = cat4(
            to_decimal((total - found) as u64).as_str(),
            " of this group's ",
            to_decimal(total as u64).as_str(),
            SKIPPED,
        );
        out.append(warning_text(short.as_str()).as_str());
    }
    out
}

/// The whole picture: a heading, a row for every group, what the group under the
/// cursor does, and the keys.
pub fn screen(label: &str, on: &Vec<bool>, cursor: usize, report: &Report, bitrate: u32) -> (res:
    String)
    requires
        on@.len() == groups::GROUP_COUNT,
        cursor < groups::GROUP_COUNT,
        report.wf(),
    ensures
        res@ == picture(label@, on@, cursor as int, report@, bitrate as int),
{
    let list = groups::groups();
    let mut out = heading_text(label, bitrate);
    let ghost head = out@;
    let mut i: usize = 0;
    assert(groups::group_models(list@).len() == list@.len());
    assert(out@ =~= head + rows_below(report@, on@, cursor as int, 0));
    while i < list.len()
        invariant
            i <= list@.len(),
            list@.len() == groups::GROUP_COUNT,
            on@.len() == groups::GROUP_COUNT,
            report.wf(),
            groups::group_models(list@) == groups::group_catalogue(),
            out@ == head + rows_below(report@, on@, cursor as int, i as int),
        decreases list@.len() - i,
    {
        let g: &'static Group = list[i];
        assert(groups::group_models(list@)[i as int] == g@);
        let (found, total) = coverage(report, g.name);
        let line = row_text(g, i == cursor, on[i], found, total);
        out.append(line.as_str());
        assert(out@ =~= head + rows_below(report@, on@, cursor as int, i + 1));
        i = i + 1;
    }
    let g: &'static Group = list[cursor];
    assert(groups::group_models(list@)[cursor as int] == g@);
    let (found, total) = coverage(report, g.name);
    out.append(details_text(g, found, total).as_str());
    out.append(BREAK);
    out.append(in_style(DIM, KEYS).as_str());
    out.append(BREAK);
    out
}

// ---------------------------------------------------------------------------
// Keys
// ---------------------------------------------------------------------------

/// Which groups are on, and where the cursor is.
pub struct Picker {
    pub on: Vec<bool>,
    pub cursor: usize,
}

#[verifier::ext_equal]
pub struct PickerModel {
    pub on: Seq<bool>,
    pub cursor: int,
}

impl View for Picker {
    type V = PickerModel;

    open spec fn view(&self) -> PickerModel {
        PickerModel { on: self.on@, cursor: self.cursor as int }
    }
}

/// What was read from the keyboard.
pub enum Input {
    /// Nothing more will come.
    Closed,
    Byte(u8),
    /// The escape character, with the two bytes behind it where two came.
    Escape(Option<(u8, u8)>),
}

/// Which groups are on by default.
pub open spec fn default_set() -> Seq<bool> {
    groups::group_catalogue().map_values(|g: GroupModel| g.default_on)
}

pub open spec fn all_set(value: bool) -> Seq<bool> {
    Seq::new(groups::GROUP_COUNT as nat, |i: int| value)
}

/// The names of the groups that are on, among the first `n`.
pub open spec fn chosen_below(on: Seq<bool>, n: int) -> Seq<Seq<char>>
    decreases n,
{
    if n <= 0 {
        seq![]
    } else if on[n - 1] {
        chosen_below(on, n - 1).push(groups::group_catalogue()[n - 1].name)
    } else {
        chosen_below(on, n - 1)
    }
}

/// The names of the groups that are on.
pub open spec fn chosen(on: Seq<bool>) -> Seq<Seq<char>> {
    chosen_below(on, groups::GROUP_COUNT as int)
}

pub open spec fn moved(p: PickerModel, by: int) -> PickerModel {
    PickerModel { cursor: (p.cursor + by) % (groups::GROUP_COUNT as int), ..p }
}

/// What a key does: the picker after it, and the choice it makes, if any.
pub open spec fn after(p: PickerModel, input: Input) -> (PickerModel, Option<ChoiceModel>) {
    match input {
        Input::Closed => (p, Some(ChoiceModel::Cancel)),
        Input::Escape(None) => (p, Some(ChoiceModel::Cancel)),
        Input::Escape(Some((a, b))) => if a != 0x5B {
            (p, Some(ChoiceModel::Cancel))
        } else if b == 0x41 {
            (moved(p, groups::GROUP_COUNT - 1), None)
        } else if b == 0x42 {
            (moved(p, 1), None)
        } else {
            (p, None)
        },
        Input::Byte(b) => if b == 0x71 || b == 0x03 {
            (p, Some(ChoiceModel::Cancel))
        } else if b == 0x0D || b == 0x0A {
            (p, Some(ChoiceModel::Apply(chosen(p.on))))
        } else if b == 0x20 {
            (PickerModel { on: p.on.update(p.cursor, !p.on[p.cursor]), ..p }, None)
        } else if b == 0x61 {
            (PickerModel { on: all_set(true), ..p }, None)
        } else if b == 0x6E {
            (PickerModel { on: all_set(false), ..p }, None)
        } else if b == 0x64 {
            (PickerModel { on: default_set(), ..p }, None)
        } else if b == 0x6B {
            (moved(p, groups::GROUP_COUNT - 1), None)
        } else if b == 0x6A {
            (moved(p, 1), None)
        } else {
            (p, None)
        },
    }
}

/// The groups that are on by default.
pub fn default_switches() -> (res: Vec<bool>)
    ensures
        res@ == default_set(),
        res@.len() == groups::GROUP_COUNT,
{
    let list = groups::groups();
    let mut out: Vec<bool> = Vec::new();
    let ghost all = default_set();
    let mut i: usize = 0;
    assert(groups::group_models(list@).len() == list@.len());
    assert(out@ =~= all.take(0));
    while i < list.len()
        invariant
            i <= list@.len(),
            list@.len() == groups::GROUP_COUNT,
            all == default_set(),
            groups::group_models(list@) == groups::group_catalogue(),
            out@ == all.take(i as int),
        decreases list@.len() - i,
    {
        let g: &'static Group = list[i];
        assert(groups::group_models(list@)[i as int] == g@);
        out.push(g.default_on);
        assert(out@ =~= all.take(i + 1));
        i = i + 1;
    }
    assert(all.take(i as int) =~= all);
    out
}

/// Every group on, or every group off.
pub fn every_switch(value: bool) -> (res: Vec<bool>)
    ensures
        res@ == all_set(value),
{
    let mut out: Vec<bool> = Vec::new();
    let mut i: usize = 0;
    while i < groups::GROUP_COUNT
        invariant
            i <= groups::GROUP_COUNT,
            out@ =~= all_set(value).take(i as int),
        decreases groups::GROUP_COUNT - i,
    {
        out.push(value);
        i = i + 1;
    }
    assert(all_set(value).take(i as int) =~= all_set(value));
    out
}

/// The names of the groups that are on.
pub fn chosen_names(on: &Vec<bool>) -> (res: Vec<String>)
    requires
        on@.len() == groups::GROUP_COUNT,
    ensures
        text::views(res@) == chosen(on@),
{
    let list = groups::groups();
    let mut out: Vec<String> = Vec::new();
    let mut i: usize = 0;
    assert(groups::group_models(list@).len() == list@.len());
    assert(text::views(out@) =~= chosen_below(on@, 0));
    while i < list.len()
        invariant
            i <= list@.len(),
            list@.len() == groups::GROUP_COUNT,
            on@.len() == groups::GROUP_COUNT,
            groups::group_models(list@) == groups::group_catalogue(),
            text::views(out@) == chosen_below(on@, i as int),
        decreases list@.len() - i,
    {
        let g: &'static Group = list[i];
        assert(groups::group_models(list@)[i as int] == g@);
        if on[i] {
            push_text(&mut out, g.name.to_owned());
        }
        i = i + 1;
    }
    out
}

impl Picker {
    /// There is a switch for every group, and the cursor is on one of them.
    pub open spec fn wf(&self) -> bool {
        self.on@.len() == groups::GROUP_COUNT && self.cursor < groups::GROUP_COUNT
    }

    /// The recommended set, with the cursor on the first group.
    pub fn new() -> (res: Picker)
        ensures
            res.wf(),
            res@ == (PickerModel { on: default_set(), cursor: 0 }),
    {
        Picker { on: default_switches(), cursor: 0 }
    }

    /// What a key does. A choice ends the picking.
    pub fn press(&mut self, input: Input) -> (res: Option<Choice>)
        requires
            old(self).wf(),
        ensures
            final(self).wf(),
            final(self)@ == after(old(self)@, input).0,
            res is Some == after(old(self)@, input).1 is Some,
            res matches Some(choice) ==> after(old(self)@, input).1 == Some(choice@),
    {
        let n: usize = groups::GROUP_COUNT;
        match input {
            Input::Closed => {
                return Some(Choice::Cancel);
            },
            Input::Escape(None) => {
                return Some(Choice::Cancel);
            },
            Input::Escape(Some((a, b))) => {
                // An arrow key arrives as ESC [ A or ESC [ B.
                if a != 0x5B {
                    return Some(Choice::Cancel);
                }
                if b == 0x41 {
                    self.cursor = (self.cursor + n - 1) % n;
                } else if b == 0x42 {
                    self.cursor = (self.cursor + 1) % n;
                }
            },
            Input::Byte(b) => {
                if b == 0x71 || b == 0x03 {
                    return Some(Choice::Cancel);
                }
                if b == 0x0D || b == 0x0A {
                    return Some(Choice::Apply(chosen_names(&self.on)));
                }
                if b == 0x20 {
                    let was = self.on[self.cursor];
                    self.on.set(self.cursor, !was);
                } else if b == 0x61 {
                    self.on = every_switch(true);
                } else if b == 0x6E {
                    self.on = every_switch(false);
                } else if b == 0x64 {
                    self.on = default_switches();
                } else if b == 0x6B {
                    self.cursor = (self.cursor + n - 1) % n;
                } else if b == 0x6A {
                    self.cursor = (self.cursor + 1) % n;
                }
            },
        }
        None
    }
}

// ---------------------------------------------------------------------------
// Laws
// ---------------------------------------------------------------------------

/// The picker keeps a switch per group and its cursor on a group, whatever is
/// pressed.
pub proof fn law_the_cursor_stays_on_a_group(p: PickerModel, input: Input)
    requires
        p.on.len() == groups::GROUP_COUNT,
        0 <= p.cursor < groups::GROUP_COUNT,
    ensures
        after(p, input).0.on.len() == groups::GROUP_COUNT,
        0 <= after(p, input).0.cursor < groups::GROUP_COUNT,
{
    assert(default_set().len() == groups::GROUP_COUNT);
}

/// Pressing space twice changes nothing.
pub proof fn law_toggling_twice_changes_nothing(p: PickerModel)
    requires
        p.on.len() == groups::GROUP_COUNT,
        0 <= p.cursor < groups::GROUP_COUNT,
    ensures
        after(after(p, Input::Byte(0x20)).0, Input::Byte(0x20)).0 == p,
{
    assert(after(after(p, Input::Byte(0x20)).0, Input::Byte(0x20)).0.on =~= p.on);
}

/// Moving down and then up, or up and then down, leaves the cursor where it was.
pub proof fn law_up_undoes_down(p: PickerModel)
    requires
        0 <= p.cursor < groups::GROUP_COUNT,
    ensures
        after(after(p, Input::Byte(0x6A)).0, Input::Byte(0x6B)).0 == p,
        after(after(p, Input::Byte(0x6B)).0, Input::Byte(0x6A)).0 == p,
{
}

proof fn lemma_chosen(on: Seq<bool>, n: int, k: int)
    requires
        0 <= k < n <= groups::GROUP_COUNT,
    ensures
        on[k] ==> chosen_below(on, n).contains(groups::group_catalogue()[k].name),
    decreases n,
{
    if k < n - 1 {
        lemma_chosen(on, n - 1, k);
    }
    if on[k] {
        let name = groups::group_catalogue()[k].name;
        let list = chosen_below(on, n);
        if k == n - 1 {
            assert(list[list.len() - 1] == name);
        } else {
            let before = chosen_below(on, n - 1);
            let i = choose|i: int| 0 <= i < before.len() && before[i] == name;
            assert(list[i] == name);
        }
    }
}

proof fn lemma_only_chosen(on: Seq<bool>, n: int, i: int)
    requires
        n <= groups::GROUP_COUNT,
        0 <= i < chosen_below(on, n).len(),
    ensures
        exists|k: int|
            0 <= k < n && on[k] && #[trigger] groups::group_catalogue()[k].name == chosen_below(
                on,
                n,
            )[i],
    decreases n,
{
    if n > 0 {
        let before = chosen_below(on, n - 1);
        if on[n - 1] && i == before.len() {
            assert(groups::group_catalogue()[n - 1].name == chosen_below(on, n)[i]);
        } else {
            lemma_only_chosen(on, n - 1, i);
        }
    }
}

/// Applying names exactly the groups that are on.
pub proof fn law_applying_names_the_groups_that_are_on(on: Seq<bool>, name: Seq<char>)
    requires
        on.len() == groups::GROUP_COUNT,
    ensures
        chosen(on).contains(name) <==> exists|k: int|
            0 <= k < groups::GROUP_COUNT && on[k] && #[trigger] groups::group_catalogue()[k].name
                == name,
{
    let n = groups::GROUP_COUNT as int;
    if chosen(on).contains(name) {
        let i = choose|i: int| 0 <= i < chosen(on).len() && chosen(on)[i] == name;
        lemma_only_chosen(on, n, i);
    }
    if exists|k: int|
        0 <= k < groups::GROUP_COUNT && on[k] && #[trigger] groups::group_catalogue()[k].name
            == name {
        let k = choose|k: int|
            0 <= k < groups::GROUP_COUNT && on[k] && #[trigger] groups::group_catalogue()[k].name
                == name;
        lemma_chosen(on, n, k);
    }
}

} // verus!

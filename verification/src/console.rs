//! What the commands print.
//!
//! Each function gives the lines of one part of the output. A line may hold line
//! breaks of its own.

use crate::apply;
use crate::apply::NoteModel;
use crate::backup;
use crate::cli::newest_per_channel;
use crate::discovery;
use crate::discovery::{Install, InstallModel};
use crate::patch;
use crate::patch::{Config, ConfigModel, EditModel, Plan, State};
use crate::resolve;
use crate::resolve::{Outcome, OutcomeModel, Report, Resolved, ResolvedModel};
use crate::sig;
use crate::sig::hex;
use crate::sites;
use crate::sites::groups;
use crate::sites::groups::{Group, GroupModel};
use crate::sites::Site;
use crate::status;
use crate::status::readout;
use crate::status::readout::{plain_glyph, Row, RowModel};
use crate::status::{Baseline, Inspection, InspectionModel};
use crate::text;
use crate::text::{
    cat2, cat3, cat4, cat5, join, list_holds, pad, pad_left, pad_zeros, push_all, push_text, str_eq,
    to_decimal, to_hexadecimal, to_lowercase, trim, wide_decimal, wrap_plain,
};
use vstd::prelude::*;
use vstd::slice::slice_subrange;

verus! {

// ---------------------------------------------------------------------------
// scan: the installs
// ---------------------------------------------------------------------------

pub const LAUNCH_MARK: &'static str =
    "\n'->' marks the version Discord will launch for that channel.";

/// One install in the listing. `size` is its module's, where it has one.
pub open spec fn install_line(
    label: Seq<char>,
    newest: bool,
    size: Option<int>,
    path: Seq<char>,
) -> Seq<char> {
    (if newest {
        "->"@
    } else {
        "  "@
    }) + " "@ + text::padded(label, 26) + " "@ + (match size {
        Some(n) => text::padded_left(text::decimal(n as nat), 12) + " bytes  "@,
        None => text::padded_left("(no module)"@, 12) + "         "@,
    }) + path
}

/// What stands for one install in the listing: its size if it has a module, and
/// the path that is shown.
pub struct Shown {
    pub size: Option<u64>,
    pub path: String,
}

pub open spec fn shown_size(s: Shown) -> Option<int> {
    match s.size {
        Some(n) => Some(n as int),
        None => None,
    }
}

/// The first `n` installs of the listing.
pub open spec fn install_lines_below(
    installs: Seq<InstallModel>,
    shown: Seq<Shown>,
    newest: Seq<Seq<char>>,
    n: int,
) -> Seq<Seq<char>>
    decreases n,
{
    if n <= 0 {
        seq![]
    } else {
        let label = discovery::label_of(installs[n - 1]);
        install_lines_below(installs, shown, newest, n - 1).push(
            install_line(
                label,
                newest.contains(label),
                shown_size(shown[n - 1]),
                shown[n - 1].path@,
            ),
        )
    }
}

fn line_for(label: &str, newest: bool, shown: &Shown) -> (res: String)
    ensures
        res@ == install_line(label@, newest, shown_size(*shown), shown.path@),
{
    let mark = if newest {
        "->"
    } else {
        "  "
    };
    let head = cat4(mark, " ", pad(label, 26).as_str(), " ");
    let middle = match shown.size {
        Some(n) => cat2(pad_left(to_decimal(n).as_str(), 12).as_str(), " bytes  "),
        None => cat2(pad_left("(no module)", 12).as_str(), "         "),
    };
    cat3(head.as_str(), middle.as_str(), shown.path.as_str())
}

/// Every install, the ones that Discord will launch marked.
pub fn scan_listing(installs: &Vec<Install>, shown: &Vec<Shown>) -> (res: Vec<String>)
    requires
        shown@.len() == installs@.len(),
    ensures
        ({
            let all = discovery::install_views(installs@);
            let n = all.len() as int;
            text::views(res@) == (seq!["Discord installs"@] + install_lines_below(
                all,
                shown@,
                crate::cli::newest_below(all, n),
                n,
            )).push(LAUNCH_MARK@)
        }),
{
    let ghost all = discovery::install_views(installs@);
    let newest = newest_per_channel(installs);
    let ghost names = text::views(newest@);
    let mut out: Vec<String> = Vec::new();
    push_text(&mut out, "Discord installs".to_owned());
    let ghost first = text::views(out@);
    assert(first =~= seq!["Discord installs"@]);
    let mut i: usize = 0;
    assert(first + install_lines_below(all, shown@, names, 0) =~= first);
    while i < installs.len()
        invariant
            i <= installs@.len(),
            shown@.len() == installs@.len(),
            all == discovery::install_views(installs@),
            names == text::views(newest@),
            text::views(out@) == first + install_lines_below(all, shown@, names, i as int),
        decreases installs@.len() - i,
    {
        assert(all[i as int] == installs@[i as int]@);
        let label = installs[i].label();
        let is_newest = list_holds(&newest, label.as_str());
        let line = line_for(label.as_str(), is_newest, &shown[i]);
        assert(first + install_lines_below(all, shown@, names, i + 1) =~= (first
            + install_lines_below(all, shown@, names, i as int)).push(line@));
        push_text(&mut out, line);
        i = i + 1;
    }
    push_text(&mut out, LAUNCH_MARK.to_owned());
    out
}

// ---------------------------------------------------------------------------
// Staged updates
// ---------------------------------------------------------------------------

pub const SCAN_BLOCKED_A: &'static str = " is staged, but its voice module is missing and ";

pub const SCAN_BLOCKED_B: &'static str =
    " is\npatched. Discord ships this module as a binary delta and checks the\ncurrent file's hash before applying it, so a patched module makes the\ndelta fail and aborts the whole update — Discord keeps launching the\nold version. To take the update: 'stereocord restore', start Discord\nand let it update, quit, then 'stereocord patch' again.";

pub const SCAN_STAGED: &'static str =
    " has no voice module yet. Discord downloads it on next\nlaunch, so anything patched in an older app- directory stops applying\nonce that update goes live. Re-run 'stereocord patch' after starting\nDiscord on the new version.";

pub const PATCH_BLOCKED_A: &'static str =
    " is staged but blocked — Discord's delta update for the voice\nmodule checks the current file's hash, and ";

pub const PATCH_BLOCKED_B: &'static str =
    " is patched. Run\n'stereocord restore' and let Discord update before patching again.";

pub const PATCH_STAGED: &'static str =
    " is staged with no voice module yet; it will need patching\nagain once Discord has launched it at least once.";

pub open spec fn scan_note(label: Seq<char>, blocker: Option<Seq<char>>) -> Seq<char> {
    match blocker {
        Some(patched) => "\nnote: "@ + label + SCAN_BLOCKED_A@ + patched + SCAN_BLOCKED_B@,
        None => "\nnote: "@ + label + SCAN_STAGED@,
    }
}

pub open spec fn patch_note(label: Seq<char>, blocker: Option<Seq<char>>) -> Seq<char> {
    match blocker {
        Some(patched) => "note: "@ + label + PATCH_BLOCKED_A@ + patched + PATCH_BLOCKED_B@,
        None => "note: "@ + label + PATCH_STAGED@,
    }
}

/// What `scan` says of a staged update.
pub fn staged_scan_note(label: &str, blocker: &Option<String>) -> (res: String)
    ensures
        res@ == scan_note(label@, discovery::opt_text(*blocker)),
{
    match blocker {
        Some(patched) => cat5("\nnote: ", label, SCAN_BLOCKED_A, patched.as_str(), SCAN_BLOCKED_B),
        None => cat3("\nnote: ", label, SCAN_STAGED),
    }
}

/// What `patch` says of a staged update.
pub fn staged_patch_note(label: &str, blocker: &Option<String>) -> (res: String)
    ensures
        res@ == patch_note(label@, discovery::opt_text(*blocker)),
{
    match blocker {
        Some(patched) => cat5("note: ", label, PATCH_BLOCKED_A, patched.as_str(), PATCH_BLOCKED_B),
        None => cat3("note: ", label, PATCH_STAGED),
    }
}

// ---------------------------------------------------------------------------
// scan: one module
// ---------------------------------------------------------------------------

pub const STRIPPED: &'static str = "  symbols: none (stripped) - falling back to scanning";

pub const UNRECOGNISED: &'static str =
    "  status: unrecognised — not one site matched, so this is either not\n  Discord's voice module, or a build this version of stereocord has never seen";

pub const AUDIO_HEADING: &'static str = "\n  What this module does to your audio";

pub const NO_BASELINE: &'static str =
    "\n  No backup is on record for this module, and a patch overwrites the\n  very bytes most signatures key on. So the lines above and below that say\n  they cannot be read are a limit of what is knowable here, not a fault in\n  the module. Restore it, or scan a stock copy, to see the rest.";

pub const SITES_HEADING: &'static str = "\n  Patch sites";

/// What a module is.
pub open spec fn fact_lines(i: InspectionModel) -> Seq<Seq<char>> {
    seq![
        "  size "@ + text::decimal(i.size as nat) + " bytes, md5 "@ + i.md5,
        match i.symbols {
            Some(n) => "  symbols: "@ + text::decimal(n as nat) + " functions"@,
            None => STRIPPED@,
        },
        if i.located > 0 {
            "  status: "@ + patch::state_text(i.state)
        } else {
            UNRECOGNISED@
        },
    ]
}

/// One line of the readout.
pub open spec fn row_line(row: RowModel) -> Seq<char> {
    "    "@ + readout::glyph_of(row.level) + " "@ + text::padded(row.label, 22) + " "@ + row.value
}

/// The whole readout, and a warning where it cannot be complete.
pub open spec fn audio_lines(i: InspectionModel) -> Seq<Seq<char>> {
    seq![AUDIO_HEADING@] + i.rows.map_values(|r: RowModel| row_line(r)) + (if i.baseline
        == Baseline::SelfScan && i.state != State::Stock {
        seq![NO_BASELINE@]
    } else {
        seq![]
    })
}

/// The offsets of a site.
pub open spec fn offset_texts(offsets: Seq<int>) -> Seq<Seq<char>> {
    offsets.map_values(|o: int| "0x"@ + text::hexadecimal(o as nat))
}

/// What is said of a site that was found: nothing, unless asked for.
pub open spec fn found_lines(name: Seq<char>, r: ResolvedModel, verbose: bool) -> Seq<Seq<char>> {
    if !verbose {
        seq![]
    } else {
        let line = "    ok      "@ + text::padded(name, 30) + " "@ + text::padded(
            r.site.group,
            10,
        ) + " "@ + text::padded(text::joined(offset_texts(r.offsets), ", "@), 20) + " "@
            + resolve::via_text(r.via);
        if r.variant > 0 {
            seq![
                line,
                "            via alternative encoding #"@ + text::decimal((r.variant + 1) as nat),
            ]
        } else {
            seq![line]
        }
    }
}

/// What is said of one site.
pub open spec fn site_lines(
    report: Seq<(Seq<char>, OutcomeModel)>,
    name: Seq<char>,
    verbose: bool,
) -> Seq<Seq<char>> {
    match resolve::lookup(report, name) {
        Some(OutcomeModel::Found(r)) => found_lines(name, r, verbose),
        Some(OutcomeModel::Ambiguous { found, wanted }) => seq![
            "    AMBIG   "@ + text::padded(name, 30) + " matched "@ + text::decimal(found as nat)
                + " times, expected "@ + wanted,
        ],
        _ => match resolve::excuse_for(report, name) {
            Some(note) => seq!["    n/a     "@ + text::padded(name, 30) + " "@ + note],
            None => seq!["    MISSING "@ + text::padded(name, 30) + " no signature matched"@],
        },
    }
}

/// What is said of the first `n` sites.
pub open spec fn site_lines_below(
    report: Seq<(Seq<char>, OutcomeModel)>,
    verbose: bool,
    n: int,
) -> Seq<Seq<char>>
    decreases n,
{
    if n <= 0 {
        seq![]
    } else {
        site_lines_below(report, verbose, n - 1) + site_lines(report, report[n - 1].0, verbose)
    }
}

/// How many of the first `n` sites are missing with an excuse.
pub open spec fn excused_below(report: Seq<(Seq<char>, OutcomeModel)>, n: int) -> int
    decreases n,
{
    if n <= 0 {
        0
    } else {
        excused_below(report, n - 1) + if resolve::found(report, report[n - 1].0) is None
            && resolve::excuse_for(report, report[n - 1].0) is Some {
            1int
        } else {
            0
        }
    }
}

/// How many sites were located, how many are not needed, and how many are gaps.
pub open spec fn tally_line(report: Seq<(Seq<char>, OutcomeModel)>) -> Seq<char> {
    let n = report.len() as int;
    let ok = status::located_below(report, n);
    let excused = excused_below(report, n);
    let gaps = n - ok - excused;
    "    "@ + text::decimal(ok as nat) + "/"@ + text::decimal(n as nat) + " sites located"@ + (
    if excused > 0 {
        ", "@ + text::decimal(excused as nat) + " not needed on this build"@
    } else {
        seq![]
    }) + (if gaps > 0 {
        ", "@ + text::decimal(gaps as nat) + " missing"@
    } else {
        seq![]
    })
}

/// Everything that is said of one module.
pub open spec fn module_report(i: InspectionModel, verbose: bool) -> Seq<Seq<char>> {
    (fact_lines(i) + audio_lines(i) + seq![SITES_HEADING@] + site_lines_below(
        i.report,
        verbose,
        i.report.len() as int,
    )).push(tally_line(i.report))
}

fn push_facts(out: &mut Vec<String>, facts: &Inspection)
    ensures
        text::views(final(out)@) == text::views(old(out)@) + fact_lines(facts@),
{
    let ghost before = text::views(out@);
    push_text(
        out,
        cat4(
            "  size ",
            to_decimal(facts.size).as_str(),
            " bytes, md5 ",
            facts.md5.as_str(),
        ),
    );
    let symbols = match facts.symbols {
        Some(n) => cat3("  symbols: ", to_decimal(n as u64).as_str(), " functions"),
        None => STRIPPED.to_owned(),
    };
    push_text(out, symbols);
    let status = if facts.recognised() {
        cat2("  status: ", facts.state.to_text().as_str())
    } else {
        UNRECOGNISED.to_owned()
    };
    push_text(out, status);
    assert(text::views(out@) =~= before + fact_lines(facts@));
}

fn push_audio(out: &mut Vec<String>, facts: &Inspection)
    ensures
        text::views(final(out)@) == text::views(old(out)@) + audio_lines(facts@),
{
    let ghost before = text::views(out@);
    let ghost rows = facts@.rows.map_values(|r: RowModel| row_line(r));
    push_text(out, AUDIO_HEADING.to_owned());
    let ghost head = before + seq![AUDIO_HEADING@];
    assert(text::views(out@) =~= head + rows.take(0));
    let mut i: usize = 0;
    while i < facts.rows.len()
        invariant
            i <= facts.rows@.len(),
            rows == facts@.rows.map_values(|r: RowModel| row_line(r)),
            text::views(out@) == head + rows.take(i as int),
        decreases facts.rows@.len() - i,
    {
        let row: &Row = &facts.rows[i];
        assert(facts@.rows[i as int] == row@);
        let line = cat5(
            "    ",
            plain_glyph(row.level),
            " ",
            pad(row.label, 22).as_str(),
            " ",
        );
        let whole = cat2(line.as_str(), row.value.as_str());
        assert(rows[i as int] == whole@);
        assert(head + rows.take(i + 1) =~= (head + rows.take(i as int)).push(whole@));
        push_text(out, whole);
        i = i + 1;
    }
    assert(rows.take(i as int) =~= rows);
    if facts.baseline == Baseline::SelfScan && facts.state != State::Stock {
        push_text(out, NO_BASELINE.to_owned());
    }
    assert(text::views(out@) =~= before + audio_lines(facts@));
}

fn offsets_text(offsets: &Vec<usize>) -> (res: String)
    ensures
        res@ == text::joined(offset_texts(sig::ints(offsets@)), ", "@),
{
    let ghost all = offset_texts(sig::ints(offsets@));
    let mut parts: Vec<String> = Vec::new();
    let mut i: usize = 0;
    while i < offsets.len()
        invariant
            i <= offsets@.len(),
            all == offset_texts(sig::ints(offsets@)),
            text::views(parts@) == all.take(i as int),
        decreases offsets@.len() - i,
    {
        let s = cat2("0x", to_hexadecimal(offsets[i] as u64).as_str());
        assert(sig::ints(offsets@)[i as int] == offsets@[i as int]);
        assert(all[i as int] == s@);
        assert(all.take(i + 1) =~= all.take(i as int).push(all[i as int]));
        push_text(&mut parts, s);
        i = i + 1;
    }
    assert(all.take(i as int) =~= all);
    join(&parts, ", ")
}

fn push_found(out: &mut Vec<String>, name: &str, r: &Resolved)
    requires
        r.via.plain(),
    ensures
        text::views(final(out)@) == text::views(old(out)@) + found_lines(name@, r@, true),
{
    let ghost before = text::views(out@);
    let head = cat4("    ok      ", pad(name, 30).as_str(), " ", pad(r.site.group, 10).as_str());
    let line = cat5(
        head.as_str(),
        " ",
        pad(offsets_text(&r.offsets).as_str(), 20).as_str(),
        " ",
        r.via.to_text().as_str(),
    );
    push_text(out, line);
    if r.variant > 0 {
        push_text(
            out,
            cat2(
                "            via alternative encoding #",
                wide_decimal(r.variant as u128 + 1).as_str(),
            ),
        );
    }
    assert(text::views(out@) =~= before + found_lines(name@, r@, true));
}

fn push_site(out: &mut Vec<String>, report: &Report, name: &'static str, verbose: bool)
    requires
        report.wf(),
        report.plain(),
    ensures
        text::views(final(out)@) == text::views(old(out)@) + site_lines(report@, name@, verbose),
{
    let ghost before = text::views(out@);
    assert(before + Seq::<Seq<char>>::empty() =~= before);
    match report.outcome(name) {
        Some(Outcome::Found(r)) => {
            if verbose {
                push_found(out, name, r);
            }
        },
        Some(Outcome::Ambiguous { found, wanted }) => {
            let head = cat3("    AMBIG   ", pad(name, 30).as_str(), " matched ");
            let line = cat4(
                head.as_str(),
                to_decimal(*found as u64).as_str(),
                " times, expected ",
                wanted.as_str(),
            );
            push_text(out, line);
            assert(text::views(out@) =~= before + site_lines(report@, name@, verbose));
        },
        _ => {
            let line = match report.excused(name) {
                Some(note) => cat4("    n/a     ", pad(name, 30).as_str(), " ", note),
                None => cat3("    MISSING ", pad(name, 30).as_str(), " no signature matched"),
            };
            push_text(out, line);
            assert(text::views(out@) =~= before + site_lines(report@, name@, verbose));
        },
    }
}

proof fn lemma_tally_bounds(report: Seq<(Seq<char>, OutcomeModel)>, n: int)
    requires
        0 <= n,
    ensures
        0 <= status::located_below(report, n),
        0 <= excused_below(report, n),
        status::located_below(report, n) + excused_below(report, n) <= n,
    decreases n,
{
    if n > 0 {
        lemma_tally_bounds(report, n - 1);
    }
}

fn push_tally(out: &mut Vec<String>, report: &Report)
    requires
        report.wf(),
    ensures
        text::views(final(out)@) == text::views(old(out)@).push(tally_line(report@)),
{
    let n: usize = report.order.len();
    let mut ok: usize = 0;
    let mut excused: usize = 0;
    let mut i: usize = 0;
    while i < n
        invariant
            i <= n,
            n == report.order@.len(),
            report.wf(),
            ok + excused <= i,
            ok == status::located_below(report@, i as int),
            excused == excused_below(report@, i as int),
        decreases n - i,
    {
        let name: &'static str = report.order[i];
        assert(report@[i as int].0 == name@);
        if report.resolved(name).is_some() {
            ok = ok + 1;
        } else if report.excused(name).is_some() {
            excused = excused + 1;
        }
        i = i + 1;
    }
    let gaps: usize = n - ok - excused;
    let mut line = cat4(
        "    ",
        to_decimal(ok as u64).as_str(),
        "/",
        to_decimal(n as u64).as_str(),
    );
    line.append(" sites located");
    let ghost head = line@;
    assert(head + Seq::<char>::empty() =~= head);
    if excused > 0 {
        let more = cat3(", ", to_decimal(excused as u64).as_str(), " not needed on this build");
        line.append(more.as_str());
    }
    let ghost middle = line@;
    assert(middle + Seq::<char>::empty() =~= middle);
    if gaps > 0 {
        let more = cat3(", ", to_decimal(gaps as u64).as_str(), " missing");
        line.append(more.as_str());
    }
    assert(line@ =~= tally_line(report@));
    push_text(out, line);
}

/// What one module is, what it is doing, and whether the catalogue can still
/// find its way around it, in that order, because the first two are what the
/// person asked and the third is about the tool.
pub fn report_sites(facts: &Inspection, verbose: bool) -> (res: Vec<String>)
    requires
        facts.wf(),
    ensures
        text::views(res@) == module_report(facts@, verbose),
{
    let mut out: Vec<String> = Vec::new();
    assert(text::views(out@) =~= Seq::<Seq<char>>::empty());
    push_facts(&mut out, facts);
    push_audio(&mut out, facts);
    push_text(&mut out, SITES_HEADING.to_owned());
    let ghost head = fact_lines(facts@) + audio_lines(facts@) + seq![SITES_HEADING@];
    assert(text::views(out@) =~= head);
    let report = &facts.report;
    let mut i: usize = 0;
    assert(head + site_lines_below(report@, verbose, 0) =~= head);
    while i < report.order.len()
        invariant
            i <= report.order@.len(),
            report.wf(),
            report.plain(),
            text::views(out@) == head + site_lines_below(report@, verbose, i as int),
        decreases report.order@.len() - i,
    {
        assert(report@[i as int].0 == report.order@[i as int]@);
        push_site(&mut out, report, report.order[i], verbose);
        assert(text::views(out@) =~= head + site_lines_below(report@, verbose, i + 1));
        i = i + 1;
    }
    push_tally(&mut out, report);
    assert(text::views(out@) =~= module_report(facts@, verbose));
    out
}

/// A site that was not found is always reported, with a line of its own.
pub proof fn law_every_gap_is_reported(
    report: Seq<(Seq<char>, OutcomeModel)>,
    name: Seq<char>,
    verbose: bool,
)
    requires
        resolve::found(report, name) is None,
    ensures
        site_lines(report, name, verbose).len() == 1,
{
}

/// Every site of a report is counted once: located, not needed, or a gap.
pub proof fn law_the_tally_adds_up(report: Seq<(Seq<char>, OutcomeModel)>)
    ensures
        ({
            let n = report.len() as int;
            let gaps = n - status::located_below(report, n) - excused_below(report, n);
            &&& 0 <= gaps
            &&& status::located_below(report, n) + excused_below(report, n) + gaps == n
        }),
{
    lemma_tally_bounds(report, report.len() as int);
}

// ---------------------------------------------------------------------------
// patch
// ---------------------------------------------------------------------------

pub open spec fn pid_texts(pids: Seq<u32>) -> Seq<Seq<char>> {
    pids.map_values(|p: u32| text::decimal(p as nat))
}

/// Process ids with commas between them.
pub fn pid_list(pids: &Vec<u32>) -> (res: String)
    ensures
        res@ == text::joined(pid_texts(pids@), ", "@),
{
    let ghost all = pid_texts(pids@);
    let mut parts: Vec<String> = Vec::new();
    let mut i: usize = 0;
    while i < pids.len()
        invariant
            i <= pids@.len(),
            all == pid_texts(pids@),
            text::views(parts@) == all.take(i as int),
        decreases pids@.len() - i,
    {
        let s = to_decimal(pids[i] as u64);
        assert(all[i as int] == s@);
        assert(all.take(i + 1) =~= all.take(i as int).push(all[i as int]));
        push_text(&mut parts, s);
        i = i + 1;
    }
    assert(all.take(i as int) =~= all);
    join(&parts, ", ")
}

pub const RUNNING_TAIL: &'static str =
    "). The running client already has the\n  old module mapped, so patching now would change nothing until it\n  restarts. Close Discord and re-run, or pass --force.\n";

/// Whether a run goes on where Discord is running, and what is said of it.
pub struct Gate {
    pub go: bool,
    pub lines: Vec<String>,
}

/// A running client stops a run, unless it is forced.
pub fn running_gate(pids: &Vec<u32>, force: bool) -> (res: Gate)
    ensures
        res.go == (pids@.len() == 0 || force),
        text::views(res.lines@) == (if pids@.len() == 0 {
            Seq::<Seq<char>>::empty()
        } else if force {
            seq![
                "  warning: Discord is running (pid "@ + text::joined(pid_texts(pids@), ", "@)
                    + "); --force given"@,
            ]
        } else {
            seq![
                "  Discord is running (pid "@ + text::joined(pid_texts(pids@), ", "@)
                    + RUNNING_TAIL@,
            ]
        }),
{
    let mut lines: Vec<String> = Vec::new();
    assert(text::views(lines@) =~= Seq::<Seq<char>>::empty());
    if pids.len() == 0 {
        return Gate { go: true, lines };
    }
    let list = pid_list(pids);
    if force {
        push_text(
            &mut lines,
            cat3("  warning: Discord is running (pid ", list.as_str(), "); --force given"),
        );
    } else {
        push_text(&mut lines, cat3("  Discord is running (pid ", list.as_str(), RUNNING_TAIL));
    }
    Gate { go: force, lines }
}

pub const REFUSING: &'static str =
    "  Refusing to patch. Pass --allow-partial to apply the rest anyway.";

pub const PARTIAL_GIVEN: &'static str =
    "  --allow-partial given; applying the sites that did resolve";

pub const NO_GROUPS: &'static str = "  no groups selected; nothing to do";

pub const DRY_RUN: &'static str = "  dry run; nothing written";

/// What is said where some critical sites are missing or no group is selected.
pub open spec fn gate_lines(blocked: bool, allow_partial: bool, no_groups: bool) -> Seq<Seq<char>> {
    if blocked && !allow_partial {
        seq![REFUSING@]
    } else {
        (if blocked {
            seq![PARTIAL_GIVEN@]
        } else {
            seq![]
        }) + (if no_groups {
            seq![NO_GROUPS@]
        } else {
            seq![]
        })
    }
}

/// Whether a run goes on where some critical sites are missing or no group is
/// selected, and what is said of it.
pub fn missing_gate(blocked: bool, allow_partial: bool, no_groups: bool) -> (res: Gate)
    ensures
        res.go == ((!blocked || allow_partial) && !no_groups),
        text::views(res.lines@) == gate_lines(blocked, allow_partial, no_groups),
{
    let mut lines: Vec<String> = Vec::new();
    assert(text::views(lines@) =~= Seq::<Seq<char>>::empty());
    if blocked && !allow_partial {
        push_text(&mut lines, REFUSING.to_owned());
        assert(text::views(lines@) =~= gate_lines(blocked, allow_partial, no_groups));
        return Gate { go: false, lines };
    }
    if blocked {
        push_text(&mut lines, PARTIAL_GIVEN.to_owned());
    }
    if no_groups {
        push_text(&mut lines, NO_GROUPS.to_owned());
    }
    assert(text::views(lines@) =~= gate_lines(blocked, allow_partial, no_groups));
    Gate { go: !no_groups, lines }
}

/// One edit of a plan.
pub open spec fn edit_line(e: EditModel) -> Seq<char> {
    "    0x"@ + text::zero_padded(text::hexadecimal(e.offset as nat), 8) + " "@ + text::padded(
        e.group,
        10,
    ) + " "@ + text::padded(e.site, 30) + " "@ + text::padded(e.what, 40) + " "@ + sig::hex_text(
        if e.bytes.len() <= 12 {
            e.bytes
        } else {
            e.bytes.take(12)
        },
    )
}

pub const NOTHING_TO_CHANGE: &'static str = "  nothing to change for the groups selected";

/// What is said of a plan.
pub open spec fn plan_lines(
    edits: Seq<EditModel>,
    report: Seq<(Seq<char>, OutcomeModel)>,
    cfg: ConfigModel,
    gain_text: Seq<char>,
    verbose: bool,
) -> Seq<Seq<char>> {
    if edits.len() == 0 {
        seq![NOTHING_TO_CHANGE@]
    } else {
        seq![
            "  "@ + text::decimal(edits.len()) + " edits, "@ + text::decimal(
                patch::bytes_below(edits, edits.len() as int) as nat,
            ) + " bytes: "@ + text::joined(
                apply::effects_of(edits, report, cfg, gain_text),
                ", "@,
            ),
        ] + (if verbose {
            edits.map_values(|e: EditModel| edit_line(e))
        } else {
            seq![]
        })
    }
}

fn line_for_edit(e: &patch::Edit) -> (res: String)
    ensures
        res@ == edit_line(e@),
{
    let head = cat4(
        "    0x",
        pad_zeros(to_hexadecimal(e.offset as u64).as_str(), 8).as_str(),
        " ",
        pad(e.group, 10).as_str(),
    );
    let middle = cat5(
        head.as_str(),
        " ",
        pad(e.site, 30).as_str(),
        " ",
        pad(e.what, 40).as_str(),
    );
    let code = if e.bytes.len() <= 12 {
        hex(e.bytes.as_slice())
    } else {
        assert(e.bytes@.subrange(0, 12) =~= e.bytes@.take(12));
        hex(slice_subrange(e.bytes.as_slice(), 0, 12))
    };
    cat3(middle.as_str(), " ", code.as_str())
}

/// What is said of a plan, and whether it does anything.
pub fn plan_gate(plan: &Plan, report: &Report, cfg: &Config, gain_text: &str, verbose: bool) -> (res:
    Gate)
    requires
        report.wf(),
    ensures
        res.go == (plan@.len() > 0),
        text::views(res.lines@) == plan_lines(plan@, report@, cfg@, gain_text@, verbose),
{
    let mut lines: Vec<String> = Vec::new();
    assert(text::views(lines@) =~= Seq::<Seq<char>>::empty());
    assert(plan@.len() == plan.edits@.len());
    if plan.edits.len() == 0 {
        push_text(&mut lines, NOTHING_TO_CHANGE.to_owned());
        assert(text::views(lines@) =~= seq![NOTHING_TO_CHANGE@]);
        return Gate { go: false, lines };
    }
    let effects = apply::effects(plan, report, cfg, gain_text);
    let head = cat4(
        "  ",
        to_decimal(plan.edits.len() as u64).as_str(),
        " edits, ",
        wide_decimal(plan.wide_total()).as_str(),
    );
    push_text(&mut lines, cat3(head.as_str(), " bytes: ", join(&effects, ", ").as_str()));
    let ghost first = text::views(lines@);
    if verbose {
        let ghost all = plan@.map_values(|e: EditModel| edit_line(e));
        let mut i: usize = 0;
        assert(first + all.take(0) =~= first);
        while i < plan.edits.len()
            invariant
                i <= plan.edits@.len(),
                all == plan@.map_values(|e: EditModel| edit_line(e)),
                text::views(lines@) == first + all.take(i as int),
            decreases plan.edits@.len() - i,
        {
            assert(plan@[i as int] == plan.edits@[i as int]@);
            let line = line_for_edit(&plan.edits[i]);
            assert(all[i as int] == line@);
            assert(first + all.take(i + 1) =~= (first + all.take(i as int)).push(line@));
            push_text(&mut lines, line);
            i = i + 1;
        }
        assert(all.take(i as int) =~= all);
    }
    assert(text::views(lines@) =~= plan_lines(plan@, report@, cfg@, gain_text@, verbose));
    Gate { go: true, lines }
}

/// The lines of a note, indented as the commands print them.
pub open spec fn indented(s: Seq<char>) -> Seq<Seq<char>> {
    text::text_lines(s).map_values(|l: Seq<char>| "  "@ + l)
}

/// The lines of a note, indented as the commands print them.
pub fn note_lines(note: &apply::Note) -> (res: Vec<String>)
    ensures
        text::views(res@) == indented(apply::note_text(note@)),
{
    let lines = text::split_lines(note.text().as_str());
    let ghost all = indented(apply::note_text(note@));
    let mut out: Vec<String> = Vec::new();
    let mut i: usize = 0;
    assert(text::views(lines@).len() == lines@.len());
    assert(text::views(out@) =~= all.take(0));
    while i < lines.len()
        invariant
            i <= lines@.len(),
            text::views(lines@) == text::text_lines(apply::note_text(note@)),
            all == indented(apply::note_text(note@)),
            all.len() == lines@.len(),
            text::views(out@) == all.take(i as int),
        decreases lines@.len() - i,
    {
        assert(text::views(lines@)[i as int] == lines@[i as int]@);
        let line = cat2("  ", lines[i].as_str());
        assert(all[i as int] == line@);
        assert(all.take(i + 1) =~= all.take(i as int).push(line@));
        push_text(&mut out, line);
        i = i + 1;
    }
    assert(all.take(i as int) =~= all);
    out
}

/// The lines of the first `n` notes.
pub open spec fn notes_below(notes: Seq<NoteModel>, n: int) -> Seq<Seq<char>>
    decreases n,
{
    if n <= 0 {
        seq![]
    } else {
        notes_below(notes, n - 1) + indented(apply::note_text(notes[n - 1]))
    }
}

/// How far `patch` gets with one install before anything is written.
pub enum Turn {
    /// It cannot go on.
    Fail { lines: Vec<String>, error: String },
    /// There is nothing to write.
    Stop { lines: Vec<String> },
    /// The plan is to be carried out, after asking if `ask` says so.
    Write { lines: Vec<String>, plan: Plan, ask: bool },
}

#[verifier::ext_equal]
pub enum TurnModel {
    Fail { lines: Seq<Seq<char>>, error: Seq<char> },
    Stop { lines: Seq<Seq<char>> },
    Write { lines: Seq<Seq<char>>, edits: Seq<EditModel>, ask: bool },
}

impl View for Turn {
    type V = TurnModel;

    open spec fn view(&self) -> TurnModel {
        match *self {
            Turn::Fail { lines, error } => TurnModel::Fail {
                lines: text::views(lines@),
                error: error@,
            },
            Turn::Stop { lines } => TurnModel::Stop { lines: text::views(lines@) },
            Turn::Write { lines, plan, ask } => TurnModel::Write {
                lines: text::views(lines@),
                edits: plan@,
                ask,
            },
        }
    }
}

/// What is said of the gaps, of a run that tolerates them, and of one without
/// groups.
pub open spec fn opening_lines(
    report: Seq<(Seq<char>, OutcomeModel)>,
    blocked: bool,
    allow_partial: bool,
    no_groups: bool,
) -> Seq<Seq<char>> {
    let notes = apply::gap_report(report);
    notes_below(notes, notes.len() as int) + gate_lines(blocked, allow_partial, no_groups)
}

/// How far `patch` gets with a module whose bytes are `data`.
pub open spec fn turn_of(
    data: Seq<u8>,
    cfg: ConfigModel,
    gain_text: Seq<char>,
    allow_partial: bool,
    verbose: bool,
    dry_run: bool,
    yes: bool,
) -> TurnModel {
    let report = status::report_of(data);
    let gaps = apply::gaps_of(report);
    let blocked = apply::critical_below(gaps, gaps.len() as int).len() > 0;
    let no_groups = cfg.groups.len() == 0;
    let lines = opening_lines(report, blocked, allow_partial, no_groups);
    let edits = patch::plan_for(report, cfg, data);
    let errors = patch::errors_below(edits, data, edits.len() as int);
    let said = lines + plan_lines(edits, report, cfg, gain_text, verbose);
    if (blocked && !allow_partial) || no_groups {
        TurnModel::Stop { lines }
    } else if errors.len() > 0 {
        TurnModel::Fail { lines, error: apply::refusal(errors) }
    } else if edits.len() == 0 {
        TurnModel::Stop { lines: said }
    } else if dry_run {
        TurnModel::Stop { lines: said.push(DRY_RUN@) }
    } else {
        TurnModel::Write { lines: said, edits, ask: !yes }
    }
}

fn gap_lines(prepared: &apply::Prepared) -> (res: Vec<String>)
    requires
        prepared.wf(),
    ensures
        text::views(res@) == notes_below(
            apply::gap_report(prepared.report@),
            apply::gap_report(prepared.report@).len() as int,
        ),
{
    let notes = apply::report_gaps(prepared);
    let ghost all = apply::gap_report(prepared.report@);
    let mut out: Vec<String> = Vec::new();
    let mut i: usize = 0;
    assert(apply::note_views(notes@).len() == notes@.len());
    assert(text::views(out@) =~= notes_below(all, 0));
    while i < notes.len()
        invariant
            i <= notes@.len(),
            apply::note_views(notes@) == all,
            text::views(out@) == notes_below(all, i as int),
        decreases notes@.len() - i,
    {
        assert(apply::note_views(notes@)[i as int] == notes@[i as int]@);
        push_all(&mut out, note_lines(&notes[i]));
        i = i + 1;
    }
    out
}

/// Decide what `patch` does with one install. Everything the interface does, minus
/// the interface: the two share the planning precisely so that "patched" cannot
/// come to mean two things.
pub fn patch_one(
    prepared: &apply::Prepared,
    cfg: &Config,
    gain_text: &str,
    allow_partial: bool,
    verbose: bool,
    dry_run: bool,
    yes: bool,
) -> (res: Turn)
    requires
        prepared.wf(),
        cfg.wf(),
    ensures
        res@ == turn_of(
            prepared.data@,
            cfg@,
            gain_text@,
            allow_partial,
            verbose,
            dry_run,
            yes,
        ),
        res matches Turn::Write { plan, .. } ==> patch::in_range(
            plan@,
            prepared.data@.len() as int,
        ),
{
    let mut lines = gap_lines(prepared);
    assert(text::str_views(prepared.critical_missing@).len() == prepared.critical_missing@.len());
    assert(text::views(cfg.groups@).len() == cfg.groups@.len());
    let gate = missing_gate(prepared.blocked(), allow_partial, cfg.groups.len() == 0);
    push_all(&mut lines, gate.lines);
    if !gate.go {
        return Turn::Stop { lines };
    }
    let plan = match apply::plan(prepared, cfg) {
        Ok(plan) => plan,
        Err(error) => {
            return Turn::Fail { lines, error };
        },
    };
    let said = plan_gate(&plan, &prepared.report, cfg, gain_text, verbose);
    push_all(&mut lines, said.lines);
    if !said.go {
        return Turn::Stop { lines };
    }
    if dry_run {
        push_text(&mut lines, DRY_RUN.to_owned());
        return Turn::Stop { lines };
    }
    Turn::Write { lines, plan, ask: !yes }
}

/// Nothing is ever written on a dry run, nor where a site that decides mono versus
/// stereo is missing and that was not allowed; and what is written passed the check
/// against the bytes that are there.
pub proof fn law_patching_stops_where_it_must(
    data: Seq<u8>,
    cfg: ConfigModel,
    gain_text: Seq<char>,
    allow_partial: bool,
    verbose: bool,
    dry_run: bool,
    yes: bool,
)
    ensures
        turn_of(data, cfg, gain_text, allow_partial, verbose, dry_run, yes) matches TurnModel::Write {
            edits,
            ask,
            ..
        } ==> {
            let gaps = apply::gaps_of(status::report_of(data));
            &&& !dry_run
            &&& allow_partial || apply::critical_below(gaps, gaps.len() as int).len() == 0
            &&& edits.len() > 0
            &&& patch::errors_below(edits, data, edits.len() as int).len() == 0
            &&& ask == !yes
        },
{
}

/// The question before writing.
pub fn patch_prompt(node: &str) -> (res: String)
    ensures
        res@ == "  Patch "@ + node@ + "? [y/N] "@,
{
    cat3("  Patch ", node, "? [y/N] ")
}

/// A lower-case answer is a yes.
pub open spec fn means_yes(answer: Seq<char>) -> bool {
    answer == "y"@ || answer == "yes"@
}

/// Whether an answer in lower case is a yes.
pub fn is_yes(answer: &str) -> (res: bool)
    ensures
        res == means_yes(answer@),
{
    str_eq(answer, "y") || str_eq(answer, "yes")
}

/// Whether the line that was typed is a yes.
pub fn confirmed(line: &str) -> (res: bool)
    ensures
        res == means_yes(text::lowercase(text::trimmed(line@))),
{
    is_yes(to_lowercase(trim(line).as_str()).as_str())
}

pub const STEREO_SOURCE: &'static str =
    "Set input mode to a stereo source; a mono microphone still gives you\ntwo identical channels, which analysers report as mono.";

/// What is said at the end of `patch`.
pub fn patch_summary(patched: u64, dry_run: bool) -> (res: Vec<String>)
    ensures
        text::views(res@) == (if patched > 0 && !dry_run {
            seq![
                "Patched "@ + text::decimal(patched as nat)
                    + " install(s). Start Discord and re-join a voice channel."@,
                STEREO_SOURCE@,
            ]
        } else {
            seq![]
        }),
{
    let mut out: Vec<String> = Vec::new();
    if patched > 0 && !dry_run {
        push_text(
            &mut out,
            cat3(
                "Patched ",
                to_decimal(patched).as_str(),
                " install(s). Start Discord and re-join a voice channel.",
            ),
        );
        push_text(&mut out, STEREO_SOURCE.to_owned());
    }
    assert(text::views(out@) =~= if patched > 0 && !dry_run {
        seq![
            "Patched "@ + text::decimal(patched as nat)
                + " install(s). Start Discord and re-join a voice channel."@,
            STEREO_SOURCE@,
        ]
    } else {
        seq![]
    });
    out
}

// ---------------------------------------------------------------------------
// restore
// ---------------------------------------------------------------------------

/// What is to be done with one install.
#[derive(PartialEq, Eq, Clone, Copy, Structural)]
pub enum RestoreStep {
    /// It has no module.
    Skip,
    NoBackup,
    WouldRestore,
    Restore,
}

/// Decide what `restore` does with one install.
pub fn restore_step(has_node: bool, backup_exists: bool, dry_run: bool) -> (res: RestoreStep)
    ensures
        res == (if !has_node {
            RestoreStep::Skip
        } else if !backup_exists {
            RestoreStep::NoBackup
        } else if dry_run {
            RestoreStep::WouldRestore
        } else {
            RestoreStep::Restore
        }),
{
    if !has_node {
        RestoreStep::Skip
    } else if !backup_exists {
        RestoreStep::NoBackup
    } else if dry_run {
        RestoreStep::WouldRestore
    } else {
        RestoreStep::Restore
    }
}

/// What `restore` says of one install. `path` is the module, or where the backup
/// came from once it was restored.
pub fn restore_line(step: RestoreStep, label: &str, path: &str) -> (res: Option<String>)
    ensures
        res is None <==> step == RestoreStep::Skip,
        res matches Some(line) ==> line@ == label@ + (match step {
            RestoreStep::Skip => Seq::<char>::empty(),
            RestoreStep::NoBackup => ": no backup on record"@,
            RestoreStep::WouldRestore => ": would restore "@ + path@,
            RestoreStep::Restore => ": restored from "@ + path@,
        }),
{
    match step {
        RestoreStep::Skip => None,
        RestoreStep::NoBackup => Some(cat2(label, ": no backup on record")),
        RestoreStep::WouldRestore => {
            let tail = cat2(": would restore ", path);
            Some(cat2(label, tail.as_str()))
        },
        RestoreStep::Restore => {
            let tail = cat2(": restored from ", path);
            Some(cat2(label, tail.as_str()))
        },
    }
}

/// What `restore` says at its end.
pub fn restore_summary(done: u64, dry_run: bool) -> (res: Option<&'static str>)
    ensures
        res is Some <==> done == 0 && !dry_run,
        res matches Some(s) ==> s@ == "Nothing restored."@,
{
    if done == 0 && !dry_run {
        Some("Nothing restored.")
    } else {
        None
    }
}

// ---------------------------------------------------------------------------
// groups
// ---------------------------------------------------------------------------

pub const GROUPS_INTRO: &'static str =
    "Patch groups. The interface offers these as checkboxes; on the command\nline --groups picks them, and --groups all selects every one.\n";

/// How many of the first `n` sites belong to the group.
pub open spec fn members_below(group: Seq<char>, n: int) -> int
    decreases n,
{
    if n <= 0 {
        0
    } else {
        members_below(group, n - 1) + if sites::catalogue()[n - 1].group == group {
            1int
        } else {
            0
        }
    }
}

/// How many sites belong to the group.
pub fn members(group: &str) -> (res: usize)
    ensures
        res == members_below(group@, sites::catalogue().len() as int),
        res <= sites::SITE_COUNT,
{
    let list = sites::sites();
    let ghost cat = sites::catalogue();
    let mut n: usize = 0;
    let mut i: usize = 0;
    assert(sites::models(list@).len() == cat.len());
    while i < list.len()
        invariant
            i <= list@.len(),
            n <= i,
            list@.len() == sites::SITE_COUNT,
            cat == sites::catalogue(),
            sites::models(list@) == cat,
            n == members_below(group@, i as int),
        decreases list@.len() - i,
    {
        let site: &'static Site = list[i];
        assert(cat[i as int] == sites::models(list@)[i as int]);
        if str_eq(site.group, group) {
            n = n + 1;
        }
        i = i + 1;
    }
    n
}

/// A text wrapped to 70 columns, each line behind `lead`.
pub open spec fn led_lines(lead: Seq<char>, s: Seq<char>) -> Seq<Seq<char>> {
    text::wrapped(s, 70).map_values(|l: Seq<char>| lead + l)
}

/// What is said of one group.
pub open spec fn group_lines(g: GroupModel) -> Seq<Seq<char>> {
    let n = members_below(g.name, sites::catalogue().len() as int);
    (seq![
        "  "@ + text::padded(g.name, 12) + " "@ + g.title + "  ("@ + text::decimal(n as nat) + (
        if n == 1 {
            " change, "@
        } else {
            " changes, "@
        }) + (if g.default_on {
            "on by default)"@
        } else {
            "off by default)"@
        }),
    ] + led_lines("               "@, g.summary) + (match g.caveat {
        Some(c) => led_lines("               ! "@, c),
        None => seq![],
    })).push(seq![])
}

/// What is said of the first `n` groups.
pub open spec fn group_lines_below(n: int) -> Seq<Seq<char>>
    decreases n,
{
    if n <= 0 {
        seq![]
    } else {
        group_lines_below(n - 1) + group_lines(groups::group_catalogue()[n - 1])
    }
}

fn push_led(out: &mut Vec<String>, lead: &str, s: &str)
    ensures
        text::views(final(out)@) == text::views(old(out)@) + led_lines(lead@, s@),
{
    let ghost before = text::views(out@);
    let ghost all = led_lines(lead@, s@);
    let lines = wrap_plain(s, 70);
    let mut i: usize = 0;
    assert(text::views(lines@).len() == lines@.len());
    assert(before + all.take(0) =~= before);
    while i < lines.len()
        invariant
            i <= lines@.len(),
            text::views(lines@) == text::wrapped(s@, 70),
            all == led_lines(lead@, s@),
            all.len() == lines@.len(),
            text::views(out@) == before + all.take(i as int),
        decreases lines@.len() - i,
    {
        assert(text::views(lines@)[i as int] == lines@[i as int]@);
        let line = cat2(lead, lines[i].as_str());
        assert(all[i as int] == line@);
        assert(before + all.take(i + 1) =~= (before + all.take(i as int)).push(line@));
        push_text(out, line);
        i = i + 1;
    }
    assert(all.take(i as int) =~= all);
}

fn push_group(out: &mut Vec<String>, g: &'static Group)
    ensures
        text::views(final(out)@) == text::views(old(out)@) + group_lines(g@),
{
    let ghost before = text::views(out@);
    let n: usize = members(g.name);
    let plural = if n == 1 {
        " change, "
    } else {
        " changes, "
    };
    let state = if g.default_on {
        "on by default)"
    } else {
        "off by default)"
    };
    let head = cat5("  ", pad(g.name, 12).as_str(), " ", g.title, "  (");
    push_text(out, cat4(head.as_str(), to_decimal(n as u64).as_str(), plural, state));
    let ghost first = text::views(out@);
    push_led(out, "               ", g.summary);
    let ghost second = text::views(out@);
    assert(second + Seq::<Seq<char>>::empty() =~= second);
    if let Some(c) = g.caveat {
        push_led(out, "               ! ", c);
    }
    let blank = String::new();
    assert(blank@ =~= Seq::<char>::empty());
    push_text(out, blank);
    assert(text::views(out@) =~= before + group_lines(g@));
}

/// The same text the interface shows beside each checkbox, for anyone reading
/// the tool rather than driving it.
pub fn groups_listing() -> (res: Vec<String>)
    ensures
        text::views(res@) == seq![GROUPS_INTRO@] + group_lines_below(groups::GROUP_COUNT as int),
{
    let list = groups::groups();
    let mut out: Vec<String> = Vec::new();
    push_text(&mut out, GROUPS_INTRO.to_owned());
    let ghost head = text::views(out@);
    assert(head =~= seq![GROUPS_INTRO@]);
    let mut i: usize = 0;
    assert(groups::group_models(list@).len() == groups::GROUP_COUNT);
    assert(head + group_lines_below(0) =~= head);
    while i < list.len()
        invariant
            i <= list@.len(),
            groups::group_models(list@) == groups::group_catalogue(),
            text::views(out@) == head + group_lines_below(i as int),
        decreases list@.len() - i,
    {
        let g: &'static Group = list[i];
        assert(groups::group_models(list@)[i as int] == g@);
        push_group(&mut out, g);
        assert(text::views(out@) =~= head + group_lines_below(i + 1));
        i = i + 1;
    }
    out
}

// ---------------------------------------------------------------------------
// backups
// ---------------------------------------------------------------------------

/// One backup on record.
pub struct Entry {
    pub path: String,
    pub size: u64,
}

pub open spec fn entry_line(e: Entry) -> Seq<char> {
    "  "@ + text::padded_left(text::decimal(e.size as nat), 12) + " bytes  "@ + e.path@
}

/// The backups in `dir`.
pub fn backups_listing(dir: &str, entries: &Vec<Entry>) -> (res: Vec<String>)
    ensures
        text::views(res@) == (if entries@.len() == 0 {
            seq!["No backups in "@ + dir@]
        } else {
            seq![dir@] + entries@.map_values(|e: Entry| entry_line(e))
        }),
{
    let mut out: Vec<String> = Vec::new();
    if entries.len() == 0 {
        push_text(&mut out, cat2("No backups in ", dir));
        assert(text::views(out@) =~= seq!["No backups in "@ + dir@]);
        return out;
    }
    push_text(&mut out, dir.to_owned());
    let ghost head = text::views(out@);
    assert(head =~= seq![dir@]);
    let ghost all = entries@.map_values(|e: Entry| entry_line(e));
    let mut i: usize = 0;
    assert(head + all.take(0) =~= head);
    while i < entries.len()
        invariant
            i <= entries@.len(),
            all == entries@.map_values(|e: Entry| entry_line(e)),
            text::views(out@) == head + all.take(i as int),
        decreases entries@.len() - i,
    {
        let line = cat4(
            "  ",
            pad_left(to_decimal(entries[i].size).as_str(), 12).as_str(),
            " bytes  ",
            entries[i].path.as_str(),
        );
        assert(all[i as int] == line@);
        assert(head + all.take(i + 1) =~= (head + all.take(i as int)).push(line@));
        push_text(&mut out, line);
        i = i + 1;
    }
    assert(all.take(i as int) =~= all);
    out
}

} // verus!

//! Patching one install, with the decisions left to the caller.
//!
//! Both front ends drive the same steps in the same order, and the order is
//! load-bearing: a module is never patched twice, the backup is taken before
//! the first write, and the file is read back afterwards. Keeping that
//! sequence in one place is the only way the terminal UI and the command line
//! cannot drift into disagreeing about what "patched" means.
//!
//! What the caller supplies is the judgement in the middle (which groups, and
//! whether to go ahead) because that is the part that looks completely
//! different behind a prompt and behind a picker, and the reading and writing of
//! files. Everything either side of it is here.

pub mod laws;

use crate::elf;
use crate::md5;
use crate::patch;
use crate::patch::{Config, ConfigModel, EditModel, Plan, State};
use crate::resolve;
use crate::resolve::{Outcome, OutcomeModel, Report};
use crate::sites;
use crate::status;
use crate::text;
use crate::text::{cat2, cat3, cat4, cat5, join, join_strs, str_eq, to_decimal};
use vstd::prelude::*;

verus! {

/// A line worth showing, and how much attention it deserves.
pub enum Note {
    Info(String),
    Good(String),
    Warn(String),
    Bad(String),
}

#[verifier::ext_equal]
pub enum NoteModel {
    Info(Seq<char>),
    Good(Seq<char>),
    Warn(Seq<char>),
    Bad(Seq<char>),
}

impl View for Note {
    type V = NoteModel;

    open spec fn view(&self) -> NoteModel {
        match *self {
            Note::Info(s) => NoteModel::Info(s@),
            Note::Good(s) => NoteModel::Good(s@),
            Note::Warn(s) => NoteModel::Warn(s@),
            Note::Bad(s) => NoteModel::Bad(s@),
        }
    }
}

pub open spec fn note_views(notes: Seq<Note>) -> Seq<NoteModel> {
    notes.map_values(|n: Note| n@)
}

/// The text of a note.
pub open spec fn note_text(note: NoteModel) -> Seq<char> {
    match note {
        NoteModel::Info(s) => s,
        NoteModel::Good(s) => s,
        NoteModel::Warn(s) => s,
        NoteModel::Bad(s) => s,
    }
}

impl Note {
    /// The text of the note.
    pub fn text(&self) -> (res: &String)
        ensures
            res@ == note_text(self@),
    {
        match self {
            Note::Info(s) => s,
            Note::Good(s) => s,
            Note::Warn(s) => s,
            Note::Bad(s) => s,
        }
    }
}

// ---------------------------------------------------------------------------
// Starting from a stock module
// ---------------------------------------------------------------------------

/// The module, loaded and known to be stock.
pub struct Prepared {
    pub data: Vec<u8>,
    pub report: Report,
    /// Real gaps, excluding the ones this build does not need.
    pub missing: Vec<&'static str>,
    /// Gaps that decide mono versus stereo.
    pub critical_missing: Vec<&'static str>,
}

/// The names among the first `n` that have no excuse.
pub open spec fn unexcused_below(
    report: Seq<(Seq<char>, OutcomeModel)>,
    names: Seq<Seq<char>>,
    n: int,
) -> Seq<Seq<char>>
    decreases n,
{
    if n <= 0 {
        seq![]
    } else if resolve::excuse_for(report, names[n - 1]) is None {
        unexcused_below(report, names, n - 1).push(names[n - 1])
    } else {
        unexcused_below(report, names, n - 1)
    }
}

/// The real gaps of a report: what is missing and has no excuse.
pub open spec fn gaps_of(report: Seq<(Seq<char>, OutcomeModel)>) -> Seq<Seq<char>> {
    let all = resolve::missing_below(report, report.len() as int);
    unexcused_below(report, all, all.len() as int)
}

/// The site of that name decides mono versus stereo. One that is not known is
/// taken to.
pub open spec fn is_critical(name: Seq<char>) -> bool {
    match patch::known_site(name) {
        Some(site) => site.critical,
        None => true,
    }
}

/// The names among the first `n` that decide mono versus stereo.
pub open spec fn critical_below(names: Seq<Seq<char>>, n: int) -> Seq<Seq<char>>
    decreases n,
{
    if n <= 0 {
        seq![]
    } else if is_critical(names[n - 1]) {
        critical_below(names, n - 1).push(names[n - 1])
    } else {
        critical_below(names, n - 1)
    }
}

impl Prepared {
    /// Everything that is said about the module is what its bytes give.
    pub open spec fn wf(&self) -> bool {
        &&& self.report.wf()
        &&& self.report.plain()
        &&& self.report@ == status::report_of(self.data@)
        &&& text::str_views(self.missing@) == gaps_of(self.report@)
        &&& text::str_views(self.critical_missing@) == critical_below(
            gaps_of(self.report@),
            gaps_of(self.report@).len() as int,
        )
    }

    /// Whether patching would leave stereo half-done.
    pub fn blocked(&self) -> (res: bool)
        ensures
            res == (self.critical_missing@.len() > 0),
    {
        self.critical_missing.len() > 0
    }
}

fn report_on(data: &[u8]) -> (res: Report)
    ensures
        res.wf(),
        res.plain(),
        res@ == status::report_of(data@),
{
    match elf::symbols(data) {
        Some(syms) => resolve::resolve_all(data, Some(&syms)),
        None => resolve::resolve_all(data, None),
    }
}

/// What a module is, by its bytes alone.
pub fn state_of_module(data: &[u8]) -> (res: State)
    ensures
        res == patch::state_of(data@, status::report_of(data@)),
{
    let report = report_on(data);
    patch::classify(data, &report)
}

/// The first thing that is said about a module: its size and digest.
pub open spec fn size_note(data: Seq<u8>) -> NoteModel {
    NoteModel::Info(text::decimal(data.len()) + " bytes, md5 "@ + md5::hex_digest(data))
}

pub fn loaded_note(data: &[u8]) -> (res: Note)
    ensures
        res@ == size_note(data@),
{
    Note::Info(cat3(to_decimal(data.len() as u64).as_str(), " bytes, md5 ", md5::hex(data).as_str()))
}

/// How a run goes on once the module has been read.
pub enum Start {
    /// The module is stock.
    Ready,
    /// It is not, and there is nothing to put back.
    Refused(String),
    /// It is not; read the backup in its place, writing nothing.
    ReadBackup(Note),
    /// It is not; put the backup back and read the module again.
    Restore,
}

pub const ORIGINAL_GONE: &'static str =
    ", and no backup is on record here.\nIts original instructions are gone, so there is nothing left to patch against. Delete the module and start Discord so it re-downloads a stock one, then patch.";

/// Decide how a run starts.
///
/// Re-patching a patched binary would compound edits, and for the injected
/// filters the original bytes are simply gone, so every run starts from a stock
/// file or does not start at all. A dry run reads the backup rather than writing
/// it: resolving the still-patched file would report a build as unpatchable when
/// it is nothing of the sort.
pub fn start(was: State, shown: &str, backup_exists: bool, dry_run: bool) -> (res: Start)
    ensures
        res is Ready <==> was == State::Stock,
        res is Refused <==> was != State::Stock && !backup_exists,
        res matches Start::Refused(e) ==> e@ == shown@ + " is "@ + patch::state_text(was)
            + ORIGINAL_GONE@,
        res is ReadBackup <==> was != State::Stock && backup_exists && dry_run,
        res matches Start::ReadBackup(n) ==> n@ == NoteModel::Info(
            patch::state_text(was) + "; would restore the backup first"@,
        ),
        res is Restore <==> was != State::Stock && backup_exists && !dry_run,
{
    if was == State::Stock {
        return Start::Ready;
    }
    let state = was.to_text();
    if !backup_exists {
        return Start::Refused(cat4(shown, " is ", state.as_str(), ORIGINAL_GONE));
    }
    if dry_run {
        Start::ReadBackup(Note::Info(cat2(state.as_str(), "; would restore the backup first")))
    } else {
        Start::Restore
    }
}

/// What is said once the backup at `src` has been put back.
pub fn restored_note(was: State, src: &str) -> (res: Note)
    ensures
        res@ == NoteModel::Info(patch::state_text(was) + "; restored "@ + src@ + " first"@),
{
    Note::Info(cat4(was.to_text().as_str(), "; restored ", src, " first"))
}

/// The real gaps of a report: what is missing and has no excuse.
pub fn real_gaps(report: &Report) -> (res: Vec<&'static str>)
    requires
        report.wf(),
    ensures
        text::str_views(res@) == gaps_of(report@),
{
    let all = report.missing();
    let ghost names = text::str_views(all@);
    let mut missing: Vec<&'static str> = Vec::new();
    let mut i: usize = 0;
    while i < all.len()
        invariant
            i <= all@.len(),
            report.wf(),
            names == text::str_views(all@),
            text::str_views(missing@) == unexcused_below(report@, names, i as int),
        decreases all@.len() - i,
    {
        assert(names[i as int] == all@[i as int]@);
        if report.excused(all[i]).is_none() {
            assert(text::str_views(missing@.push(all@[i as int])) =~= text::str_views(
                missing@,
            ).push(all@[i as int]@));
            missing.push(all[i]);
        }
        i = i + 1;
    }
    missing
}

/// Those of the gaps that decide mono versus stereo.
pub fn critical_gaps(gaps: &Vec<&'static str>) -> (res: Vec<&'static str>)
    ensures
        text::str_views(res@) == critical_below(text::str_views(gaps@), gaps@.len() as int),
{
    let ghost names = text::str_views(gaps@);
    let mut critical: Vec<&'static str> = Vec::new();
    let mut k: usize = 0;
    while k < gaps.len()
        invariant
            k <= gaps@.len(),
            names == text::str_views(gaps@),
            text::str_views(critical@) == critical_below(names, k as int),
        decreases gaps@.len() - k,
    {
        assert(names[k as int] == gaps@[k as int]@);
        if critical_site(gaps[k]) {
            assert(text::str_views(critical@.push(gaps@[k as int])) =~= text::str_views(
                critical@,
            ).push(gaps@[k as int]@));
            critical.push(gaps[k]);
        }
        k = k + 1;
    }
    critical
}

/// Take stock of the module that a run starts from.
pub fn prepare(data: Vec<u8>) -> (res: Prepared)
    ensures
        res.data@ == data@,
        res.wf(),
{
    let report = report_on(data.as_slice());
    let missing = real_gaps(&report);
    let critical_missing = critical_gaps(&missing);
    Prepared { data, report, missing, critical_missing }
}

fn critical_site(name: &str) -> (res: bool)
    ensures
        res == is_critical(name@),
{
    match sites::find(name) {
        Some(site) => {
            proof {
                patch::lemma_known_site(site@, name@);
            }
            site.critical
        },
        None => true,
    }
}

// ---------------------------------------------------------------------------
// Saying what could not be located
// ---------------------------------------------------------------------------

pub const HALF_DONE: &'static str =
    " of the missing sites decide whether audio is mono or stereo. A partial patch here would negotiate stereo and still send one channel.";

/// What is said about one site that was not found.
pub open spec fn gap_note(
    report: Seq<(Seq<char>, OutcomeModel)>,
    name: Seq<char>,
) -> NoteModel {
    match resolve::excuse_for(report, name) {
        Some(note) => NoteModel::Info("n/a  "@ + name + " — "@ + note),
        None => match resolve::lookup(report, name) {
            Some(OutcomeModel::Ambiguous { found, wanted }) => NoteModel::Warn(
                "AMBIG  "@ + name + (" (matched "@ + text::decimal(found as nat) + ", expected "@
                    + wanted + ")"@),
            ),
            _ => NoteModel::Warn("MISSING  "@ + name),
        },
    }
}

/// What is said about the first `n` sites that were not found.
pub open spec fn gap_notes_below(
    report: Seq<(Seq<char>, OutcomeModel)>,
    names: Seq<Seq<char>>,
    n: int,
) -> Seq<NoteModel>
    decreases n,
{
    if n <= 0 {
        seq![]
    } else {
        gap_notes_below(report, names, n - 1).push(gap_note(report, names[n - 1]))
    }
}

/// What the gaps of a report cost.
pub open spec fn cost_note(gaps: Seq<Seq<char>>) -> NoteModel {
    let critical = critical_below(gaps, gaps.len() as int);
    if critical.len() > 0 {
        NoteModel::Bad(text::decimal(critical.len()) + HALF_DONE@)
    } else if gaps.len() == 0 {
        NoteModel::Good("everything this build needs resolved"@)
    } else {
        NoteModel::Info(
            "all stereo-critical sites resolved; the rest are quality refinements"@,
        )
    }
}

/// What is said about a report: what could not be located, and what that costs.
pub open spec fn gap_report(report: Seq<(Seq<char>, OutcomeModel)>) -> Seq<NoteModel> {
    let all = resolve::missing_below(report, report.len() as int);
    if all.len() == 0 {
        seq![NoteModel::Good("all "@ + text::decimal(report.len()) + " sites located"@)]
    } else {
        (seq![
            NoteModel::Info(
                text::decimal((report.len() - all.len()) as nat) + " of "@ + text::decimal(
                    report.len(),
                ) + " sites located"@,
            ),
        ] + gap_notes_below(report, all, all.len() as int)).push(cost_note(gaps_of(report)))
    }
}

proof fn lemma_missing_below_len(report: Seq<(Seq<char>, OutcomeModel)>, n: int)
    requires
        0 <= n,
    ensures
        resolve::missing_below(report, n).len() <= n,
    decreases n,
{
    if n > 0 {
        lemma_missing_below_len(report, n - 1);
    }
}

fn one_gap(report: &Report, name: &'static str) -> (res: Note)
    requires
        report.wf(),
    ensures
        res@ == gap_note(report@, name@),
{
    if let Some(note) = report.excused(name) {
        return Note::Info(cat4("n/a  ", name, " — ", note));
    }
    match report.outcome(name) {
        Some(Outcome::Ambiguous { found, wanted }) => {
            let detail = cat5(
                " (matched ",
                to_decimal(*found as u64).as_str(),
                ", expected ",
                wanted.as_str(),
                ")",
            );
            Note::Warn(cat3("AMBIG  ", name, detail.as_str()))
        },
        _ => Note::Warn(cat2("MISSING  ", name)),
    }
}

/// Say what could not be located, and what that costs.
pub fn report_gaps(p: &Prepared) -> (res: Vec<Note>)
    requires
        p.wf(),
    ensures
        note_views(res@) == gap_report(p.report@),
{
    let all = p.report.missing();
    let total: usize = p.report.order.len();
    let ghost names = text::str_views(all@);
    let ghost report = p.report@;
    assert(names.len() == all@.len());
    let mut out: Vec<Note> = Vec::new();
    if all.len() == 0 {
        out.push(Note::Good(cat3("all ", to_decimal(total as u64).as_str(), " sites located")));
        assert(note_views(out@) =~= gap_report(report));
        return out;
    }
    proof {
        lemma_missing_below_len(report, report.len() as int);
    }
    out.push(
        Note::Info(
            cat4(
                to_decimal((total - all.len()) as u64).as_str(),
                " of ",
                to_decimal(total as u64).as_str(),
                " sites located",
            ),
        ),
    );
    let ghost first = note_views(out@);
    let mut i: usize = 0;
    assert(first + gap_notes_below(report, names, 0) =~= first);
    while i < all.len()
        invariant
            i <= all@.len(),
            p.wf(),
            report == p.report@,
            names == text::str_views(all@),
            note_views(out@) == first + gap_notes_below(report, names, i as int),
        decreases all@.len() - i,
    {
        assert(names[i as int] == all@[i as int]@);
        let note = one_gap(&p.report, all[i]);
        assert(note_views(out@.push(note)) =~= note_views(out@).push(note@));
        assert(first + gap_notes_below(report, names, i + 1) =~= (first + gap_notes_below(
            report,
            names,
            i as int,
        )).push(note@));
        out.push(note);
        i = i + 1;
    }
    let ghost gaps = gaps_of(report);
    assert(gaps == text::str_views(p.missing@));
    assert(gaps.len() == p.missing@.len());
    let ghost critical = critical_below(gaps, gaps.len() as int);
    assert(critical.len() == p.critical_missing@.len()) by {
        assert(critical == text::str_views(p.critical_missing@));
    }
    let last = if p.blocked() {
        Note::Bad(cat2(to_decimal(p.critical_missing.len() as u64).as_str(), HALF_DONE))
    } else if p.missing.len() == 0 {
        Note::Good("everything this build needs resolved".to_owned())
    } else {
        Note::Info(
            "all stereo-critical sites resolved; the rest are quality refinements".to_owned(),
        )
    };
    assert(note_views(out@.push(last)) =~= note_views(out@).push(last@));
    out.push(last);
    assert(first =~= seq![
        NoteModel::Info(
            text::decimal((report.len() - names.len()) as nat) + " of "@ + text::decimal(
                report.len(),
            ) + " sites located"@,
        ),
    ]);
    out
}

// ---------------------------------------------------------------------------
// Planning
// ---------------------------------------------------------------------------

pub const UNEXPECTED_BYTES: &'static str =
    "signature matched unexpected bytes; nothing was written.\n";

pub const REPORT_BUILD: &'static str =
    "\nPlease report the build (size and md5 above) so the catalogue can be updated.";

/// The refusal of a plan whose edits fail the check.
pub open spec fn refusal(errors: Seq<patch::CheckErrorModel>) -> Seq<char> {
    UNEXPECTED_BYTES@ + text::joined(
        errors.map_values(|e: patch::CheckErrorModel| patch::error_text(e)),
        "\n"@,
    ) + REPORT_BUILD@
}

/// Build the plan and check it against the bytes actually present.
pub fn plan(p: &Prepared, cfg: &Config) -> (res: Result<Plan, String>)
    requires
        p.wf(),
        cfg.wf(),
    ensures
        ({
            let edits = patch::plan_for(p.report@, cfg@, p.data@);
            let errors = patch::errors_below(edits, p.data@, edits.len() as int);
            &&& res is Ok <==> errors.len() == 0
            &&& res matches Ok(plan) ==> plan@ == edits && patch::in_range(
                edits,
                p.data@.len() as int,
            )
            &&& res matches Err(e) ==> e@ == refusal(errors)
        }),
{
    let plan = patch::build(&p.report, cfg, p.data.as_slice());
    let errors = patch::check(&plan, p.data.as_slice());
    let ghost all = patch::error_views(errors@);
    assert(all.len() == errors@.len());
    if errors.len() > 0 {
        let ghost texts = all.map_values(|e: patch::CheckErrorModel| patch::error_text(e));
        let mut detail: Vec<String> = Vec::new();
        let mut i: usize = 0;
        while i < errors.len()
            invariant
                i <= errors@.len(),
                all == patch::error_views(errors@),
                texts == all.map_values(|e: patch::CheckErrorModel| patch::error_text(e)),
                text::views(detail@) == texts.take(i as int),
            decreases errors@.len() - i,
        {
            let s = errors[i].to_text();
            assert(all[i as int] == errors@[i as int]@);
            assert(text::views(detail@.push(s)) =~= text::views(detail@).push(s@));
            assert(texts.take(i + 1) =~= texts.take(i as int).push(texts[i as int]));
            detail.push(s);
            i = i + 1;
        }
        assert(texts.take(i as int) =~= texts);
        return Err(cat3(UNEXPECTED_BYTES, join(&detail, "\n").as_str(), REPORT_BUILD));
    }
    proof {
        assert forall|k: int| 0 <= k < plan@.len() implies 0 <= (#[trigger] plan@[k]).offset by {
            assert(plan@[k] == plan.edits@[k]@);
        }
        patch::law_checked_plans_fit(plan@, p.data@);
    }
    Ok(plan)
}

// ---------------------------------------------------------------------------
// What a plan does
// ---------------------------------------------------------------------------

/// Some edit of the plan belongs to the group.
pub open spec fn touches_group(edits: Seq<EditModel>, group: Seq<char>) -> bool {
    exists|k: int| 0 <= k < edits.len() && (#[trigger] edits[k]).group == group
}

/// Some edit of the plan is at the site.
pub open spec fn touches_site(edits: Seq<EditModel>, site: Seq<char>) -> bool {
    exists|k: int| 0 <= k < edits.len() && (#[trigger] edits[k]).site == site
}

fn has_group(plan: &Plan, group: &str) -> (res: bool)
    ensures
        res == touches_group(plan@, group@),
{
    let mut k: usize = 0;
    while k < plan.edits.len()
        invariant
            k <= plan.edits@.len(),
            forall|j: int| 0 <= j < k ==> (#[trigger] plan@[j]).group != group@,
        decreases plan.edits@.len() - k,
    {
        assert(plan@[k as int] == plan.edits@[k as int]@);
        if str_eq(plan.edits[k].group, group) {
            return true;
        }
        k = k + 1;
    }
    false
}

fn has_site(plan: &Plan, site: &str) -> (res: bool)
    ensures
        res == touches_site(plan@, site@),
{
    let mut k: usize = 0;
    while k < plan.edits.len()
        invariant
            k <= plan.edits@.len(),
            forall|j: int| 0 <= j < k ==> (#[trigger] plan@[j]).site != site@,
        decreases plan.edits@.len() - k,
    {
        assert(plan@[k as int] == plan.edits@[k as int]@);
        if str_eq(plan.edits[k].site, site) {
            return true;
        }
        k = k + 1;
    }
    false
}

/// `item`, if `wanted`.
pub open spec fn only_if(wanted: bool, item: Seq<char>) -> Seq<Seq<char>> {
    if wanted {
        seq![item]
    } else {
        seq![]
    }
}

/// "Filterless" means both Opus input filters are out of the path. That can
/// happen three ways per filter: the function was replaced, its coefficient was
/// neutralised, or the build cannot reach it at all. All three count, otherwise a
/// fully-bypassed build reports as a partial one. The last is so only where the
/// plan also patches the site that makes the filter unreachable.
pub open spec fn filter_effect(
    edits: Seq<EditModel>,
    report: Seq<(Seq<char>, OutcomeModel)>,
    cfg: ConfigModel,
    gain_text: Seq<char>,
) -> Seq<Seq<char>> {
    let high_pass = touches_site(edits, "HpCutoff_Inject"@) || (resolve::excuse_for(
        report,
        "HpCutoff_Inject"@,
    ) is Some && touches_site(edits, "OpusConfig_Application"@));
    let dc = touches_site(edits, "DcReject_Inject"@) || touches_site(
        edits,
        "DcReject_Coefficient"@,
    );
    if high_pass && dc {
        if cfg.gain != patch::UNITY_GAIN {
            seq!["filters bypassed (gain x"@ + gain_text + ")"@]
        } else {
            seq!["filters bypassed"@]
        }
    } else {
        only_if(
            touches_group(edits, "filter"@),
            "high-pass bypassed (opus filters still active)"@,
        )
    }
}

/// Whether the network adaptor's mid-call downgrade is blocked is said separately.
/// A build where that site did not apply still starts the call in stereo and can
/// fall back to mono once the uplink estimate dips, which sounds like the patch
/// wearing off rather than like what it is.
pub open spec fn stereo_effect(edits: Seq<EditModel>) -> Seq<char> {
    if touches_site(edits, "ChannelController_ForceStereo"@) {
        "stereo (held against the network adaptor)"@
    } else {
        "stereo"@
    }
}

/// What a plan does other than to the filters.
pub open spec fn other_effects(edits: Seq<EditModel>, cfg: ConfigModel) -> Seq<Seq<char>> {
    only_if(touches_group(edits, "stereo"@), stereo_effect(edits)) + only_if(
        touches_group(edits, "samplerate"@),
        "48 kHz"@,
    ) + only_if(
        touches_group(edits, "bitrate"@),
        text::decimal(cfg.bitrate_kbps as nat) + " kbps"@,
    ) + only_if(touches_group(edits, "opus"@), "audio mode"@) + only_if(
        touches_group(edits, "encoder"@),
        "FEC/DTX off, complexity 10, fullband"@,
    ) + only_if(touches_group(edits, "celt"@), "CELT"@) + only_if(
        touches_group(edits, "gain"@),
        "no auto-gain"@,
    ) + only_if(touches_group(edits, "denoise"@), "no noise removal"@) + only_if(
        touches_group(edits, "echo"@),
        "no echo cancellation"@,
    ) + only_if(touches_group(edits, "cbr"@), "constant bitrate"@)
}

/// What a plan does, in the words the picker uses. `gain_text` is the gain as it
/// is shown.
pub open spec fn effects_of(
    edits: Seq<EditModel>,
    report: Seq<(Seq<char>, OutcomeModel)>,
    cfg: ConfigModel,
    gain_text: Seq<char>,
) -> Seq<Seq<char>> {
    other_effects(edits, cfg) + filter_effect(edits, report, cfg, gain_text)
}

fn push_if(out: &mut Vec<String>, wanted: bool, item: &str)
    ensures
        text::views(final(out)@) == text::views(old(out)@) + only_if(wanted, item@),
{
    let ghost before = text::views(out@);
    if wanted {
        let s = item.to_owned();
        assert(text::views(out@.push(s)) =~= before + only_if(wanted, item@));
        out.push(s);
    } else {
        assert(before + only_if(wanted, item@) =~= before);
    }
}

/// What this plan actually does, in the words the picker uses.
///
/// Built from the edits that are really in the plan rather than from the
/// groups that were asked for: on a build where a site could not be located,
/// claiming the filters are bypassed when they were skipped is exactly the
/// kind of quiet overstatement this tool exists to avoid.
pub fn effects(plan: &Plan, report: &Report, cfg: &Config, gain_text: &str) -> (res: Vec<String>)
    requires
        report.wf(),
    ensures
        text::views(res@) == effects_of(plan@, report@, cfg@, gain_text@),
{
    let mut out: Vec<String> = Vec::new();
    assert(text::views(out@) =~= Seq::<Seq<char>>::empty());
    let stereo = if has_site(plan, "ChannelController_ForceStereo") {
        "stereo (held against the network adaptor)"
    } else {
        "stereo"
    };
    push_if(&mut out, has_group(plan, "stereo"), stereo);
    push_if(&mut out, has_group(plan, "samplerate"), "48 kHz");
    let rate = cat2(to_decimal(cfg.bitrate_kbps as u64).as_str(), " kbps");
    push_if(&mut out, has_group(plan, "bitrate"), rate.as_str());
    push_if(&mut out, has_group(plan, "opus"), "audio mode");
    push_if(&mut out, has_group(plan, "encoder"), "FEC/DTX off, complexity 10, fullband");
    push_if(&mut out, has_group(plan, "celt"), "CELT");
    push_if(&mut out, has_group(plan, "gain"), "no auto-gain");
    push_if(&mut out, has_group(plan, "denoise"), "no noise removal");
    push_if(&mut out, has_group(plan, "echo"), "no echo cancellation");
    push_if(&mut out, has_group(plan, "cbr"), "constant bitrate");
    let high_pass = has_site(plan, "HpCutoff_Inject") || (report.excused(
        "HpCutoff_Inject",
    ).is_some() && has_site(plan, "OpusConfig_Application"));
    let dc = has_site(plan, "DcReject_Inject") || has_site(plan, "DcReject_Coefficient");
    if high_pass && dc {
        if cfg.gain != patch::UNITY_GAIN {
            let s = cat3("filters bypassed (gain x", gain_text, ")");
            push_if(&mut out, true, s.as_str());
        } else {
            push_if(&mut out, true, "filters bypassed");
        }
    } else {
        push_if(
            &mut out,
            has_group(plan, "filter"),
            "high-pass bypassed (opus filters still active)",
        );
    }
    assert(text::views(out@) =~= effects_of(plan@, report@, cfg@, gain_text@));
    out
}

// ---------------------------------------------------------------------------
// Committing
// ---------------------------------------------------------------------------

/// A backup of the module is on record. The bytes to write are only handed out
/// against one of these, so nothing is written before the backup is taken.
pub struct BackedUp {
    pub note: Note,
}

/// What is said of the backup at `path`.
pub fn backed_up(created: bool, path: &str) -> (res: BackedUp)
    ensures
        res.note@ == NoteModel::Info(
            "backup "@ + (if created {
                "written to"@
            } else {
                "already at"@
            }) + " "@ + path@,
        ),
{
    let how = if created {
        "written to"
    } else {
        "already at"
    };
    BackedUp { note: Note::Info(cat4("backup ", how, " ", path)) }
}

/// The bytes of the patched module.
pub fn patched(_backup: &BackedUp, p: Prepared, plan: &Plan) -> (res: Vec<u8>)
    requires
        patch::in_range(plan@, p.data@.len() as int),
    ensures
        res@ == patch::applied(plan@, p.data@),
{
    let mut data = p.data;
    patch::apply(plan, data.as_mut_slice());
    data
}

pub const VERIFY_TAIL: &'static str =
    ". Restore the original to get back to a known state.";

/// The complaint about edits that did not read back.
pub open spec fn unverified(names: Seq<Seq<char>>) -> Seq<char> {
    "verification failed after writing: "@ + text::joined(names, ", "@) + VERIFY_TAIL@
}

/// Judge the module as it was read back: its digest, where every edit is in it.
pub fn verified(plan: &Plan, readback: &[u8]) -> (res: Result<String, String>)
    ensures
        ({
            let failed = patch::unwritten_below(plan@, readback@, plan@.len() as int);
            &&& res is Ok <==> failed.len() == 0
            &&& res matches Ok(sum) ==> sum@ == md5::hex_digest(readback@)
            &&& res matches Err(e) ==> e@ == unverified(failed)
        }),
{
    let failed = patch::verify(plan, readback);
    assert(text::str_views(failed@).len() == failed@.len());
    if failed.len() > 0 {
        Err(
            cat3(
                "verification failed after writing: ",
                join_strs(&failed, ", ").as_str(),
                VERIFY_TAIL,
            ),
        )
    } else {
        Ok(md5::hex(readback))
    }
}

/// What is said of a module that verified.
pub fn verified_note(sum: &str) -> (res: Note)
    ensures
        res@ == NoteModel::Good("verified, md5 now "@ + sum@),
{
    Note::Good(cat2("verified, md5 now ", sum))
}

// ---------------------------------------------------------------------------
// Laws
// ---------------------------------------------------------------------------

/// A run on a stock module whose edits do not overlap always verifies when the
/// file reads back as it was written.
pub proof fn law_a_faithful_write_verifies(edits: Seq<EditModel>, data: Seq<u8>)
    requires
        patch::in_range(edits, data.len() as int),
        patch::disjoint(edits),
    ensures
        patch::unwritten_below(edits, patch::applied(edits, data), edits.len() as int).len() == 0,
{
    patch::law_written_edits_verify(edits, data);
}

/// The effects never claim a group that the plan does not touch: a plan without
/// edits has none beyond what the build itself does not need.
pub proof fn law_no_edits_no_effects(
    report: Seq<(Seq<char>, OutcomeModel)>,
    cfg: ConfigModel,
    gain_text: Seq<char>,
)
    ensures
        effects_of(Seq::<EditModel>::empty(), report, cfg, gain_text).len() == 0,
{
    let none = Seq::<EditModel>::empty();
    assert(!touches_site(none, "DcReject_Inject"@));
}

/// The filters are claimed bypassed only where the plan takes both of them out of
/// the path: by replacing them, by zeroing the coefficient, or by patching the site
/// that covers a high-pass filter the build does not have.
pub proof fn law_nothing_skipped_is_claimed(
    edits: Seq<EditModel>,
    report: Seq<(Seq<char>, OutcomeModel)>,
    cfg: ConfigModel,
    gain_text: Seq<char>,
)
    requires
        cfg.gain == patch::UNITY_GAIN,
    ensures
        effects_of(edits, report, cfg, gain_text).contains("filters bypassed"@) <==> {
            &&& touches_site(edits, "DcReject_Inject"@) || touches_site(
                edits,
                "DcReject_Coefficient"@,
            )
            &&& touches_site(edits, "HpCutoff_Inject"@) || (resolve::excuse_for(
                report,
                "HpCutoff_Inject"@,
            ) is Some && touches_site(edits, "OpusConfig_Application"@))
        },
{
    let claim = "filters bypassed"@;
    let last = filter_effect(edits, report, cfg, gain_text);
    lemma_not_among_the_others(edits, cfg, claim);
    lemma_in_either(other_effects(edits, cfg), last, claim);
    reveal_strlit("filters bypassed");
    reveal_strlit("high-pass bypassed (opus filters still active)");
    assert("high-pass bypassed (opus filters still active)"@[0] != claim[0]);
    if last.len() > 0 {
        assert(last.len() == 1);
        assert(last.contains(last[0]));
    }
}

proof fn lemma_not_among_the_others(edits: Seq<EditModel>, cfg: ConfigModel, claim: Seq<char>)
    requires
        claim == "filters bypassed"@,
    ensures
        !other_effects(edits, cfg).contains(claim),
{
    let rate = text::decimal(cfg.bitrate_kbps as nat) + " kbps"@;
    let stereo = stereo_effect(edits);
    lemma_other_words(rate, stereo, text::decimal(cfg.bitrate_kbps as nat), claim);
    let a = only_if(touches_group(edits, "stereo"@), stereo);
    let b = a + only_if(touches_group(edits, "samplerate"@), "48 kHz"@);
    let c = b + only_if(touches_group(edits, "bitrate"@), rate);
    let d = c + only_if(touches_group(edits, "opus"@), "audio mode"@);
    let e = d + only_if(touches_group(edits, "encoder"@), "FEC/DTX off, complexity 10, fullband"@);
    let f = e + only_if(touches_group(edits, "celt"@), "CELT"@);
    let g = f + only_if(touches_group(edits, "gain"@), "no auto-gain"@);
    let h = g + only_if(touches_group(edits, "denoise"@), "no noise removal"@);
    let i = h + only_if(touches_group(edits, "echo"@), "no echo cancellation"@);
    lemma_one_more(Seq::empty(), touches_group(edits, "stereo"@), stereo, claim);
    assert(Seq::<Seq<char>>::empty() + a =~= a);
    lemma_one_more(a, touches_group(edits, "samplerate"@), "48 kHz"@, claim);
    lemma_one_more(b, touches_group(edits, "bitrate"@), rate, claim);
    lemma_one_more(c, touches_group(edits, "opus"@), "audio mode"@, claim);
    lemma_one_more(
        d,
        touches_group(edits, "encoder"@),
        "FEC/DTX off, complexity 10, fullband"@,
        claim,
    );
    lemma_one_more(e, touches_group(edits, "celt"@), "CELT"@, claim);
    lemma_one_more(f, touches_group(edits, "gain"@), "no auto-gain"@, claim);
    lemma_one_more(g, touches_group(edits, "denoise"@), "no noise removal"@, claim);
    lemma_one_more(h, touches_group(edits, "echo"@), "no echo cancellation"@, claim);
    lemma_one_more(i, touches_group(edits, "cbr"@), "constant bitrate"@, claim);
}

proof fn lemma_one_more(before: Seq<Seq<char>>, wanted: bool, item: Seq<char>, claim: Seq<char>)
    requires
        !before.contains(claim),
        item != claim,
    ensures
        !(before + only_if(wanted, item)).contains(claim),
{
    lemma_in_either(before, only_if(wanted, item), claim);
}

proof fn lemma_in_either(a: Seq<Seq<char>>, b: Seq<Seq<char>>, x: Seq<char>)
    ensures
        (a + b).contains(x) <==> a.contains(x) || b.contains(x),
{
    if a.contains(x) {
        let k = choose|k: int| 0 <= k < a.len() && a[k] == x;
        assert((a + b)[k] == x);
    }
    if b.contains(x) {
        let k = choose|k: int| 0 <= k < b.len() && b[k] == x;
        assert((a + b)[a.len() + k] == x);
    }
}

proof fn lemma_other_words(
    rate: Seq<char>,
    stereo: Seq<char>,
    number: Seq<char>,
    claim: Seq<char>,
)
    requires
        claim == "filters bypassed"@,
        rate == number + " kbps"@,
        stereo == "stereo"@ || stereo == "stereo (held against the network adaptor)"@,
    ensures
        rate != claim,
        stereo != claim,
        "48 kHz"@ != claim,
        "audio mode"@ != claim,
        "FEC/DTX off, complexity 10, fullband"@ != claim,
        "CELT"@ != claim,
        "no auto-gain"@ != claim,
        "no noise removal"@ != claim,
        "no echo cancellation"@ != claim,
        "constant bitrate"@ != claim,
{
    reveal_strlit("filters bypassed");
    reveal_strlit("48 kHz");
    reveal_strlit("audio mode");
    reveal_strlit("FEC/DTX off, complexity 10, fullband");
    reveal_strlit("CELT");
    reveal_strlit("no auto-gain");
    reveal_strlit("no noise removal");
    reveal_strlit("no echo cancellation");
    reveal_strlit("constant bitrate");
    reveal_strlit(" kbps");
    reveal_strlit("stereo");
    reveal_strlit("stereo (held against the network adaptor)");
    assert(claim[0] == 'f' && stereo[0] == 's');
    assert(rate[rate.len() - 1] == 's' && claim[claim.len() - 1] == 'd');
}

/// A gap that decides mono versus stereo always blocks: the critical gaps are
/// exactly the gaps whose site is critical.
pub proof fn law_critical_gaps_block(gaps: Seq<Seq<char>>, n: int, k: int)
    requires
        0 <= k < n,
        is_critical(gaps[k]),
    ensures
        critical_below(gaps, n).contains(gaps[k]),
    decreases n,
{
    let all = critical_below(gaps, n);
    if k == n - 1 {
        assert(all[all.len() - 1] == gaps[k]);
    } else {
        law_critical_gaps_block(gaps, n - 1, k);
        let before = critical_below(gaps, n - 1);
        let j = choose|j: int| 0 <= j < before.len() && before[j] == gaps[k];
        assert(all[j] == gaps[k]);
    }
}

} // verus!

//! Work that takes long enough to notice, and what it leaves on screen.
//!
//! Scanning means hashing 120 MB, parsing fifty thousand symbols and matching
//! thirty-seven signatures — about a second, and twice that when there is a
//! backup to resolve against as well. Patching adds a full read and write of
//! the same file. Doing either between two frames freezes the keyboard, and a
//! terminal that has stopped responding is indistinguishable from one that has
//! crashed, so each of these runs beside the drawing. Here is what can be asked
//! for, the decisions in the middle of it, and the words at the end of it.

use crate::apply;
use crate::apply::{Note, NoteModel, Prepared};
use crate::discovery;
use crate::discovery::{Install, InstallModel};
use crate::manage::Cleared;
use crate::patch;
use crate::patch::{Config, ConfigModel, EditModel, Plan};
use crate::resolve::OutcomeModel;
use crate::status;
use crate::status::readout::Level;
use crate::status::{Inspection, InspectionModel};
use crate::text;
use crate::text::{cat2, cat4, join, split_lines, to_decimal, wide_decimal};
use vstd::prelude::*;

verus! {

// ---------------------------------------------------------------------------
// Requests
// ---------------------------------------------------------------------------

pub enum Request {
    /// Read a module and work out what it is currently doing.
    Scan { install: Option<Install>, node: String },
    Patch { install: Install, node: String, cfg: Config, allow_partial: bool },
    Restore { install: Install, node: String },
    DeleteBackup { install: Install },
    /// Delete the module *and* clear the updater's record of it, which is the
    /// only combination that makes Discord fetch a fresh one.
    Reinstall { install: Install, node: Option<String> },
}

#[verifier::ext_equal]
pub enum RequestModel {
    Scan { install: Option<InstallModel>, node: Seq<char> },
    Patch { install: InstallModel, node: Seq<char>, cfg: ConfigModel, allow_partial: bool },
    Restore { install: InstallModel, node: Seq<char> },
    DeleteBackup { install: InstallModel },
    Reinstall { install: InstallModel, node: Option<Seq<char>> },
}

impl View for Request {
    type V = RequestModel;

    open spec fn view(&self) -> RequestModel {
        match *self {
            Request::Scan { install, node } => RequestModel::Scan {
                install: match install {
                    Some(i) => Some(i@),
                    None => None,
                },
                node: node@,
            },
            Request::Patch { install, node, cfg, allow_partial } => RequestModel::Patch {
                install: install@,
                node: node@,
                cfg: cfg@,
                allow_partial,
            },
            Request::Restore { install, node } => RequestModel::Restore {
                install: install@,
                node: node@,
            },
            Request::DeleteBackup { install } => RequestModel::DeleteBackup { install: install@ },
            Request::Reinstall { install, node } => RequestModel::Reinstall {
                install: install@,
                node: discovery::opt_text(node),
            },
        }
    }
}

pub open spec fn verb_of(request: RequestModel) -> Seq<char> {
    match request {
        RequestModel::Scan { .. } => "Reading the module"@,
        RequestModel::Patch { .. } => "Patching"@,
        RequestModel::Restore { .. } => "Restoring the original"@,
        RequestModel::DeleteBackup { .. } => "Deleting the backup"@,
        RequestModel::Reinstall { .. } => "Clearing the module"@,
    }
}

impl Request {
    /// What to put next to the spinner. Present tense: it is happening now.
    pub fn verb(&self) -> (res: &'static str)
        ensures
            res@ == verb_of(self@),
    {
        match self {
            Request::Scan { .. } => "Reading the module",
            Request::Patch { .. } => "Patching",
            Request::Restore { .. } => "Restoring the original",
            Request::DeleteBackup { .. } => "Deleting the backup",
            Request::Reinstall { .. } => "Clearing the module",
        }
    }
}

// ---------------------------------------------------------------------------
// Logs
// ---------------------------------------------------------------------------

pub struct LogLine {
    pub text: String,
    pub level: Level,
}

#[verifier::ext_equal]
pub struct LogLineModel {
    pub text: Seq<char>,
    pub level: Level,
}

impl View for LogLine {
    type V = LogLineModel;

    open spec fn view(&self) -> LogLineModel {
        LogLineModel { text: self.text@, level: self.level }
    }
}

pub open spec fn log_views(lines: Seq<LogLine>) -> Seq<LogLineModel> {
    Seq::new(lines.len(), |i: int| lines[i]@)
}

/// What a finished job leaves on screen.
pub struct Log {
    pub title: String,
    pub lines: Vec<LogLine>,
    pub ok: bool,
    /// Whether the module on disk changed, so the readout needs taking again.
    pub changed: bool,
}

#[verifier::ext_equal]
pub struct LogModel {
    pub title: Seq<char>,
    pub lines: Seq<LogLineModel>,
    pub ok: bool,
    pub changed: bool,
}

impl View for Log {
    type V = LogModel;

    open spec fn view(&self) -> LogModel {
        LogModel {
            title: self.title@,
            lines: log_views(self.lines@),
            ok: self.ok,
            changed: self.changed,
        }
    }
}

/// What a job answers.
pub enum Reply {
    Scanned(Inspection),
    Finished(Log),
    /// The job went away without an answer.
    Lost,
}

#[verifier::ext_equal]
pub enum ReplyModel {
    Scanned(InspectionModel),
    Finished(LogModel),
    Lost,
}

impl View for Reply {
    type V = ReplyModel;

    open spec fn view(&self) -> ReplyModel {
        match *self {
            Reply::Scanned(i) => ReplyModel::Scanned(i@),
            Reply::Finished(log) => ReplyModel::Finished(log@),
            Reply::Lost => ReplyModel::Lost,
        }
    }
}

pub open spec fn said(level: Level, s: Seq<char>) -> LogLineModel {
    LogLineModel { text: s, level }
}

fn push_said(lines: &mut Vec<LogLine>, level: Level, s: String)
    ensures
        log_views(final(lines)@) == log_views(old(lines)@).push(said(level, s@)),
{
    let ghost before = log_views(lines@);
    lines.push(LogLine { text: s, level });
    assert(log_views(lines@) =~= before.push(said(level, s@)));
}

pub open spec fn line_of_note(note: NoteModel) -> LogLineModel {
    match note {
        NoteModel::Info(s) => said(Level::Neutral, s),
        NoteModel::Good(s) => said(Level::Good, s),
        NoteModel::Warn(s) => said(Level::Warn, s),
        NoteModel::Bad(s) => said(Level::Bad, s),
    }
}

/// A note as a line of the log.
pub fn note_line(note: Note) -> (res: LogLine)
    ensures
        res@ == line_of_note(note@),
{
    match note {
        Note::Info(t) => LogLine { text: t, level: Level::Neutral },
        Note::Good(t) => LogLine { text: t, level: Level::Good },
        Note::Warn(t) => LogLine { text: t, level: Level::Warn },
        Note::Bad(t) => LogLine { text: t, level: Level::Bad },
    }
}

/// Add a note to the log.
pub fn push_note(lines: &mut Vec<LogLine>, note: Note)
    ensures
        log_views(final(lines)@) == log_views(old(lines)@).push(line_of_note(note@)),
{
    let ghost before = log_views(lines@);
    let line = note_line(note);
    lines.push(line);
    assert(log_views(lines@) =~= before.push(line@));
}

/// What went wrong, a line for each line of the error. A job can fail after it has
/// already put a backup back, written the file or removed it: `touched` says so.
pub open spec fn failed(
    title: Seq<char>,
    err: Seq<char>,
    lines: Seq<LogLineModel>,
    touched: bool,
) -> LogModel {
    LogModel {
        title,
        lines: lines + text::text_lines(err).map_values(|s: Seq<char>| said(Level::Bad, s)),
        ok: false,
        changed: touched,
    }
}

/// What went wrong, behind what was said before it did. `touched` is whether the
/// module on disk is no longer what it was.
pub fn failure_with(title: &str, err: &str, lines: Vec<LogLine>, touched: bool) -> (res: Log)
    ensures
        res@ == failed(title@, err@, log_views(lines@), touched),
{
    let ghost before = log_views(lines@);
    let ghost all = text::text_lines(err@).map_values(|s: Seq<char>| said(Level::Bad, s));
    let parts = split_lines(err);
    let mut lines = lines;
    let mut i: usize = 0;
    assert(text::views(parts@).len() == parts@.len());
    assert(before + all.take(0) =~= before);
    while i < parts.len()
        invariant
            i <= parts@.len(),
            text::views(parts@) == text::text_lines(err@),
            all == text::text_lines(err@).map_values(|s: Seq<char>| said(Level::Bad, s)),
            all.len() == parts@.len(),
            log_views(lines@) == before + all.take(i as int),
        decreases parts@.len() - i,
    {
        assert(text::views(parts@)[i as int] == parts@[i as int]@);
        push_said(&mut lines, Level::Bad, parts[i].clone());
        assert(before + all.take(i + 1) =~= (before + all.take(i as int)).push(all[i as int]));
        i = i + 1;
    }
    assert(all.take(i as int) =~= all);
    Log { title: title.to_owned(), lines, ok: false, changed: touched }
}

/// What went wrong. `touched` is whether the module on disk is no longer what it
/// was.
pub fn failure(title: &str, err: &str, touched: bool) -> (res: Log)
    ensures
        res@ == failed(title@, err@, Seq::empty(), touched),
{
    let lines: Vec<LogLine> = Vec::new();
    assert(log_views(lines@) =~= Seq::<LogLineModel>::empty());
    failure_with(title, err, lines, touched)
}

// ---------------------------------------------------------------------------
// What each job ends in
// ---------------------------------------------------------------------------

pub const UNREADABLE: &'static str = "Could not read the module";

pub const NOT_RESTORED: &'static str = "Could not restore";

pub const NOT_DELETED: &'static str = "Could not delete the backup";

pub const NOT_CLEARED: &'static str = "Could not clear the module";

pub const NOT_PATCHED: &'static str = "Patching failed";

pub const AS_SHIPPED: &'static str =
    "The module is exactly as Discord shipped it. Start Discord and it will behave normally again.";

pub const NO_WAY_BACK: &'static str =
    "This install can no longer be restored. If its module is patched, the way back is to delete the module and let Discord download a fresh one.";

pub const FETCHES_AGAIN: &'static str =
    "Start Discord. It downloads its modules again on the next launch, which takes a moment — the voice module is the large one. Your logins, servers and settings are untouched; none of them were in the file that was cleared.";

pub const HALF_STEREO: &'static str =
    "Nothing was written. Stereo would have been negotiated and then sent as one channel, which is worse than not patching at all.";

pub const REJOIN: &'static str =
    "Start Discord and re-join a voice channel. Set your input to a stereo source — a mono microphone still gives two identical channels, which analysers report as mono.";

/// A module was put back.
pub fn restored_log(label: &str, src: &str) -> (res: Log)
    ensures
        res@ == (LogModel {
            title: "Restored "@ + label@,
            lines: seq![
                said(Level::Good, "put back from "@ + src@),
                said(Level::Neutral, AS_SHIPPED@),
            ],
            ok: true,
            changed: true,
        }),
{
    let mut lines: Vec<LogLine> = Vec::new();
    push_said(&mut lines, Level::Good, cat2("put back from ", src));
    push_said(&mut lines, Level::Neutral, AS_SHIPPED.to_owned());
    assert(log_views(lines@) =~= seq![
        said(Level::Good, "put back from "@ + src@),
        said(Level::Neutral, AS_SHIPPED@),
    ]);
    Log { title: cat2("Restored ", label), lines, ok: true, changed: true }
}

/// A backup was deleted. The module itself was not touched.
pub fn deleted_log(path: &str) -> (res: Log)
    ensures
        res@ == (LogModel {
            title: "Backup deleted"@,
            lines: seq![
                said(Level::Good, "removed "@ + path@),
                said(Level::Warn, NO_WAY_BACK@),
            ],
            ok: true,
            changed: false,
        }),
{
    let mut lines: Vec<LogLine> = Vec::new();
    push_said(&mut lines, Level::Good, cat2("removed ", path));
    push_said(&mut lines, Level::Warn, NO_WAY_BACK.to_owned());
    assert(log_views(lines@) =~= seq![
        said(Level::Good, "removed "@ + path@),
        said(Level::Warn, NO_WAY_BACK@),
    ]);
    Log { title: "Backup deleted".to_owned(), lines, ok: true, changed: false }
}

pub open spec fn cleared_lines(c: Cleared) -> Seq<LogLineModel> {
    (seq![
        match c.module_dir {
            Some(dir) => said(Level::Good, "removed "@ + dir@),
            None => said(Level::Neutral, "the module was already gone"@),
        },
    ] + (match c.registry {
        Some((db, kept)) => seq![
            said(Level::Good, "cleared the updater's record at "@ + db@),
            said(Level::Neutral, "a copy of it is at "@ + kept@),
        ],
        None => seq![said(Level::Neutral, "there was no updater record to clear"@)],
    })).push(said(Level::Neutral, FETCHES_AGAIN@))
}

/// A module, the updater's record of it, or both were cleared.
pub fn cleared_log(cleared: &Cleared) -> (res: Log)
    ensures
        res@ == (LogModel {
            title: "Discord will fetch a fresh module"@,
            lines: cleared_lines(*cleared),
            ok: true,
            changed: true,
        }),
{
    let mut lines: Vec<LogLine> = Vec::new();
    match &cleared.module_dir {
        Some(dir) => push_said(&mut lines, Level::Good, cat2("removed ", dir.as_str())),
        None => push_said(&mut lines, Level::Neutral, "the module was already gone".to_owned()),
    }
    match &cleared.registry {
        Some((db, kept)) => {
            push_said(
                &mut lines,
                Level::Good,
                cat2("cleared the updater's record at ", db.as_str()),
            );
            push_said(&mut lines, Level::Neutral, cat2("a copy of it is at ", kept.as_str()));
        },
        None => push_said(
            &mut lines,
            Level::Neutral,
            "there was no updater record to clear".to_owned(),
        ),
    }
    push_said(&mut lines, Level::Neutral, FETCHES_AGAIN.to_owned());
    assert(log_views(lines@) =~= cleared_lines(*cleared));
    Log { title: "Discord will fetch a fresh module".to_owned(), lines, ok: true, changed: true }
}

// ---------------------------------------------------------------------------
// Patching
// ---------------------------------------------------------------------------

/// How far a patch gets before its plan is written.
pub enum Stage {
    /// The plan will not be written.
    Stop(Log),
    /// The plan is to be carried out; `lines` is what was said so far.
    Write { plan: Plan, lines: Vec<LogLine> },
}

#[verifier::ext_equal]
pub enum StageModel {
    Stop(LogModel),
    Write { edits: Seq<EditModel>, lines: Seq<LogLineModel> },
}

impl View for Stage {
    type V = StageModel;

    open spec fn view(&self) -> StageModel {
        match *self {
            Stage::Stop(log) => StageModel::Stop(log@),
            Stage::Write { plan, lines } => StageModel::Write {
                edits: plan@,
                lines: log_views(lines@),
            },
        }
    }
}

/// What was said before, and what there is to say of the gaps.
pub open spec fn with_gaps(
    before: Seq<LogLineModel>,
    report: Seq<(Seq<char>, OutcomeModel)>,
) -> Seq<LogLineModel> {
    before + apply::gap_report(report).map_values(|n: NoteModel| line_of_note(n))
}

/// How far a patch of `data` gets before its plan is written. `touched` is whether
/// preparing it has already put a backup back.
pub open spec fn stage_of(
    before: Seq<LogLineModel>,
    data: Seq<u8>,
    cfg: ConfigModel,
    gain_text: Seq<char>,
    allow_partial: bool,
    touched: bool,
) -> StageModel {
    let report = status::report_of(data);
    let lines = with_gaps(before, report);
    let gaps = apply::gaps_of(report);
    let edits = patch::plan_for(report, cfg, data);
    let errors = patch::errors_below(edits, data, edits.len() as int);
    if apply::critical_below(gaps, gaps.len() as int).len() > 0 && !allow_partial {
        StageModel::Stop(
            LogModel {
                title: "This build cannot be patched safely"@,
                lines: lines.push(said(Level::Bad, HALF_STEREO@)),
                ok: false,
                changed: touched,
            },
        )
    } else if errors.len() > 0 {
        StageModel::Stop(failed(NOT_PATCHED@, apply::refusal(errors), lines, touched))
    } else if edits.len() == 0 {
        StageModel::Stop(
            LogModel {
                title: "Nothing to do"@,
                lines: lines.push(said(Level::Warn, "nothing selected to change"@)),
                ok: false,
                changed: touched,
            },
        )
    } else {
        StageModel::Write {
            edits,
            lines: lines.push(
                said(
                    Level::Neutral,
                    text::decimal(edits.len()) + " edits, "@ + text::decimal(
                        patch::bytes_below(edits, edits.len() as int) as nat,
                    ) + " bytes"@,
                ),
            ).push(
                said(
                    Level::Good,
                    text::joined(apply::effects_of(edits, report, cfg, gain_text), ", "@),
                ),
            ),
        }
    }
}

fn push_gaps(lines: &mut Vec<LogLine>, prepared: &Prepared)
    requires
        prepared.wf(),
    ensures
        log_views(final(lines)@) == with_gaps(log_views(old(lines)@), prepared.report@),
{
    let ghost before = log_views(lines@);
    let mut notes = apply::report_gaps(prepared);
    let ghost all = apply::gap_report(prepared.report@);
    let ghost wanted = all.map_values(|n: NoteModel| line_of_note(n));
    let n: usize = notes.len();
    let mut i: usize = 0;
    assert(apply::note_views(notes@).len() == notes@.len());
    assert(before + wanted.take(0) =~= before);
    while i < n
        invariant
            i <= n,
            n == notes@.len() + i,
            n == all.len(),
            apply::note_views(notes@) == all.skip(i as int),
            wanted == all.map_values(|n: NoteModel| line_of_note(n)),
            log_views(lines@) == before + wanted.take(i as int),
        decreases n - i,
    {
        let ghost held = notes@;
        assert(apply::note_views(held)[0] == held[0]@);
        let note = notes.remove(0);
        push_note(lines, note);
        assert(notes@ =~= held.skip(1));
        assert(apply::note_views(notes@) =~= apply::note_views(held).skip(1));
        assert(all.skip(i as int).skip(1) =~= all.skip(i + 1));
        assert(wanted[i as int] == line_of_note(note@));
        assert(before + wanted.take(i + 1) =~= (before + wanted.take(i as int)).push(
            wanted[i as int],
        ));
        i = i + 1;
    }
    assert(wanted.take(i as int) =~= wanted);
}

/// Decide what a patch writes. `lines` is what was said while the module was
/// prepared, `touched` whether that has already put a backup back.
pub fn do_patch(
    lines: Vec<LogLine>,
    prepared: &Prepared,
    cfg: &Config,
    gain_text: &str,
    allow_partial: bool,
    touched: bool,
) -> (res: Stage)
    requires
        prepared.wf(),
        cfg.wf(),
    ensures
        res@ == stage_of(
            log_views(lines@),
            prepared.data@,
            cfg@,
            gain_text@,
            allow_partial,
            touched,
        ),
        res matches Stage::Write { plan, .. } ==> patch::in_range(
            plan@,
            prepared.data@.len() as int,
        ),
{
    let mut lines = lines;
    push_gaps(&mut lines, prepared);
    assert(text::str_views(prepared.critical_missing@).len() == prepared.critical_missing@.len());
    if prepared.blocked() && !allow_partial {
        push_said(&mut lines, Level::Bad, HALF_STEREO.to_owned());
        return Stage::Stop(
            Log {
                title: "This build cannot be patched safely".to_owned(),
                lines,
                ok: false,
                changed: touched,
            },
        );
    }
    let plan = match apply::plan(prepared, cfg) {
        Ok(p) => p,
        Err(e) => {
            return Stage::Stop(failure_with(NOT_PATCHED, e.as_str(), lines, touched));
        },
    };
    assert(plan@.len() == plan.edits@.len());
    if plan.edits.len() == 0 {
        push_said(&mut lines, Level::Warn, "nothing selected to change".to_owned());
        return Stage::Stop(
            Log { title: "Nothing to do".to_owned(), lines, ok: false, changed: touched },
        );
    }
    let effects = apply::effects(&plan, &prepared.report, cfg, gain_text);
    push_said(
        &mut lines,
        Level::Neutral,
        cat4(
            to_decimal(plan.edits.len() as u64).as_str(),
            " edits, ",
            wide_decimal(plan.wide_total()).as_str(),
            " bytes",
        ),
    );
    push_said(&mut lines, Level::Good, join(&effects, ", "));
    Stage::Write { plan, lines }
}

/// A patch was written and read back.
pub fn patched_log(label: &str, lines: Vec<LogLine>) -> (res: Log)
    ensures
        res@ == (LogModel {
            title: "Patched "@ + label@,
            lines: log_views(lines@).push(said(Level::Neutral, REJOIN@)),
            ok: true,
            changed: true,
        }),
{
    let mut lines = lines;
    push_said(&mut lines, Level::Neutral, REJOIN.to_owned());
    Log { title: cat2("Patched ", label), lines, ok: true, changed: true }
}

// ---------------------------------------------------------------------------
// Laws
// ---------------------------------------------------------------------------

/// A failure says whether the module changed before it, and keeps everything that
/// was said.
pub proof fn law_failures_own_up(
    title: Seq<char>,
    err: Seq<char>,
    lines: Seq<LogLineModel>,
    touched: bool,
)
    ensures
        !failed(title, err, lines, touched).ok,
        failed(title, err, lines, touched).changed == touched,
        failed(title, err, lines, touched).lines.take(lines.len() as int) == lines,
{
    assert(failed(title, err, lines, touched).lines.take(lines.len() as int) =~= lines);
}

/// A patch that stops before its plan is written has changed what preparing it
/// changed, and nothing else.
pub proof fn law_a_stopped_patch_changes_no_more(
    before: Seq<LogLineModel>,
    data: Seq<u8>,
    cfg: ConfigModel,
    gain_text: Seq<char>,
    allow_partial: bool,
    touched: bool,
)
    ensures
        stage_of(before, data, cfg, gain_text, allow_partial, touched) matches StageModel::Stop(log)
            ==> !log.ok && log.changed == touched,
{
}

/// Where a site that decides mono versus stereo is missing, nothing is written
/// unless that was asked for.
pub proof fn law_half_stereo_is_never_written_unasked(
    before: Seq<LogLineModel>,
    data: Seq<u8>,
    cfg: ConfigModel,
    gain_text: Seq<char>,
    touched: bool,
)
    ensures
        ({
            let gaps = apply::gaps_of(status::report_of(data));
            apply::critical_below(gaps, gaps.len() as int).len() > 0 ==> stage_of(
                before,
                data,
                cfg,
                gain_text,
                false,
                touched,
            ) is Stop
        }),
{
}

/// What is written is never nothing, and every edit passed the check against the
/// bytes that are there.
pub proof fn law_only_checked_plans_are_written(
    before: Seq<LogLineModel>,
    data: Seq<u8>,
    cfg: ConfigModel,
    gain_text: Seq<char>,
    allow_partial: bool,
    touched: bool,
)
    ensures
        stage_of(before, data, cfg, gain_text, allow_partial, touched) matches StageModel::Write {
            edits,
            ..
        } ==> edits.len() > 0 && patch::errors_below(edits, data, edits.len() as int).len() == 0,
{
}

} // verus!

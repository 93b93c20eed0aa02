//! Making Discord fetch a fresh voice module.
//!
//! This is the last resort for when restoring is not possible: the module was
//! patched by something that kept no backup, or a delta update is wedged
//! because Discord will not patch over a file whose hash it does not
//! recognise.
//!
//! Deleting the module directory is *not* enough, and getting that wrong is
//! worth writing down. Discord's updater keeps its record of what is installed
//! in `installer.db`, next to the `app-<version>` directories, and it trusts
//! that record without checking the files are still there. Delete only the
//! directory and the next launch logs
//!
//! ```text
//! Updater received command 12: InstallModule { name: "discord_voice" }
//! Install of module discord_voice finished successfully.
//! ```
//!
//! having downloaded nothing, and then the client reports itself corrupt,
//! because the module it was told exists cannot be loaded. Voice stays broken,
//! and restarting does not help, because every restart reaches the same
//! conclusion.
//!
//! So the record has to go with it. That database holds an install id and the
//! versions and file manifests of what is installed, and nothing else; logins,
//! servers, settings and cache all live in sibling files that are not touched.
//! Removing it makes the updater treat every module as not installed and fetch
//! them again on the next start.
//!
//! Launching still works with the database gone. The launcher script runs
//! `$XDG_CONFIG_HOME/<channel>/<Exe>`, a symlink into the `app-<version>`
//! directory, and only falls back to the bootstrap downloader when *that* is
//! missing; it never consults the database to decide what to start.

use crate::discovery;
use crate::discovery::{is_directly_under, module_dir, Part, PartModel};
use crate::text::cat2;
use vstd::prelude::*;

verus! {

pub const NOT_A_MODULE_DIR: &'static str =
    " is not inside a discord_voice-<n> module directory; refusing to delete anything";

pub const NOT_UNDER_MODULES: &'static str =
    " is not under a modules/ directory; refusing to delete it";

pub const NOTHING_TO_CLEAR: &'static str =
    "nothing to do here: there is no voice module and no updater database to clear. Start Discord and let it finish installing.";

/// A directory lies directly in one called `modules`.
pub open spec fn under_modules(dir: Seq<PartModel>) -> bool {
    discovery::parent_len(dir, dir.len() as int) matches Some(n) && discovery::end_name(dir, n)
        == Some("modules"@)
}

/// Which directory goes when a module is deleted, or why none does. `shown` is the
/// text of the module's path, `dir_shown` that of the directory two levels up.
pub open spec fn deletion_of(
    node: Seq<PartModel>,
    shown: Seq<char>,
    dir_shown: Seq<char>,
) -> Result<Seq<PartModel>, Seq<char>> {
    match discovery::module_dir_of(node) {
        None => Err(shown + NOT_A_MODULE_DIR@),
        Some(dir) => if under_modules(dir) {
            Ok(dir)
        } else {
            Err(dir_shown + NOT_UNDER_MODULES@)
        },
    }
}

/// Which directory to remove with a module: the `discord_voice-<n>` directory.
///
/// The whole directory rather than just the `.node`: the directory is the unit
/// the module updater installs, and one left behind with a file missing is
/// exactly the half-state this module exists to avoid. Its name has to be right,
/// and it has to sit under a `modules/` directory, so that a `discord_voice-1`
/// folder somewhere else entirely cannot be removed by passing its path in.
pub fn delete_module(node: &Vec<Part>, shown: &str, dir_shown: &str) -> (res: Result<
    Vec<Part>,
    String,
>)
    ensures
        match (res, deletion_of(discovery::part_views(node@), shown@, dir_shown@)) {
            (Ok(dir), Ok(d)) => discovery::part_views(dir@) == d,
            (Err(e), Err(m)) => e@ == m,
            _ => false,
        },
{
    match module_dir(node) {
        None => Err(cat2(shown, NOT_A_MODULE_DIR)),
        Some(dir) => {
            if is_directly_under(&dir, "modules") {
                Ok(dir)
            } else {
                Err(cat2(dir_shown, NOT_UNDER_MODULES))
            }
        },
    }
}

/// What a reinstall removed, so the caller can say so afterwards.
pub struct Cleared {
    /// The module directory, if there was still one.
    pub module_dir: Option<String>,
    /// The updater's database, and the copy taken before it was removed.
    pub registry: Option<(String, String)>,
}

/// What a reinstall amounts to. Removing neither a module nor a database is an
/// error; no database at all is the state a fresh install starts in, so on its own
/// it is not.
pub fn force_reinstall(module_dir: Option<String>, registry: Option<(String, String)>) -> (res:
    Result<Cleared, String>)
    ensures
        res is Err <==> module_dir is None && registry is None,
        res matches Ok(c) ==> c.module_dir == module_dir && c.registry == registry,
        res matches Err(e) ==> e@ == NOTHING_TO_CLEAR@,
{
    if module_dir.is_none() && registry.is_none() {
        Err(NOTHING_TO_CLEAR.to_owned())
    } else {
        Ok(Cleared { module_dir, registry })
    }
}

// ---------------------------------------------------------------------------
// The order of a reinstall
// ---------------------------------------------------------------------------

/// How far a reinstall has got.
pub struct Clearing {
    /// The module directory, if there is one to remove.
    pub module_dir: Option<String>,
    pub module_gone: bool,
    /// The updater's database, if there is one to remove.
    pub record: Option<String>,
    /// The copy of it, once there is one.
    pub copy: Option<String>,
    pub record_gone: bool,
}

#[verifier::ext_equal]
pub struct ClearingModel {
    pub module_dir: Option<Seq<char>>,
    pub module_gone: bool,
    pub record: Option<Seq<char>>,
    pub copy: Option<Seq<char>>,
    pub record_gone: bool,
}

impl View for Clearing {
    type V = ClearingModel;

    open spec fn view(&self) -> ClearingModel {
        ClearingModel {
            module_dir: discovery::opt_text(self.module_dir),
            module_gone: self.module_gone,
            record: discovery::opt_text(self.record),
            copy: discovery::opt_text(self.copy),
            record_gone: self.record_gone,
        }
    }
}

/// What a reinstall does next.
#[derive(PartialEq, Eq, Clone, Copy, Structural)]
pub enum Step {
    RemoveModule,
    CopyRecord,
    RemoveRecord,
    Finish,
}

/// Nothing has been done yet.
pub open spec fn untouched(module_dir: Option<Seq<char>>, record: Option<Seq<char>>) -> ClearingModel {
    ClearingModel { module_dir, module_gone: false, record, copy: None, record_gone: false }
}

/// What comes next: the module goes, then its record is copied aside, and only then
/// does the record go.
pub open spec fn next_of(c: ClearingModel) -> Step {
    if c.module_dir is Some && !c.module_gone {
        Step::RemoveModule
    } else if c.record is Some && c.copy is None {
        Step::CopyRecord
    } else if c.record is Some && !c.record_gone {
        Step::RemoveRecord
    } else {
        Step::Finish
    }
}

/// How far it has got once the next step is done. `copy` is where the copy of the
/// record is, if that was the step.
pub open spec fn advanced(c: ClearingModel, copy: Seq<char>) -> ClearingModel {
    match next_of(c) {
        Step::RemoveModule => ClearingModel { module_gone: true, ..c },
        Step::CopyRecord => ClearingModel { copy: Some(copy), ..c },
        Step::RemoveRecord => ClearingModel { record_gone: true, ..c },
        Step::Finish => c,
    }
}

impl Clearing {
    /// Start a reinstall.
    pub fn new(module_dir: Option<String>, record: Option<String>) -> (res: Clearing)
        ensures
            res@ == untouched(discovery::opt_text(module_dir), discovery::opt_text(record)),
    {
        Clearing { module_dir, module_gone: false, record, copy: None, record_gone: false }
    }

    /// What to do next.
    pub fn next(&self) -> (res: Step)
        ensures
            res == next_of(self@),
    {
        if self.module_dir.is_some() && !self.module_gone {
            Step::RemoveModule
        } else if self.record.is_some() && self.copy.is_none() {
            Step::CopyRecord
        } else if self.record.is_some() && !self.record_gone {
            Step::RemoveRecord
        } else {
            Step::Finish
        }
    }

    /// The next step is done. `copy` is where the copy of the record is, if that was
    /// the step.
    pub fn advance(&mut self, copy: &str)
        ensures
            final(self)@ == advanced(old(self)@, copy@),
    {
        match self.next() {
            Step::RemoveModule => {
                self.module_gone = true;
            },
            Step::CopyRecord => {
                self.copy = Some(copy.to_owned());
            },
            Step::RemoveRecord => {
                self.record_gone = true;
            },
            Step::Finish => {},
        }
    }

    /// What the reinstall amounts to.
    pub fn outcome(self) -> (res: Result<Cleared, String>)
        requires
            next_of(self@) is Finish,
        ensures
            res is Err <==> self@.module_dir is None && self@.record is None,
            res matches Ok(c) ==> discovery::opt_text(c.module_dir) == self@.module_dir && match (
                c.registry,
                self@.record,
            ) {
                (Some((db, copy)), Some(record)) => db@ == record && Some(copy@) == self@.copy,
                (None, None) => true,
                _ => false,
            },
            res matches Err(e) ==> e@ == NOTHING_TO_CLEAR@,
    {
        let registry = match (self.record, self.copy) {
            (Some(db), Some(copy)) => Some((db, copy)),
            _ => None,
        };
        force_reinstall(self.module_dir, registry)
    }
}

/// The updater's record is removed only after a copy of it was kept, and only once
/// the module it speaks of is gone.
pub proof fn law_the_record_goes_only_after_its_copy(c: ClearingModel)
    ensures
        next_of(c) is RemoveRecord ==> c.record is Some && c.copy is Some && (c.module_dir is Some
            ==> c.module_gone),
{
}

/// A reinstall takes at most three steps. It ends with everything gone that was
/// there, and with a copy of the record if there was one.
pub proof fn law_a_reinstall_clears_the_module_and_its_record(
    module_dir: Option<Seq<char>>,
    record: Option<Seq<char>>,
    copy: Seq<char>,
)
    ensures
        ({
            let start = untouched(module_dir, record);
            let end = advanced(advanced(advanced(start, copy), copy), copy);
            &&& next_of(end) is Finish
            &&& end.module_dir == module_dir && end.module_gone == (module_dir is Some)
            &&& end.record == record && end.record_gone == (record is Some)
            &&& end.copy == if record is Some {
                Some(copy)
            } else {
                None
            }
        }),
{
}

/// Only a `discord_voice-<n>` directory directly inside a `modules` directory is
/// ever removed.
pub proof fn law_only_voice_module_dirs_are_removed(
    node: Seq<PartModel>,
    shown: Seq<char>,
    dir_shown: Seq<char>,
)
    ensures
        deletion_of(node, shown, dir_shown) matches Ok(dir) ==> {
            &&& discovery::end_name(dir, dir.len() as int) matches Some(name)
                && discovery::names_voice_module(name)
            &&& discovery::end_name(dir, dir.len() - 1) == Some("modules"@)
        },
{
    discovery::law_module_dir_is_a_voice_module_dir(node);
}

/// A module that lies two levels below a `discord_voice-<n>` directory directly inside a
/// `modules` directory can be deleted, with that directory.
pub proof fn law_a_voice_module_can_be_deleted(
    above: Seq<PartModel>,
    name: Seq<char>,
    inner: PartModel,
    file: PartModel,
    shown: Seq<char>,
    dir_shown: Seq<char>,
)
    requires
        name.len() >= 14,
        name.take(14) == "discord_voice-"@,
        !(inner is Root),
        !(file is Root),
    ensures
        ({
            let dir = above.push(PartModel::Name("modules"@)).push(PartModel::Name(name));
            deletion_of(dir.push(inner).push(file), shown, dir_shown) == Ok::<
                Seq<PartModel>,
                Seq<char>,
            >(dir)
        }),
{
    let dir = above.push(PartModel::Name("modules"@)).push(PartModel::Name(name));
    discovery::laws::law_a_voice_module_has_its_directory(dir, name, inner, file);
    assert(dir[dir.len() - 2] == PartModel::Name("modules"@));
}

} // verus!

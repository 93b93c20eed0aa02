//! The dialogs in front of every write, and the entries of the manage screen.
//!
//! Every destructive step stops at a dialog that names the file it is about to
//! touch.

use super::jobs::{Request, RequestModel};
use super::targets;
use super::targets::{Target, TargetModel};
use super::theme;
use super::theme::bytes;
use crate::console;
use crate::console::pid_list;
use crate::discovery;
use crate::discovery::{Install, InstallModel};
use crate::patch::{Config, ConfigModel};
use crate::sites::groups;
use crate::text;
use crate::text::{cat2, cat3, push_text, to_decimal};
use vstd::prelude::*;

verus! {

// ---------------------------------------------------------------------------
// Dialogs
// ---------------------------------------------------------------------------

pub struct Modal {
    pub title: String,
    pub body: Vec<String>,
    pub confirm: String,
    pub danger: bool,
    /// 0 confirms, 1 cancels.
    pub cursor: usize,
    pub request: Option<Request>,
}

#[verifier::ext_equal]
pub struct ModalModel {
    pub title: Seq<char>,
    pub body: Seq<Seq<char>>,
    pub confirm: Seq<char>,
    pub danger: bool,
    pub cursor: int,
    pub request: Option<RequestModel>,
}

impl View for Modal {
    type V = ModalModel;

    open spec fn view(&self) -> ModalModel {
        ModalModel {
            title: self.title@,
            body: text::views(self.body@),
            confirm: self.confirm@,
            danger: self.danger,
            cursor: self.cursor as int,
            request: match self.request {
                Some(r) => Some(r@),
                None => None,
            },
        }
    }
}

pub const ALL_OFF: &'static str = "Every group is switched off, so there is nothing to write.";

pub const PRESS_D: &'static str = "Press d to go back to the recommended set.";

pub open spec fn nothing_selected() -> ModalModel {
    ModalModel {
        title: "Nothing selected"@,
        body: seq![ALL_OFF@, PRESS_D@],
        confirm: "All right"@,
        danger: false,
        cursor: 0,
        request: None,
    }
}

/// There is nothing to write.
pub fn nothing_to_write() -> (res: Modal)
    ensures
        res@ == nothing_selected(),
{
    let mut body: Vec<String> = Vec::new();
    push_text(&mut body, ALL_OFF.to_owned());
    push_text(&mut body, PRESS_D.to_owned());
    assert(text::views(body@) =~= seq![ALL_OFF@, PRESS_D@]);
    Modal {
        title: "Nothing selected".to_owned(),
        body,
        confirm: "All right".to_owned(),
        danger: false,
        cursor: 0,
        request: None,
    }
}

pub const COPIED_ASIDE: &'static str =
    " kbps. The original is copied aside first, and the file is read back afterwards to confirm every change landed.";

pub const ALREADY_LOADED: &'static str =
    "). It already has the old module loaded, so nothing will change until you quit it completely and start it again.";

pub const HALF_DONE: &'static str =
    " change(s) that decide mono versus stereo could not be found in this build. Patching anyway would advertise stereo and still send one channel, which is worse than leaving it alone.";

pub open spec fn patch_body(
    node: Seq<char>,
    groups_on: int,
    bitrate: int,
    pids: Seq<u32>,
    gaps: int,
) -> Seq<Seq<char>> {
    seq![
        "This writes to "@ + node,
        ""@,
        text::decimal(groups_on as nat) + " of "@ + text::decimal(groups::GROUP_COUNT as nat)
            + " groups, bitrate "@ + text::decimal(bitrate as nat) + COPIED_ASIDE@,
    ] + (if pids.len() > 0 {
        seq![
            ""@,
            "Discord is running (pid "@ + text::joined(console::pid_texts(pids), ", "@)
                + ALREADY_LOADED@,
        ]
    } else {
        seq![]
    }) + (if gaps > 0 {
        seq![""@, text::decimal(gaps as nat) + HALF_DONE@]
    } else {
        seq![]
    })
}

/// Whether to patch. A running client or a critical gap makes the default answer
/// "no".
pub open spec fn patch_question(
    install: InstallModel,
    node: Seq<char>,
    cfg: ConfigModel,
    pids: Seq<u32>,
    gaps: int,
) -> ModalModel {
    let risky = gaps > 0 || pids.len() > 0;
    ModalModel {
        title: if gaps > 0 {
            "Not recommended"@
        } else {
            "Patch this module?"@
        },
        body: patch_body(node, cfg.groups.len() as int, cfg.bitrate_kbps, pids, gaps),
        confirm: if gaps > 0 {
            "Patch anyway"@
        } else {
            "Patch"@
        },
        danger: risky,
        cursor: if risky {
            1
        } else {
            0
        },
        request: Some(RequestModel::Patch { install, node, cfg, allow_partial: gaps > 0 }),
    }
}

/// Whether to patch. `gaps` is how many changes that decide mono versus stereo
/// could not be found.
pub fn patch_dialog(install: Install, node: String, cfg: Config, pids: &Vec<u32>, gaps: usize) -> (res:
    Modal)
    ensures
        res@ == patch_question(install@, node@, cfg@, pids@, gaps as int),
{
    let mut body: Vec<String> = Vec::new();
    push_text(&mut body, cat2("This writes to ", node.as_str()));
    push_text(&mut body, "".to_owned());
    let chosen = cat3(
        to_decimal(cfg.groups.len() as u64).as_str(),
        " of ",
        to_decimal(groups::GROUP_COUNT as u64).as_str(),
    );
    push_text(
        &mut body,
        text::cat4(
            chosen.as_str(),
            " groups, bitrate ",
            to_decimal(cfg.bitrate_kbps as u64).as_str(),
            COPIED_ASIDE,
        ),
    );
    let running = pids.len() > 0;
    let danger = gaps > 0;
    if running {
        push_text(&mut body, "".to_owned());
        push_text(
            &mut body,
            cat3("Discord is running (pid ", pid_list(pids).as_str(), ALREADY_LOADED),
        );
    }
    if danger {
        push_text(&mut body, "".to_owned());
        push_text(&mut body, cat2(to_decimal(gaps as u64).as_str(), HALF_DONE));
    }
    assert(text::views(cfg.groups@).len() == cfg.groups@.len());
    assert(text::views(body@) =~= patch_body(
        node@,
        cfg@.groups.len() as int,
        cfg@.bitrate_kbps,
        pids@,
        gaps as int,
    ));
    Modal {
        title: if danger {
            "Not recommended".to_owned()
        } else {
            "Patch this module?".to_owned()
        },
        body,
        confirm: if danger {
            "Patch anyway".to_owned()
        } else {
            "Patch".to_owned()
        },
        danger: danger || running,
        cursor: if danger || running {
            1
        } else {
            0
        },
        request: Some(Request::Patch { install, node, cfg, allow_partial: danger }),
    }
}

pub const UNTOUCHED_COPY: &'static str =
    "with the untouched copy taken before the first patch. Nothing is lost — you can patch again afterwards.";

pub open spec fn restore_question(install: InstallModel, node: Seq<char>) -> ModalModel {
    ModalModel {
        title: "Restore the original?"@,
        body: seq!["This overwrites "@ + node, ""@, UNTOUCHED_COPY@],
        confirm: "Restore"@,
        danger: false,
        cursor: 0,
        request: Some(RequestModel::Restore { install, node }),
    }
}

/// Whether to put the original back.
pub fn restore_dialog(install: Install, node: String) -> (res: Modal)
    ensures
        res@ == restore_question(install@, node@),
{
    let mut body: Vec<String> = Vec::new();
    push_text(&mut body, cat2("This overwrites ", node.as_str()));
    push_text(&mut body, "".to_owned());
    push_text(&mut body, UNTOUCHED_COPY.to_owned());
    assert(text::views(body@) =~= seq!["This overwrites "@ + node@, ""@, UNTOUCHED_COPY@]);
    Modal {
        title: "Restore the original?".to_owned(),
        body,
        confirm: "Restore".to_owned(),
        danger: false,
        cursor: 0,
        request: Some(Request::Restore { install, node }),
    }
}

pub const LAST_COPY: &'static str =
    "After this, a patched module for this install cannot be restored. The only way back would be to delete the module and let Discord download it again.";

pub open spec fn delete_question(install: InstallModel, path: Seq<char>) -> ModalModel {
    ModalModel {
        title: "Delete the backup?"@,
        body: seq!["This deletes "@ + path, ""@, LAST_COPY@],
        confirm: "Delete the backup"@,
        danger: true,
        cursor: 1,
        request: Some(RequestModel::DeleteBackup { install }),
    }
}

/// Whether to delete the backup at `path`.
pub fn delete_dialog(install: Install, path: &str) -> (res: Modal)
    ensures
        res@ == delete_question(install@, path@),
{
    let mut body: Vec<String> = Vec::new();
    push_text(&mut body, cat2("This deletes ", path));
    push_text(&mut body, "".to_owned());
    push_text(&mut body, LAST_COPY.to_owned());
    assert(text::views(body@) =~= seq!["This deletes "@ + path@, ""@, LAST_COPY@]);
    Modal {
        title: "Delete the backup?".to_owned(),
        body,
        confirm: "Delete the backup".to_owned(),
        danger: true,
        cursor: 1,
        request: Some(Request::DeleteBackup { install }),
    }
}

pub const CLEARS_RECORD: &'static str =
    ". Without that, Discord believes the module is still there and never downloads it — which is what leaves the client reporting itself corrupt.";

pub const DOWNLOADS_AGAIN: &'static str =
    "Discord re-downloads its modules on the next start. Logins, servers and settings are not in that file and are not touched, and a copy of it is kept.";

pub const QUIT_FIRST: &'static str = "Quit Discord first, or it will not notice.";

pub const BACKUP_STAYS: &'static str =
    "Your backup of this module stays — but once Discord downloads a newer one, it belongs to a version you no longer have.";

pub open spec fn reinstall_body(
    module_dir: Option<Seq<char>>,
    registry: Option<Seq<char>>,
    backup: bool,
) -> Seq<Seq<char>> {
    seq![
        match module_dir {
            Some(dir) => "This deletes "@ + dir,
            None => "The voice module is already gone."@,
        },
    ] + (match registry {
        Some(db) => seq![
            ""@,
            "It also clears Discord's record of what it has installed, at "@ + db
                + CLEARS_RECORD@,
            ""@,
            DOWNLOADS_AGAIN@,
        ],
        None => seq![],
    }) + seq![""@, QUIT_FIRST@] + (if backup {
        seq![""@, BACKUP_STAYS@]
    } else {
        seq![]
    })
}

pub open spec fn reinstall_question(
    install: InstallModel,
    node: Option<Seq<char>>,
    module_dir: Option<Seq<char>>,
    registry: Option<Seq<char>>,
    backup: bool,
) -> ModalModel {
    ModalModel {
        title: "Have Discord fetch a fresh module?"@,
        body: reinstall_body(module_dir, registry, backup),
        confirm: "Clear it"@,
        danger: true,
        cursor: 1,
        request: Some(RequestModel::Reinstall { install, node }),
    }
}

/// Whether to clear the module and the updater's record of it.
pub fn reinstall_dialog(
    install: Install,
    node: Option<String>,
    module_dir: &Option<String>,
    registry: &Option<String>,
    backup: bool,
) -> (res: Modal)
    ensures
        res@ == reinstall_question(
            install@,
            discovery::opt_text(node),
            discovery::opt_text(*module_dir),
            discovery::opt_text(*registry),
            backup,
        ),
{
    let mut body: Vec<String> = Vec::new();
    match module_dir {
        Some(dir) => push_text(&mut body, cat2("This deletes ", dir.as_str())),
        None => push_text(&mut body, "The voice module is already gone.".to_owned()),
    }
    if let Some(db) = registry {
        push_text(&mut body, "".to_owned());
        push_text(
            &mut body,
            cat3(
                "It also clears Discord's record of what it has installed, at ",
                db.as_str(),
                CLEARS_RECORD,
            ),
        );
        push_text(&mut body, "".to_owned());
        push_text(&mut body, DOWNLOADS_AGAIN.to_owned());
    }
    push_text(&mut body, "".to_owned());
    push_text(&mut body, QUIT_FIRST.to_owned());
    if backup {
        push_text(&mut body, "".to_owned());
        push_text(&mut body, BACKUP_STAYS.to_owned());
    }
    assert(text::views(body@) =~= reinstall_body(
        discovery::opt_text(*module_dir),
        discovery::opt_text(*registry),
        backup,
    ));
    Modal {
        title: "Have Discord fetch a fresh module?".to_owned(),
        body,
        confirm: "Clear it".to_owned(),
        danger: true,
        cursor: 1,
        request: Some(Request::Reinstall { install, node }),
    }
}

// ---------------------------------------------------------------------------
// The manage screen
// ---------------------------------------------------------------------------

/// What is on disk for the current install.
pub struct Copies {
    pub backup: bool,
    /// The size of the backup.
    pub size: Option<u64>,
    pub backup_path: String,
    /// The directory of its module.
    pub module_dir: Option<String>,
    /// The updater's record.
    pub registry: Option<String>,
}

#[verifier::ext_equal]
pub struct CopiesModel {
    pub backup: bool,
    pub size: Option<int>,
    pub backup_path: Seq<char>,
    pub module_dir: Option<Seq<char>>,
    pub registry: Option<Seq<char>>,
}

impl View for Copies {
    type V = CopiesModel;

    open spec fn view(&self) -> CopiesModel {
        CopiesModel {
            backup: self.backup,
            size: match self.size {
                Some(n) => Some(n as int),
                None => None,
            },
            backup_path: self.backup_path@,
            module_dir: discovery::opt_text(self.module_dir),
            registry: discovery::opt_text(self.registry),
        }
    }
}

/// One entry of the manage screen, worked out fresh each time it is drawn so
/// that deleting a backup immediately greys out restoring from it.
pub struct ManageItem {
    pub label: &'static str,
    pub hint: String,
    pub detail: &'static str,
    pub enabled: bool,
    pub danger: bool,
}

#[verifier::ext_equal]
pub struct ItemModel {
    pub label: Seq<char>,
    pub hint: Seq<char>,
    pub detail: Seq<char>,
    pub enabled: bool,
    pub danger: bool,
}

impl View for ManageItem {
    type V = ItemModel;

    open spec fn view(&self) -> ItemModel {
        ItemModel {
            label: self.label@,
            hint: self.hint@,
            detail: self.detail@,
            enabled: self.enabled,
            danger: self.danger,
        }
    }
}

pub open spec fn item_views(list: Seq<ManageItem>) -> Seq<ItemModel> {
    Seq::new(list.len(), |i: int| list[i]@)
}

pub const RESTORE_DETAIL: &'static str =
    "Copies the untouched module back over the patched one. Discord goes back to behaving exactly as it shipped. Do this before letting Discord update: it checks the module's hash before applying an update, and a patched file makes the update fail silently.";

pub const DELETE_DETAIL: &'static str =
    "Removes this tool's copy of the original module. It frees the space, and it means this install can no longer be restored — the only way back would be to delete the module and let Discord download it again.";

pub const REINSTALL_DETAIL: &'static str =
    "Removes the voice module and clears Discord's record of having installed it, so that it downloads a current one the next time it starts. Both halves are needed: Discord's updater trusts that record without checking the files, so a module deleted on its own is never replaced and the client reports itself corrupt instead. Use this when a module was patched by something that kept no backup, or when an update is stuck. Your logins, servers and settings are not in that record and are not touched; a copy of it is kept.";

pub const ITEM_COUNT: usize = 4;

/// The entries of the manage screen for a row of the opening list.
pub open spec fn items_for(target: Option<TargetModel>, copies: CopiesModel) -> Seq<ItemModel> {
    let install = match target {
        Some(t) => targets::install_of(t),
        None => None,
    };
    let has_backup = install is Some && copies.backup;
    let size = if install is Some {
        copies.size
    } else {
        None
    };
    let is_install = match target {
        Some(t) => t.kind is Ready || t.kind is NoModule,
        None => false,
    };
    let has_module = match target {
        Some(t) => targets::node_of(t) is Some,
        None => false,
    };
    seq![
        ItemModel {
            label: "Restore the original module"@,
            hint: if !has_module {
                "no module to restore onto"@
            } else {
                match size {
                    Some(n) => "backup, "@ + theme::size_text(n),
                    None => "no backup on record"@,
                }
            },
            detail: RESTORE_DETAIL@,
            enabled: has_backup && has_module,
            danger: false,
        },
        ItemModel {
            label: "Delete the backup"@,
            hint: match size {
                Some(n) => "frees "@ + theme::size_text(n),
                None => "nothing to delete"@,
            },
            detail: DELETE_DETAIL@,
            enabled: has_backup,
            danger: true,
        },
        ItemModel {
            label: "Reinstall the voice module"@,
            hint: if !is_install {
                "only for a real Discord install"@
            } else if has_module {
                "downloads a fresh one"@
            } else {
                "the way back from a missing module"@
            },
            detail: REINSTALL_DETAIL@,
            enabled: is_install,
            danger: true,
        },
        ItemModel {
            label: "Back"@,
            hint: ""@,
            detail: "Return to the readout."@,
            enabled: true,
            danger: false,
        },
    ]
}

/// The first entry that can be chosen.
pub open spec fn first_enabled(items: Seq<ItemModel>) -> int {
    if items[0].enabled {
        0
    } else if items[1].enabled {
        1
    } else if items[2].enabled {
        2
    } else {
        3
    }
}

/// A row of the opening list, where there is one.
pub open spec fn row_view(target: Option<&Target>) -> Option<TargetModel> {
    match target {
        Some(t) => Some(t@),
        None => None,
    }
}

/// The entries of the manage screen for a row of the opening list.
pub fn items(target: Option<&Target>, copies: &Copies) -> (res: Vec<ManageItem>)
    ensures
        item_views(res@) == items_for(row_view(target), copies@),
        res@.len() == ITEM_COUNT,
{
    let has_install = match target {
        Some(t) => t.install().is_some(),
        None => false,
    };
    let is_install = match target {
        Some(t) => t.is_install(),
        None => false,
    };
    let has_module = match target {
        Some(t) => t.node().is_some(),
        None => false,
    };
    let has_backup = has_install && copies.backup;
    let size: Option<u64> = if has_install {
        copies.size
    } else {
        None
    };
    // The backup is one file; the module directory around it holds a dozen more.
    // With the directory gone there is nowhere to put it back that Discord would
    // accept.
    let restore_hint = if !has_module {
        "no module to restore onto".to_owned()
    } else {
        match size {
            Some(n) => cat2("backup, ", bytes(n).as_str()),
            None => "no backup on record".to_owned(),
        }
    };
    let delete_hint = match size {
        Some(n) => cat2("frees ", bytes(n).as_str()),
        None => "nothing to delete".to_owned(),
    };
    let reinstall_hint = if !is_install {
        "only for a real Discord install"
    } else if has_module {
        "downloads a fresh one"
    } else {
        "the way back from a missing module"
    };
    let mut out: Vec<ManageItem> = Vec::new();
    out.push(
        ManageItem {
            label: "Restore the original module",
            hint: restore_hint,
            detail: RESTORE_DETAIL,
            enabled: has_backup && has_module,
            danger: false,
        },
    );
    out.push(
        ManageItem {
            label: "Delete the backup",
            hint: delete_hint,
            detail: DELETE_DETAIL,
            enabled: has_backup,
            danger: true,
        },
    );
    out.push(
        ManageItem {
            label: "Reinstall the voice module",
            hint: reinstall_hint.to_owned(),
            detail: REINSTALL_DETAIL,
            enabled: is_install,
            danger: true,
        },
    );
    out.push(
        ManageItem {
            label: "Back",
            hint: "".to_owned(),
            detail: "Return to the readout.",
            enabled: true,
            danger: false,
        },
    );
    assert(item_views(out@) =~= items_for(row_view(target), copies@));
    out
}

// ---------------------------------------------------------------------------
// Laws
// ---------------------------------------------------------------------------

/// A dialog that warns starts on the answer that does nothing.
pub proof fn law_warnings_default_to_cancel(
    install: InstallModel,
    node: Seq<char>,
    other: Option<Seq<char>>,
    cfg: ConfigModel,
    pids: Seq<u32>,
    gaps: int,
    path: Seq<char>,
    module_dir: Option<Seq<char>>,
    registry: Option<Seq<char>>,
    backup: bool,
)
    ensures
        ({
            let asked = seq![
                nothing_selected(),
                patch_question(install, node, cfg, pids, gaps),
                restore_question(install, node),
                delete_question(install, path),
                reinstall_question(install, other, module_dir, registry, backup),
            ];
            &&& forall|k: int| 0 <= k < 5 ==> ((#[trigger] asked[k]).danger <==> asked[k].cursor == 1)
            &&& forall|k: int| 0 <= k < 5 ==> 0 <= (#[trigger] asked[k]).cursor <= 1
        }),
{
}

/// Deleting the only way back, and deleting the module itself, always warn.
pub proof fn law_deleting_always_warns(
    install: InstallModel,
    node: Option<Seq<char>>,
    path: Seq<char>,
    module_dir: Option<Seq<char>>,
    registry: Option<Seq<char>>,
    backup: bool,
)
    ensures
        delete_question(install, path).danger,
        reinstall_question(install, node, module_dir, registry, backup).danger,
{
}

/// Every dialog that writes names the file it is about to touch in its first line.
pub proof fn law_dialogs_name_the_file(
    install: InstallModel,
    node: Seq<char>,
    cfg: ConfigModel,
    pids: Seq<u32>,
    gaps: int,
    path: Seq<char>,
    dir: Seq<char>,
    registry: Option<Seq<char>>,
    backup: bool,
)
    ensures
        patch_question(install, node, cfg, pids, gaps).body[0] == "This writes to "@ + node,
        restore_question(install, node).body[0] == "This overwrites "@ + node,
        delete_question(install, path).body[0] == "This deletes "@ + path,
        reinstall_question(install, Some(node), Some(dir), registry, backup).body[0]
            == "This deletes "@ + dir,
{
}

/// The manage screen always has an entry that can be chosen, and the first such
/// one can.
pub proof fn law_the_manage_screen_is_never_stuck(
    target: Option<TargetModel>,
    copies: CopiesModel,
)
    ensures
        items_for(target, copies).len() == ITEM_COUNT,
        items_for(target, copies)[3].enabled,
        0 <= first_enabled(items_for(target, copies)) < ITEM_COUNT,
        items_for(target, copies)[first_enabled(items_for(target, copies))].enabled,
{
}

/// Without a backup there is nothing to restore from and nothing to delete, and
/// without a module there is nothing to restore onto.
pub proof fn law_restoring_needs_a_backup_and_a_module(
    target: TargetModel,
    copies: CopiesModel,
)
    ensures
        items_for(Some(target), copies)[0].enabled ==> copies.backup && targets::node_of(
            target,
        ) is Some,
        items_for(Some(target), copies)[1].enabled ==> copies.backup,
{
}

} // verus!

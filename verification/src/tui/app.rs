//! The state of the interface, and what a key or a finished job does to it.
//!
//! [`App::on_key`] turns one state into the next and names what has to be done
//! outside: read the list again, start a job, look something up on disk. The
//! answer comes back through one of the other methods.

use super::dialogs;
use super::dialogs::{
    delete_dialog, items, nothing_to_write, patch_dialog, reinstall_dialog, restore_dialog, Copies,
    CopiesModel, ManageItem, Modal, ModalModel,
};
use super::jobs;
use super::jobs::{Log, LogModel, Reply, ReplyModel, Request, RequestModel};
use super::paths;
use super::paths::{expand, Completion};
use super::targets;
use super::targets::{moved, next_selectable, Kind, Target, TargetModel, Way};
use crate::apply;
use crate::cli::{MAX_BITRATE_KBPS, MIN_BITRATE_KBPS};
use crate::discovery;
use crate::discovery::InstallModel;
use crate::patch::{Config, ConfigModel};
use crate::picker;
use crate::picker::{chosen_names, default_switches, every_switch};
use crate::sites;
use crate::sites::groups;
use crate::sites::groups::{Group, GroupModel};
use crate::status;
use crate::status::{Inspection, InspectionModel};
use crate::text;
use crate::text::{cat2, chars_of, push_char, slice_of, str_eq, trim};
use vstd::prelude::*;

verus! {

// ---------------------------------------------------------------------------
// The state
// ---------------------------------------------------------------------------

#[derive(PartialEq, Eq, Clone, Copy, Structural)]
pub enum Screen {
    Targets,
    AskPath,
    Overview,
    Patch,
    Manage,
    Result,
}

#[derive(PartialEq, Eq, Clone, Copy, Structural)]
pub enum Focus {
    Status,
    Actions,
}

/// A key, as the interface knows it.
#[derive(PartialEq, Eq, Clone, Copy, Structural)]
pub enum Key {
    Char(char),
    Enter,
    Esc,
    Backspace,
    Tab,
    BackTab,
    Up,
    Down,
    Left,
    Right,
    /// Ctrl-C.
    Interrupt,
    Other,
}

pub struct App {
    pub targets: Vec<Target>,
    pub target_cursor: usize,
    pub screen: Screen,
    pub focus: Focus,
    pub current: Option<usize>,
    pub inspection: Option<Inspection>,
    pub status_cursor: usize,
    pub action_cursor: usize,
    pub groups_on: Vec<bool>,
    pub group_cursor: usize,
    pub seeded_from_module: bool,
    pub bitrate: u32,
    /// The bits of the gain.
    pub gain: u32,
    pub manage_cursor: usize,
    pub input: String,
    pub input_error: Option<String>,
    pub log: Option<Log>,
    pub log_scroll: u16,
    pub modal: Option<Modal>,
    pub busy: Option<&'static str>,
    pub tick: u64,
    /// A module named by path, kept here rather than only in the list so that
    /// rebuilding the list after a write does not lose the row you are
    /// standing on.
    pub loose: Option<String>,
    pub quit: bool,
}

#[verifier::ext_equal]
pub struct AppModel {
    pub targets: Seq<TargetModel>,
    pub target_cursor: int,
    pub screen: Screen,
    pub focus: Focus,
    pub current: Option<int>,
    pub inspection: Option<InspectionModel>,
    pub status_cursor: int,
    pub action_cursor: int,
    pub groups_on: Seq<bool>,
    pub group_cursor: int,
    pub seeded_from_module: bool,
    pub bitrate: int,
    pub gain: int,
    pub manage_cursor: int,
    pub input: Seq<char>,
    pub input_error: Option<Seq<char>>,
    pub log: Option<LogModel>,
    pub log_scroll: int,
    pub modal: Option<ModalModel>,
    pub busy: Option<Seq<char>>,
    pub tick: int,
    pub loose: Option<Seq<char>>,
    pub quit: bool,
}

pub open spec fn inspection_view(i: Option<Inspection>) -> Option<InspectionModel> {
    match i {
        Some(i) => Some(i@),
        None => None,
    }
}

pub open spec fn log_view(log: Option<Log>) -> Option<LogModel> {
    match log {
        Some(log) => Some(log@),
        None => None,
    }
}

pub open spec fn modal_view(modal: Option<Modal>) -> Option<ModalModel> {
    match modal {
        Some(m) => Some(m@),
        None => None,
    }
}

impl View for App {
    type V = AppModel;

    open spec fn view(&self) -> AppModel {
        AppModel {
            targets: targets::target_views(self.targets@),
            target_cursor: self.target_cursor as int,
            screen: self.screen,
            focus: self.focus,
            current: match self.current {
                Some(i) => Some(i as int),
                None => None,
            },
            inspection: inspection_view(self.inspection),
            status_cursor: self.status_cursor as int,
            action_cursor: self.action_cursor as int,
            groups_on: self.groups_on@,
            group_cursor: self.group_cursor as int,
            seeded_from_module: self.seeded_from_module,
            bitrate: self.bitrate as int,
            gain: self.gain as int,
            manage_cursor: self.manage_cursor as int,
            input: self.input@,
            input_error: discovery::opt_text(self.input_error),
            log: log_view(self.log),
            log_scroll: self.log_scroll as int,
            modal: modal_view(self.modal),
            busy: match self.busy {
                Some(s) => Some(s@),
                None => None,
            },
            tick: self.tick as int,
            loose: discovery::opt_text(self.loose),
            quit: self.quit,
        }
    }
}

pub const ACTION_COUNT: usize = 3;

/// What the readout offers to do next.
pub open spec fn actions() -> Seq<(Seq<char>, Seq<char>)> {
    seq![
        ("Patch this module"@, "Choose what to change, then write it."@),
        ("Manage copies on disk"@, "Restore the original, or start fresh."@),
        ("Back to the list"@, "Pick a different Discord install."@),
    ]
}

/// Every cursor is on something, every dialog has one of its two answers marked,
/// the bitrate is one that may be written, and a readout can be put into words.
pub open spec fn well_formed(a: AppModel) -> bool {
    &&& 0 <= a.action_cursor < ACTION_COUNT
    &&& a.groups_on.len() == groups::GROUP_COUNT
    &&& 0 <= a.group_cursor < groups::GROUP_COUNT
    &&& MIN_BITRATE_KBPS <= a.bitrate <= MAX_BITRATE_KBPS
    &&& 0 <= a.manage_cursor < dialogs::ITEM_COUNT
    &&& a.modal matches Some(m) ==> 0 <= m.cursor <= 1
    &&& a.inspection matches Some(i) ==> 0 <= a.status_cursor && (i.rows.len() > 0
        ==> a.status_cursor < i.rows.len())
}

/// The row that is being looked at.
pub open spec fn target_of(a: AppModel) -> Option<TargetModel> {
    match a.current {
        Some(i) => if 0 <= i < a.targets.len() {
            Some(a.targets[i])
        } else {
            None
        },
        None => None,
    }
}

/// The module that is being looked at.
pub open spec fn current_node(a: AppModel) -> Option<Seq<char>> {
    match target_of(a) {
        Some(t) => targets::node_of(t),
        None => None,
    }
}

/// The install that is being looked at.
pub open spec fn current_install(a: AppModel) -> Option<InstallModel> {
    match target_of(a) {
        Some(t) => targets::install_of(t),
        None => None,
    }
}

pub open spec fn can_act(a: AppModel, index: int) -> bool {
    index != 0 || current_node(a) is Some
}

/// Sites that decide mono versus stereo and could not be located.
pub open spec fn critical(a: AppModel) -> Seq<Seq<char>> {
    match a.inspection {
        Some(i) => apply::critical_below(
            apply::gaps_of(i.report),
            apply::gaps_of(i.report).len() as int,
        ),
        None => seq![],
    }
}

/// What a patch would be made with.
pub open spec fn config_of(a: AppModel) -> ConfigModel {
    ConfigModel {
        bitrate_kbps: a.bitrate,
        gain: a.gain,
        groups: picker::chosen(a.groups_on),
    }
}

/// The interface as it opens.
pub open spec fn opened_on(list: Seq<TargetModel>, bitrate: int, gain: int) -> AppModel {
    AppModel {
        targets: list,
        target_cursor: targets::first_choice(list),
        screen: Screen::Targets,
        focus: Focus::Actions,
        current: None,
        inspection: None,
        status_cursor: 0,
        action_cursor: 0,
        groups_on: picker::default_set(),
        group_cursor: 0,
        seeded_from_module: false,
        bitrate,
        gain,
        manage_cursor: 0,
        input: ""@,
        input_error: None,
        log: None,
        log_scroll: 0,
        modal: None,
        busy: None,
        tick: 0,
        loose: None,
        quit: false,
    }
}

// ---------------------------------------------------------------------------
// Effects
// ---------------------------------------------------------------------------

/// What has to be done outside before the next key.
pub enum Effect {
    Nothing,
    /// Build the opening list again and hand it to `refresh_targets`.
    Refresh,
    /// Start the job, and hand its answer to `replied`.
    Start(Request),
    /// List the directory that is being typed, and hand the result to
    /// `complete_path`.
    Complete,
    /// See whether the typed path is a file, and go on with `reject_path`,
    /// `accept_known` or `accept_loose`.
    Accept,
    /// Look at the copies on disk and hand them to `open_manage`.
    OpenManage,
    /// Look at the copies on disk and hand them to `choose_managed`.
    ChooseManaged,
    /// See whether Discord is running and hand the process ids to
    /// `confirm_patch`.
    ConfirmPatch,
}

#[verifier::ext_equal]
pub enum EffectModel {
    Nothing,
    Refresh,
    Start(RequestModel),
    Complete,
    Accept,
    OpenManage,
    ChooseManaged,
    ConfirmPatch,
}

impl View for Effect {
    type V = EffectModel;

    open spec fn view(&self) -> EffectModel {
        match *self {
            Effect::Nothing => EffectModel::Nothing,
            Effect::Refresh => EffectModel::Refresh,
            Effect::Start(r) => EffectModel::Start(r@),
            Effect::Complete => EffectModel::Complete,
            Effect::Accept => EffectModel::Accept,
            Effect::OpenManage => EffectModel::OpenManage,
            Effect::ChooseManaged => EffectModel::ChooseManaged,
            Effect::ConfirmPatch => EffectModel::ConfirmPatch,
        }
    }
}

pub open spec fn still(a: AppModel) -> (AppModel, EffectModel) {
    (a, EffectModel::Nothing)
}

pub open spec fn started(a: AppModel, request: RequestModel) -> (AppModel, EffectModel) {
    (AppModel { busy: Some(jobs::verb_of(request)), ..a }, EffectModel::Start(request))
}

/// The module is read again, if there is one.
pub open spec fn rescanned(a: AppModel) -> (AppModel, EffectModel) {
    match current_node(a) {
        Some(node) => started(
            AppModel { inspection: None, ..a },
            RequestModel::Scan { install: current_install(a), node },
        ),
        None => still(a),
    }
}

/// A row of the opening list is opened.
pub open spec fn opened(a: AppModel, index: int) -> (AppModel, EffectModel) {
    rescanned(
        AppModel {
            current: Some(index),
            screen: Screen::Overview,
            focus: Focus::Actions,
            action_cursor: 0,
            status_cursor: 0,
            manage_cursor: 0,
            ..a
        },
    )
}

/// Back to the opening list.
pub open spec fn left(a: AppModel) -> AppModel {
    AppModel { screen: Screen::Targets, current: None, inspection: None, ..a }
}

// ---------------------------------------------------------------------------
// Bitrate
// ---------------------------------------------------------------------------

/// Bitrate steps, coarse where the differences stop being audible.
pub open spec fn stops() -> Seq<int> {
    seq![8int, 16, 24, 32, 48, 64, 96, 128, 160, 192, 224, 248, 256, 320, 384, 448, 512]
}

pub const STOP_COUNT: usize = 17;

/// The first stop that is not below the current bitrate, from place `i` on, or
/// the last one.
pub open spec fn stop_at(current: int, i: int) -> int
    decreases STOP_COUNT - i,
{
    if i >= STOP_COUNT - 1 || stops()[i] >= current {
        i
    } else {
        stop_at(current, i + 1)
    }
}

pub open spec fn clamped(i: int) -> int {
    if i < 0 {
        0
    } else if i >= STOP_COUNT {
        STOP_COUNT - 1
    } else {
        i
    }
}

/// The bitrate that many steps up or down.
pub open spec fn stepped(current: int, direction: int) -> int {
    stops()[clamped(stop_at(current, 0) + direction)]
}

fn stop_list() -> (res: Vec<u32>)
    ensures
        res@.len() == STOP_COUNT,
        forall|i: int| 0 <= i < STOP_COUNT ==> #[trigger] res@[i] == stops()[i],
{
    let res: Vec<u32> = vec![
        8, 16, 24, 32, 48, 64, 96, 128, 160, 192, 224, 248, 256, 320, 384, 448, 512,
    ];
    res
}

/// The bitrate that many steps up or down from `current`, and never off the scale.
pub fn step_bitrate(current: u32, direction: i32) -> (res: u32)
    requires
        direction <= i32::MAX - STOP_COUNT,
    ensures
        res == stepped(current as int, direction as int),
        MIN_BITRATE_KBPS <= res <= MAX_BITRATE_KBPS,
{
    let list = stop_list();
    let mut i: usize = 0;
    while i < STOP_COUNT - 1 && list[i] < current
        invariant
            i < STOP_COUNT,
            list@.len() == STOP_COUNT,
            forall|k: int| 0 <= k < STOP_COUNT ==> #[trigger] list@[k] == stops()[k],
            stop_at(current as int, 0) == stop_at(current as int, i as int),
        decreases STOP_COUNT - i,
    {
        i = i + 1;
    }
    let next: i32 = i as i32 + direction;
    let place: usize = if next < 0 {
        0
    } else if next as usize >= STOP_COUNT {
        STOP_COUNT - 1
    } else {
        next as usize
    };
    assert(place == clamped(stop_at(current as int, 0) + direction));
    list[place]
}

// ---------------------------------------------------------------------------
// Keys
// ---------------------------------------------------------------------------

pub open spec fn is_up(key: Key) -> bool {
    key == Key::Up || key == Key::Char('k')
}

pub open spec fn is_down(key: Key) -> bool {
    key == Key::Down || key == Key::Char('j')
}

/// One step up in a list of `n` whose ends meet.
pub open spec fn above(i: int, n: int) -> int {
    if i == 0 {
        n - 1
    } else {
        i - 1
    }
}

/// One step down in a list of `n` whose ends meet.
pub open spec fn below(i: int, n: int) -> int {
    if i + 1 == n {
        0
    } else {
        i + 1
    }
}

pub open spec fn on_targets(a: AppModel, key: Key) -> (AppModel, EffectModel) {
    if key == Key::Char('q') || key == Key::Esc {
        still(AppModel { quit: true, ..a })
    } else if is_up(key) {
        still(
            AppModel {
                target_cursor: targets::moved_from(a.targets, a.target_cursor, Way::Up),
                ..a
            },
        )
    } else if is_down(key) {
        still(
            AppModel {
                target_cursor: targets::moved_from(a.targets, a.target_cursor, Way::Down),
                ..a
            },
        )
    } else if key == Key::Char('r') {
        (a, EffectModel::Refresh)
    } else if key == Key::Enter && 0 <= a.target_cursor < a.targets.len() {
        let t = a.targets[a.target_cursor];
        if t.kind is AskForPath {
            still(AppModel { screen: Screen::AskPath, input_error: None, ..a })
        } else if targets::can_select(t) {
            opened(a, a.target_cursor)
        } else {
            still(a)
        }
    } else {
        still(a)
    }
}

pub open spec fn on_ask_path(a: AppModel, key: Key) -> (AppModel, EffectModel) {
    match key {
        Key::Esc => still(AppModel { screen: Screen::Targets, input_error: None, ..a }),
        Key::Backspace => still(
            AppModel {
                input: if a.input.len() > 0 {
                    a.input.drop_last()
                } else {
                    a.input
                },
                input_error: None,
                ..a
            },
        ),
        Key::Tab => (a, EffectModel::Complete),
        Key::Enter => (a, EffectModel::Accept),
        Key::Char(c) => still(AppModel { input: a.input.push(c), input_error: None, ..a }),
        _ => still(a),
    }
}

pub open spec fn on_overview(a: AppModel, key: Key) -> (AppModel, EffectModel) {
    let rows = match a.inspection {
        Some(i) => i.rows.len() as int,
        None => 0,
    };
    if key == Key::Char('q') {
        still(AppModel { quit: true, ..a })
    } else if key == Key::Esc || key == Key::Backspace || key == Key::Left {
        still(left(a))
    } else if key == Key::Tab || key == Key::BackTab {
        still(
            AppModel {
                focus: match a.focus {
                    Focus::Status => Focus::Actions,
                    Focus::Actions => Focus::Status,
                },
                ..a
            },
        )
    } else if key == Key::Char('r') {
        rescanned(a)
    } else if key == Key::Char('p') {
        if can_act(a, 0) {
            still(AppModel { screen: Screen::Patch, ..a })
        } else {
            still(a)
        }
    } else if key == Key::Char('m') {
        (a, EffectModel::OpenManage)
    } else if is_up(key) {
        match a.focus {
            Focus::Status => if rows > 0 {
                still(AppModel { status_cursor: above(a.status_cursor, rows), ..a })
            } else {
                still(a)
            },
            Focus::Actions => still(
                AppModel { action_cursor: above(a.action_cursor, ACTION_COUNT as int), ..a },
            ),
        }
    } else if is_down(key) {
        match a.focus {
            Focus::Status => if rows > 0 {
                still(AppModel { status_cursor: below(a.status_cursor, rows), ..a })
            } else {
                still(a)
            },
            Focus::Actions => still(
                AppModel { action_cursor: below(a.action_cursor, ACTION_COUNT as int), ..a },
            ),
        }
    } else if key == Key::Enter || key == Key::Right {
        match a.focus {
            // Enter in the readout means "I have read this", not "do the
            // highlighted thing" — there is no highlighted thing there.
            Focus::Status => still(AppModel { focus: Focus::Actions, ..a }),
            Focus::Actions => if !can_act(a, a.action_cursor) {
                still(a)
            } else if a.action_cursor == 0 {
                still(AppModel { screen: Screen::Patch, ..a })
            } else if a.action_cursor == 1 {
                (a, EffectModel::OpenManage)
            } else {
                still(left(a))
            },
        }
    } else {
        still(a)
    }
}

pub open spec fn on_patch(a: AppModel, key: Key) -> (AppModel, EffectModel) {
    let n = groups::GROUP_COUNT as int;
    if key == Key::Esc || key == Key::Backspace {
        still(AppModel { screen: Screen::Overview, ..a })
    } else if key == Key::Char('q') {
        still(AppModel { quit: true, ..a })
    } else if is_up(key) {
        still(AppModel { group_cursor: above(a.group_cursor, n), ..a })
    } else if is_down(key) {
        still(AppModel { group_cursor: below(a.group_cursor, n), ..a })
    } else if key == Key::Char(' ') {
        still(
            AppModel {
                groups_on: a.groups_on.update(a.group_cursor, !a.groups_on[a.group_cursor]),
                seeded_from_module: false,
                ..a
            },
        )
    } else if key == Key::Char('a') {
        still(AppModel { groups_on: picker::all_set(true), seeded_from_module: false, ..a })
    } else if key == Key::Char('n') {
        still(AppModel { groups_on: picker::all_set(false), seeded_from_module: false, ..a })
    } else if key == Key::Char('d') {
        still(AppModel { groups_on: picker::default_set(), seeded_from_module: false, ..a })
    } else if key == Key::Left || key == Key::Char('-') {
        still(AppModel { bitrate: stepped(a.bitrate, -1), ..a })
    } else if key == Key::Right || key == Key::Char('+') || key == Key::Char('=') {
        still(AppModel { bitrate: stepped(a.bitrate, 1), ..a })
    } else if key == Key::Enter {
        (a, EffectModel::ConfirmPatch)
    } else {
        still(a)
    }
}

pub open spec fn on_manage(a: AppModel, key: Key) -> (AppModel, EffectModel) {
    let n = dialogs::ITEM_COUNT as int;
    if key == Key::Esc || key == Key::Backspace {
        still(AppModel { screen: Screen::Overview, ..a })
    } else if key == Key::Char('q') {
        still(AppModel { quit: true, ..a })
    } else if is_up(key) {
        still(AppModel { manage_cursor: above(a.manage_cursor, n), ..a })
    } else if is_down(key) {
        still(AppModel { manage_cursor: below(a.manage_cursor, n), ..a })
    } else if key == Key::Enter {
        (a, EffectModel::ChooseManaged)
    } else {
        still(a)
    }
}

pub open spec fn on_result(a: AppModel, key: Key) -> (AppModel, EffectModel) {
    if key == Key::Char('q') {
        still(AppModel { quit: true, ..a })
    } else if is_up(key) {
        still(
            AppModel {
                log_scroll: if a.log_scroll > 0 {
                    a.log_scroll - 1
                } else {
                    0
                },
                ..a
            },
        )
    } else if is_down(key) {
        still(
            AppModel {
                log_scroll: if a.log_scroll < u16::MAX {
                    a.log_scroll + 1
                } else {
                    u16::MAX as int
                },
                ..a
            },
        )
    } else if key == Key::Enter || key == Key::Esc || key == Key::Backspace {
        if target_of(a) is Some {
            let b = AppModel {
                log: None,
                screen: Screen::Overview,
                focus: Focus::Actions,
                action_cursor: 0,
                ..a
            };
            if a.inspection is None {
                rescanned(b)
            } else {
                still(b)
            }
        } else {
            // Whatever it described is no longer on the list at all.
            (AppModel { log: None, screen: Screen::Targets, ..a }, EffectModel::Refresh)
        }
    } else {
        still(a)
    }
}

pub open spec fn on_modal(a: AppModel, m: ModalModel, key: Key) -> (AppModel, EffectModel) {
    if key == Key::Esc {
        still(AppModel { modal: None, ..a })
    } else if key == Key::Left || key == Key::Right || key == Key::Tab || key == Key::BackTab {
        still(AppModel { modal: Some(ModalModel { cursor: 1 - m.cursor, ..m }), ..a })
    } else if key == Key::Enter {
        let closed = AppModel { modal: None, ..a };
        if m.cursor == 0 {
            match m.request {
                Some(request) => started(closed, request),
                None => still(closed),
            }
        } else {
            still(closed)
        }
    } else {
        still(a)
    }
}

/// What a key does.
pub open spec fn pressed(a: AppModel, key: Key) -> (AppModel, EffectModel) {
    if key == Key::Interrupt {
        // Ctrl-C always leaves, including out of a dialog or a running job.
        still(AppModel { quit: true, ..a })
    } else if a.modal is Some {
        on_modal(a, a.modal->0, key)
    } else if a.busy is Some {
        // A job owns the file for as long as it runs. The user may leave the
        // program, but not start a second one on top of the first.
        still(a)
    } else {
        match a.screen {
            Screen::Targets => on_targets(a, key),
            Screen::AskPath => on_ask_path(a, key),
            Screen::Overview => on_overview(a, key),
            Screen::Patch => on_patch(a, key),
            Screen::Manage => on_manage(a, key),
            Screen::Result => on_result(a, key),
        }
    }
}

// ---------------------------------------------------------------------------
// Answers from outside
// ---------------------------------------------------------------------------

/// The first row that stands for the same thing as `row`.
pub open spec fn place_of(list: Seq<TargetModel>, row: TargetModel, i: int) -> Option<int>
    decreases list.len() - i,
{
    if i >= list.len() {
        None
    } else if targets::same_row(list[i], row) {
        Some(i)
    } else {
        place_of(list, row, i + 1)
    }
}

/// The list was built again. The row that was being looked at is found by its
/// label and its install's directory: after a reinstall the row that was standing
/// on a module now has no module, and matching on the module's path would lose it
/// exactly when its manage screen is what you want.
pub open spec fn refreshed(a: AppModel, list: Seq<TargetModel>) -> AppModel {
    let current = match target_of(a) {
        Some(t) => place_of(list, t, 0),
        None => None,
    };
    AppModel {
        targets: list,
        current,
        target_cursor: match current {
            Some(i) => i,
            None => targets::first_choice(list),
        },
        ..a
    }
}

/// Some site of the group is patched.
pub open spec fn group_patched(i: InspectionModel, name: Seq<char>) -> bool {
    status::applied_below(i.sites, name, sites::catalogue().len() as int) > 0
}

/// Which groups a module has something of.
pub open spec fn carried(i: InspectionModel) -> Seq<bool> {
    groups::group_catalogue().map_values(|g: GroupModel| group_patched(i, g.name))
}

/// The module has something of some group.
pub open spec fn any_carried(i: InspectionModel) -> bool {
    exists|k: int| 0 <= k < groups::GROUP_COUNT && #[trigger] carried(i)[k]
}

/// The patch screen starts from what the module already has rather than from the
/// defaults, so that re-patching an install keeps the choices its owner made last
/// time instead of quietly reverting them.
pub open spec fn seeded(a: AppModel, i: InspectionModel) -> AppModel {
    if !any_carried(i) {
        AppModel { groups_on: picker::default_set(), seeded_from_module: false, ..a }
    } else {
        AppModel {
            groups_on: carried(i),
            seeded_from_module: true,
            // The locked bitrate is a number its owner chose once; reading it back
            // keeps the control from silently resetting on every re-patch.
            bitrate: match i.bitrate_bps {
                Some(bps) => if MIN_BITRATE_KBPS <= bps / 1000 <= MAX_BITRATE_KBPS {
                    bps / 1000
                } else {
                    a.bitrate
                },
                None => a.bitrate,
            },
            ..a
        }
    }
}

/// A job answered.
pub open spec fn answered(a: AppModel, reply: ReplyModel) -> (AppModel, EffectModel) {
    let a = AppModel { busy: None, ..a };
    match reply {
        ReplyModel::Scanned(i) => still(
            AppModel { inspection: Some(i), status_cursor: 0, ..seeded(a, i) },
        ),
        ReplyModel::Finished(log) => {
            let b = AppModel { log: Some(log), log_scroll: 0, screen: Screen::Result, ..a };
            if log.changed {
                // The module on disk is not what the readout describes any more.
                (AppModel { inspection: None, ..b }, EffectModel::Refresh)
            } else {
                still(b)
            }
        },
        ReplyModel::Lost => still(a),
    }
}

/// The first row of an install whose module is that file.
pub open spec fn ready_place(list: Seq<TargetModel>, node: Seq<char>, i: int) -> Option<int>
    decreases list.len() - i,
{
    if i >= list.len() {
        None
    } else if list[i].kind is Ready && targets::node_of(list[i]) == Some(node) {
        Some(i)
    } else {
        ready_place(list, node, i + 1)
    }
}

/// The first row of a module named by path.
pub open spec fn loose_place(list: Seq<TargetModel>, i: int) -> Option<int>
    decreases list.len() - i,
{
    if i >= list.len() {
        None
    } else if list[i].kind is Loose {
        Some(i)
    } else {
        loose_place(list, i + 1)
    }
}

/// A path was typed that is no install's module; `list` holds it.
pub open spec fn with_loose(a: AppModel, path: Seq<char>, list: Seq<TargetModel>) -> (
    AppModel,
    EffectModel,
) {
    let b = AppModel { loose: Some(path), targets: list, ..a };
    match loose_place(list, 0) {
        Some(i) => opened(b, i),
        None => still(AppModel { input_error: Some("could not read that file"@), ..b }),
    }
}

/// The manage screen is opened with the cursor on something that can actually be
/// chosen — starting it on a greyed-out row invites a keypress that does nothing,
/// which reads as the program being stuck.
pub open spec fn managing(a: AppModel, copies: CopiesModel) -> AppModel {
    AppModel {
        manage_cursor: dialogs::first_enabled(dialogs::items_for(target_of(a), copies)),
        screen: Screen::Manage,
        ..a
    }
}

/// What the entry under the cursor of the manage screen asks.
pub open spec fn managed(a: AppModel, copies: CopiesModel) -> AppModel {
    let list = dialogs::items_for(target_of(a), copies);
    if !list[a.manage_cursor].enabled {
        a
    } else if a.manage_cursor == 0 {
        match (current_install(a), current_node(a)) {
            (Some(install), Some(node)) => AppModel {
                modal: Some(dialogs::restore_question(install, node)),
                ..a
            },
            _ => a,
        }
    } else if a.manage_cursor == 1 {
        match current_install(a) {
            Some(install) => AppModel {
                modal: Some(dialogs::delete_question(install, copies.backup_path)),
                ..a
            },
            None => a,
        }
    } else if a.manage_cursor == 2 {
        match current_install(a) {
            Some(install) => AppModel {
                modal: Some(
                    dialogs::reinstall_question(
                        install,
                        current_node(a),
                        copies.module_dir,
                        copies.registry,
                        copies.backup,
                    ),
                ),
                ..a
            },
            None => a,
        }
    } else {
        AppModel { screen: Screen::Overview, ..a }
    }
}

/// What is asked before patching.
pub open spec fn asked_to_patch(a: AppModel, pids: Seq<u32>) -> AppModel {
    match (current_install(a), current_node(a)) {
        (Some(install), Some(node)) => AppModel {
            modal: Some(
                if config_of(a).groups.len() == 0 {
                    dialogs::nothing_selected()
                } else {
                    dialogs::patch_question(
                        install,
                        node,
                        config_of(a),
                        pids,
                        critical(a).len() as int,
                    )
                },
            ),
            ..a
        },
        _ => a,
    }
}

// ---------------------------------------------------------------------------
// The methods
// ---------------------------------------------------------------------------

fn up_in(i: usize, n: usize) -> (res: usize)
    requires
        i < n,
    ensures
        res == above(i as int, n as int),
        res < n,
{
    if i == 0 {
        n - 1
    } else {
        i - 1
    }
}

fn down_in(i: usize, n: usize) -> (res: usize)
    requires
        i < n,
    ensures
        res == below(i as int, n as int),
        res < n,
{
    if i + 1 == n {
        0
    } else {
        i + 1
    }
}

/// The first row that can be selected, or the first row of all.
fn start_row(list: &Vec<Target>) -> (res: usize)
    ensures
        res == targets::first_choice(targets::target_views(list@)),
{
    match next_selectable(list, 0, Way::Down) {
        Some(i) => i,
        None => 0,
    }
}

/// The first row that stands for the same thing as `row`.
fn find_row(list: &Vec<Target>, row: &Target) -> (res: Option<usize>)
    ensures
        match res {
            Some(i) => place_of(targets::target_views(list@), row@, 0) == Some(i as int),
            None => place_of(targets::target_views(list@), row@, 0) is None,
        },
{
    let ghost all = targets::target_views(list@);
    let mut i: usize = 0;
    while i < list.len()
        invariant
            i <= list@.len(),
            all == targets::target_views(list@),
            place_of(all, row@, 0) == place_of(all, row@, i as int),
        decreases list@.len() - i,
    {
        assert(all[i as int] == list@[i as int]@);
        if list[i].is_same_row(row) {
            return Some(i);
        }
        i = i + 1;
    }
    None
}

/// The first row of an install whose module is that file.
fn find_ready(list: &Vec<Target>, path: &str) -> (res: Option<usize>)
    ensures
        match res {
            Some(i) => ready_place(targets::target_views(list@), path@, 0) == Some(i as int),
            None => ready_place(targets::target_views(list@), path@, 0) is None,
        },
{
    let ghost all = targets::target_views(list@);
    let mut i: usize = 0;
    while i < list.len()
        invariant
            i <= list@.len(),
            all == targets::target_views(list@),
            ready_place(all, path@, 0) == ready_place(all, path@, i as int),
        decreases list@.len() - i,
    {
        assert(all[i as int] == list@[i as int]@);
        if let Kind::Ready { node, .. } = &list[i].kind {
            if str_eq(node.as_str(), path) {
                return Some(i);
            }
        }
        i = i + 1;
    }
    None
}

/// The first row of a module named by path.
fn find_loose(list: &Vec<Target>) -> (res: Option<usize>)
    ensures
        match res {
            Some(i) => loose_place(targets::target_views(list@), 0) == Some(i as int),
            None => loose_place(targets::target_views(list@), 0) is None,
        },
{
    let ghost all = targets::target_views(list@);
    let mut i: usize = 0;
    while i < list.len()
        invariant
            i <= list@.len(),
            all == targets::target_views(list@),
            loose_place(all, 0) == loose_place(all, i as int),
        decreases list@.len() - i,
    {
        assert(all[i as int] == list@[i as int]@);
        if let Kind::Loose { .. } = &list[i].kind {
            return Some(i);
        }
        i = i + 1;
    }
    None
}

/// Which groups a module has something of, and whether it has of any.
fn carried_groups(inspection: &Inspection) -> (res: (Vec<bool>, bool))
    ensures
        res.0@ == carried(inspection@),
        res.0@.len() == groups::GROUP_COUNT,
        res.1 == any_carried(inspection@),
{
    let list = groups::groups();
    let ghost all = carried(inspection@);
    let mut out: Vec<bool> = Vec::new();
    let mut any = false;
    let mut i: usize = 0;
    assert(groups::group_models(list@).len() == list@.len());
    assert(out@ =~= all.take(0));
    while i < list.len()
        invariant
            i <= list@.len(),
            list@.len() == groups::GROUP_COUNT,
            all == carried(inspection@),
            all.len() == groups::GROUP_COUNT,
            groups::group_models(list@) == groups::group_catalogue(),
            out@ == all.take(i as int),
            any == exists|k: int| 0 <= k < i && #[trigger] all[k],
        decreases list@.len() - i,
    {
        let g: &'static Group = list[i];
        assert(groups::group_models(list@)[i as int] == g@);
        let on = inspection.group_roll(g.name).0 > 0;
        assert(all[i as int] == on);
        out.push(on);
        assert(out@ =~= all.take(i + 1));
        if on {
            any = true;
        }
        i = i + 1;
    }
    assert(all.take(i as int) =~= all);
    (out, any)
}

impl App {
    /// The state is well formed, and a readout on show can be looked up.
    pub open spec fn wf(&self) -> bool {
        &&& well_formed(self@)
        &&& self.inspection matches Some(i) ==> i.wf()
    }

    /// The interface as it opens: on the list, with the cursor on the first row
    /// that can be chosen.
    pub fn new(targets: Vec<Target>, bitrate: u32, gain: u32) -> (res: App)
        requires
            MIN_BITRATE_KBPS <= bitrate <= MAX_BITRATE_KBPS,
        ensures
            res.wf(),
            res@ == opened_on(targets::target_views(targets@), bitrate as int, gain as int),
    {
        let target_cursor: usize = start_row(&targets);
        App {
            targets,
            target_cursor,
            screen: Screen::Targets,
            focus: Focus::Actions,
            current: None,
            inspection: None,
            status_cursor: 0,
            action_cursor: 0,
            groups_on: default_switches(),
            group_cursor: 0,
            seeded_from_module: false,
            bitrate,
            gain,
            manage_cursor: 0,
            input: "".to_owned(),
            input_error: None,
            log: None,
            log_scroll: 0,
            modal: None,
            busy: None,
            tick: 0,
            loose: None,
            quit: false,
        }
    }

    /// The row that is being looked at.
    pub fn target(&self) -> (res: Option<&Target>)
        ensures
            dialogs::row_view(res) == target_of(self@),
    {
        match self.current {
            Some(i) => if i < self.targets.len() {
                assert(self@.targets[i as int] == self.targets@[i as int]@);
                Some(&self.targets[i])
            } else {
                None
            },
            None => None,
        }
    }

    /// Whether an action can be chosen here. Patching needs a module to patch; an
    /// install whose module was deleted still has a manage screen, and that is the
    /// whole reason it is reachable.
    pub fn action_enabled(&self, index: usize) -> (res: bool)
        ensures
            res == can_act(self@, index as int),
    {
        if index == 0 {
            match self.target() {
                Some(t) => t.node().is_some(),
                None => false,
            }
        } else {
            true
        }
    }

    /// Sites that decide mono versus stereo and could not be located.
    pub fn critical_gaps(&self) -> (res: Vec<&'static str>)
        requires
            self.wf(),
        ensures
            text::str_views(res@) == critical(self@),
    {
        match &self.inspection {
            Some(i) => {
                let gaps = apply::real_gaps(&i.report);
                assert(text::str_views(gaps@).len() == gaps@.len());
                apply::critical_gaps(&gaps)
            },
            None => {
                let none: Vec<&'static str> = Vec::new();
                assert(text::str_views(none@) =~= Seq::<Seq<char>>::empty());
                none
            },
        }
    }

    /// What a patch would be made with.
    pub fn config(&self) -> (res: Config)
        requires
            self.wf(),
        ensures
            res@ == config_of(self@),
            res.wf(),
    {
        Config {
            bitrate_kbps: self.bitrate,
            gain: self.gain,
            groups: chosen_names(&self.groups_on),
        }
    }

    /// The entries of the manage screen.
    pub fn manage_items(&self, copies: &Copies) -> (res: Vec<ManageItem>)
        ensures
            dialogs::item_views(res@) == dialogs::items_for(target_of(self@), copies@),
            res@.len() == dialogs::ITEM_COUNT,
    {
        items(self.target(), copies)
    }

    /// The spinner takes a step.
    pub fn ticked(&mut self)
        requires
            old(self).wf(),
        ensures
            final(self).wf(),
            final(self)@ == (AppModel {
                tick: if old(self)@.tick == u64::MAX {
                    0
                } else {
                    old(self)@.tick + 1
                },
                ..old(self)@
            }),
    {
        self.tick = if self.tick == u64::MAX {
            0
        } else {
            self.tick + 1
        };
    }

    fn start(&mut self, request: Request) -> (res: Effect)
        requires
            old(self).wf(),
        ensures
            final(self).wf(),
            (final(self)@, res@) == started(old(self)@, request@),
    {
        self.busy = Some(request.verb());
        Effect::Start(request)
    }

    fn rescan(&mut self) -> (res: Effect)
        requires
            old(self).wf(),
        ensures
            final(self).wf(),
            (final(self)@, res@) == rescanned(old(self)@),
    {
        let request = match self.target() {
            Some(target) => match target.node() {
                Some(node) => Some(
                    Request::Scan {
                        install: match target.install() {
                            Some(i) => Some(i.copied()),
                            None => None,
                        },
                        node: node.clone(),
                    },
                ),
                None => None,
            },
            None => None,
        };
        match request {
            Some(request) => {
                self.inspection = None;
                self.start(request)
            },
            None => Effect::Nothing,
        }
    }

    fn open_target(&mut self, index: usize) -> (res: Effect)
        requires
            old(self).wf(),
        ensures
            final(self).wf(),
            (final(self)@, res@) == opened(old(self)@, index as int),
    {
        self.current = Some(index);
        self.screen = Screen::Overview;
        self.focus = Focus::Actions;
        self.action_cursor = 0;
        self.status_cursor = 0;
        self.manage_cursor = 0;
        self.rescan()
    }

    fn leave(&mut self)
        requires
            old(self).wf(),
        ensures
            final(self).wf(),
            final(self)@ == left(old(self)@),
    {
        self.screen = Screen::Targets;
        self.current = None;
        self.inspection = None;
    }

    fn targets_key(&mut self, key: Key) -> (res: Effect)
        requires
            old(self).wf(),
        ensures
            final(self).wf(),
            (final(self)@, res@) == on_targets(old(self)@, key),
    {
        match key {
            Key::Char('q') | Key::Esc => {
                self.quit = true;
                Effect::Nothing
            },
            Key::Up | Key::Char('k') => {
                self.target_cursor = moved(&self.targets, self.target_cursor, Way::Up);
                Effect::Nothing
            },
            Key::Down | Key::Char('j') => {
                self.target_cursor = moved(&self.targets, self.target_cursor, Way::Down);
                Effect::Nothing
            },
            Key::Char('r') => Effect::Refresh,
            Key::Enter => {
                let index: usize = self.target_cursor;
                if index >= self.targets.len() {
                    return Effect::Nothing;
                }
                assert(self@.targets[index as int] == self.targets@[index as int]@);
                let asks = match &self.targets[index].kind {
                    Kind::AskForPath => true,
                    _ => false,
                };
                if asks {
                    self.screen = Screen::AskPath;
                    self.input_error = None;
                    Effect::Nothing
                } else if self.targets[index].selectable() {
                    self.open_target(index)
                } else {
                    Effect::Nothing
                }
            },
            _ => Effect::Nothing,
        }
    }

    fn ask_path_key(&mut self, key: Key) -> (res: Effect)
        requires
            old(self).wf(),
        ensures
            final(self).wf(),
            (final(self)@, res@) == on_ask_path(old(self)@, key),
    {
        match key {
            Key::Esc => {
                self.screen = Screen::Targets;
                self.input_error = None;
                Effect::Nothing
            },
            Key::Backspace => {
                let cs = chars_of(self.input.as_str());
                if cs.len() > 0 {
                    let kept = slice_of(&cs, 0, cs.len() - 1);
                    assert(kept@ =~= self.input@.drop_last());
                    self.input = kept;
                }
                self.input_error = None;
                Effect::Nothing
            },
            Key::Tab => Effect::Complete,
            Key::Enter => Effect::Accept,
            Key::Char(c) => {
                push_char(&mut self.input, c);
                self.input_error = None;
                Effect::Nothing
            },
            _ => Effect::Nothing,
        }
    }

    fn overview_key(&mut self, key: Key) -> (res: Effect)
        requires
            old(self).wf(),
        ensures
            final(self).wf(),
            (final(self)@, res@) == on_overview(old(self)@, key),
    {
        let rows: usize = match &self.inspection {
            Some(i) => i.rows.len(),
            None => 0,
        };
        match key {
            Key::Char('q') => {
                self.quit = true;
                Effect::Nothing
            },
            Key::Esc | Key::Backspace | Key::Left => {
                self.leave();
                Effect::Nothing
            },
            Key::Tab | Key::BackTab => {
                self.focus = match self.focus {
                    Focus::Status => Focus::Actions,
                    Focus::Actions => Focus::Status,
                };
                Effect::Nothing
            },
            Key::Char('r') => self.rescan(),
            Key::Char('p') => {
                if self.action_enabled(0) {
                    self.screen = Screen::Patch;
                }
                Effect::Nothing
            },
            Key::Char('m') => Effect::OpenManage,
            Key::Up | Key::Char('k') => {
                match self.focus {
                    Focus::Status => {
                        if rows > 0 {
                            self.status_cursor = up_in(self.status_cursor, rows);
                        }
                    },
                    Focus::Actions => {
                        self.action_cursor = up_in(self.action_cursor, ACTION_COUNT);
                    },
                }
                Effect::Nothing
            },
            Key::Down | Key::Char('j') => {
                match self.focus {
                    Focus::Status => {
                        if rows > 0 {
                            self.status_cursor = down_in(self.status_cursor, rows);
                        }
                    },
                    Focus::Actions => {
                        self.action_cursor = down_in(self.action_cursor, ACTION_COUNT);
                    },
                }
                Effect::Nothing
            },
            Key::Enter | Key::Right => match self.focus {
                Focus::Status => {
                    self.focus = Focus::Actions;
                    Effect::Nothing
                },
                Focus::Actions => if !self.action_enabled(self.action_cursor) {
                    Effect::Nothing
                } else if self.action_cursor == 0 {
                    self.screen = Screen::Patch;
                    Effect::Nothing
                } else if self.action_cursor == 1 {
                    Effect::OpenManage
                } else {
                    self.leave();
                    Effect::Nothing
                },
            },
            _ => Effect::Nothing,
        }
    }

    fn patch_key(&mut self, key: Key) -> (res: Effect)
        requires
            old(self).wf(),
        ensures
            final(self).wf(),
            (final(self)@, res@) == on_patch(old(self)@, key),
    {
        match key {
            Key::Esc | Key::Backspace => {
                self.screen = Screen::Overview;
            },
            Key::Char('q') => {
                self.quit = true;
            },
            Key::Up | Key::Char('k') => {
                self.group_cursor = up_in(self.group_cursor, groups::GROUP_COUNT);
            },
            Key::Down | Key::Char('j') => {
                self.group_cursor = down_in(self.group_cursor, groups::GROUP_COUNT);
            },
            Key::Char(' ') => {
                let was = self.groups_on[self.group_cursor];
                self.groups_on.set(self.group_cursor, !was);
                self.seeded_from_module = false;
            },
            Key::Char('a') => {
                self.groups_on = every_switch(true);
                self.seeded_from_module = false;
            },
            Key::Char('n') => {
                self.groups_on = every_switch(false);
                self.seeded_from_module = false;
            },
            Key::Char('d') => {
                self.groups_on = default_switches();
                self.seeded_from_module = false;
            },
            Key::Left | Key::Char('-') => {
                self.bitrate = step_bitrate(self.bitrate, -1);
            },
            Key::Right | Key::Char('+') | Key::Char('=') => {
                self.bitrate = step_bitrate(self.bitrate, 1);
            },
            Key::Enter => {
                return Effect::ConfirmPatch;
            },
            _ => {},
        }
        Effect::Nothing
    }

    fn manage_key(&mut self, key: Key) -> (res: Effect)
        requires
            old(self).wf(),
        ensures
            final(self).wf(),
            (final(self)@, res@) == on_manage(old(self)@, key),
    {
        match key {
            Key::Esc | Key::Backspace => {
                self.screen = Screen::Overview;
            },
            Key::Char('q') => {
                self.quit = true;
            },
            Key::Up | Key::Char('k') => {
                self.manage_cursor = up_in(self.manage_cursor, dialogs::ITEM_COUNT);
            },
            Key::Down | Key::Char('j') => {
                self.manage_cursor = down_in(self.manage_cursor, dialogs::ITEM_COUNT);
            },
            Key::Enter => {
                return Effect::ChooseManaged;
            },
            _ => {},
        }
        Effect::Nothing
    }

    fn result_key(&mut self, key: Key) -> (res: Effect)
        requires
            old(self).wf(),
        ensures
            final(self).wf(),
            (final(self)@, res@) == on_result(old(self)@, key),
    {
        match key {
            Key::Char('q') => {
                self.quit = true;
                Effect::Nothing
            },
            Key::Up | Key::Char('k') => {
                if self.log_scroll > 0 {
                    self.log_scroll = self.log_scroll - 1;
                }
                Effect::Nothing
            },
            Key::Down | Key::Char('j') => {
                if self.log_scroll < u16::MAX {
                    self.log_scroll = self.log_scroll + 1;
                }
                Effect::Nothing
            },
            Key::Enter | Key::Esc | Key::Backspace => {
                self.log = None;
                if self.target().is_some() {
                    self.screen = Screen::Overview;
                    self.focus = Focus::Actions;
                    self.action_cursor = 0;
                    if self.inspection.is_none() {
                        self.rescan()
                    } else {
                        Effect::Nothing
                    }
                } else {
                    self.screen = Screen::Targets;
                    Effect::Refresh
                }
            },
            _ => Effect::Nothing,
        }
    }

    fn modal_key(&mut self, key: Key) -> (res: Effect)
        requires
            old(self).wf(),
            old(self).modal is Some,
        ensures
            final(self).wf(),
            (final(self)@, res@) == on_modal(old(self)@, old(self)@.modal->0, key),
    {
        match key {
            Key::Esc => {
                self.modal = None;
                Effect::Nothing
            },
            Key::Left | Key::Right | Key::Tab | Key::BackTab => {
                if let Some(mut m) = self.modal.take() {
                    m.cursor = 1 - m.cursor;
                    self.modal = Some(m);
                }
                Effect::Nothing
            },
            Key::Enter => {
                if let Some(m) = self.modal.take() {
                    if m.cursor == 0 {
                        if let Some(request) = m.request {
                            return self.start(request);
                        }
                    }
                }
                Effect::Nothing
            },
            _ => Effect::Nothing,
        }
    }

    /// What a key does, and what has to be done outside for it.
    pub fn on_key(&mut self, key: Key) -> (res: Effect)
        requires
            old(self).wf(),
        ensures
            final(self).wf(),
            (final(self)@, res@) == pressed(old(self)@, key),
    {
        if key == Key::Interrupt {
            self.quit = true;
            return Effect::Nothing;
        }
        if self.modal.is_some() {
            return self.modal_key(key);
        }
        if self.busy.is_some() {
            return Effect::Nothing;
        }
        match self.screen {
            Screen::Targets => self.targets_key(key),
            Screen::AskPath => self.ask_path_key(key),
            Screen::Overview => self.overview_key(key),
            Screen::Patch => self.patch_key(key),
            Screen::Manage => self.manage_key(key),
            Screen::Result => self.result_key(key),
        }
    }

    /// Take in the list that was built again, and stay pointed at the same row.
    pub fn refresh_targets(&mut self, targets: Vec<Target>)
        requires
            old(self).wf(),
        ensures
            final(self).wf(),
            final(self)@ == refreshed(old(self)@, targets::target_views(targets@)),
    {
        let current: Option<usize> = match self.target() {
            Some(t) => find_row(&targets, t),
            None => None,
        };
        self.target_cursor = match current {
            Some(i) => i,
            None => start_row(&targets),
        };
        self.targets = targets;
        self.current = current;
    }

    fn seed_from(&mut self, inspection: &Inspection)
        requires
            old(self).wf(),
        ensures
            final(self).wf(),
            final(self)@ == seeded(old(self)@, inspection@),
    {
        let (switches, any) = carried_groups(inspection);
        if !any {
            self.groups_on = default_switches();
            self.seeded_from_module = false;
            return;
        }
        self.groups_on = switches;
        self.seeded_from_module = true;
        if let Some(bps) = inspection.bitrate_bps {
            let kbps: u32 = bps / 1000;
            if MIN_BITRATE_KBPS <= kbps && kbps <= MAX_BITRATE_KBPS {
                self.bitrate = kbps;
            }
        }
    }

    /// Take in what a job answered.
    pub fn replied(&mut self, reply: Reply) -> (res: Effect)
        requires
            old(self).wf(),
            reply matches Reply::Scanned(i) ==> i.wf(),
        ensures
            final(self).wf(),
            (final(self)@, res@) == answered(old(self)@, reply@),
    {
        self.busy = None;
        match reply {
            Reply::Scanned(inspection) => {
                self.seed_from(&inspection);
                self.inspection = Some(inspection);
                self.status_cursor = 0;
                Effect::Nothing
            },
            Reply::Finished(log) => {
                let changed = log.changed;
                self.log = Some(log);
                self.log_scroll = 0;
                self.screen = Screen::Result;
                if changed {
                    self.inspection = None;
                    Effect::Refresh
                } else {
                    Effect::Nothing
                }
            },
            Reply::Lost => Effect::Nothing,
        }
    }

    /// The path that was typed, spelled out, as far as it is being completed.
    pub fn typing(&self, home: &str) -> (res: String)
        ensures
            res@ == paths::expanded(self@.input, home@),
    {
        expand(self.input.as_str(), home)
    }

    /// The path that was typed, spelled out.
    pub fn typed_path(&self, home: &str) -> (res: String)
        ensures
            res@ == paths::expanded(text::trimmed(self@.input), home@),
    {
        expand(trim(self.input.as_str()).as_str(), home)
    }

    /// Take in how far the typed path goes. `is_dir` tells whether that is a
    /// directory.
    pub fn complete_path(&mut self, done: &Completion, is_dir: bool)
        requires
            old(self).wf(),
        ensures
            final(self).wf(),
            final(self)@ == (AppModel {
                input: if done.unique && is_dir {
                    done.path@ + "/"@
                } else {
                    done.path@
                },
                ..old(self)@
            }),
    {
        self.input = if done.unique && is_dir {
            cat2(done.path.as_str(), "/")
        } else {
            done.path.clone()
        };
    }

    /// The typed path is no file.
    pub fn reject_path(&mut self, path: &str)
        requires
            old(self).wf(),
        ensures
            final(self).wf(),
            final(self)@ == (AppModel {
                input_error: Some(path@ + " is not a file"@),
                ..old(self)@
            }),
    {
        self.input_error = Some(cat2(path, " is not a file"));
    }

    /// If the typed path turns out to be the module of an install already on the
    /// list, use that row: it has the channel, the version and the right backup.
    /// `None` if it is not.
    pub fn accept_known(&mut self, path: &str) -> (res: Option<Effect>)
        requires
            old(self).wf(),
        ensures
            final(self).wf(),
            match (res, ready_place(old(self)@.targets, path@, 0)) {
                (Some(effect), Some(i)) => (final(self)@, effect@) == opened(old(self)@, i),
                (None, None) => final(self)@ == old(self)@,
                _ => false,
            },
    {
        match find_ready(&self.targets, path) {
            Some(index) => Some(self.open_target(index)),
            None => None,
        }
    }

    /// The typed path is a module of its own; `targets` is the list with it.
    pub fn accept_loose(&mut self, path: &str, targets: Vec<Target>) -> (res: Effect)
        requires
            old(self).wf(),
        ensures
            final(self).wf(),
            (final(self)@, res@) == with_loose(
                old(self)@,
                path@,
                targets::target_views(targets@),
            ),
    {
        self.loose = Some(path.to_owned());
        let found: Option<usize> = find_loose(&targets);
        self.targets = targets;
        match found {
            Some(index) => self.open_target(index),
            None => {
                self.input_error = Some("could not read that file".to_owned());
                Effect::Nothing
            },
        }
    }

    /// Open the manage screen.
    pub fn open_manage(&mut self, copies: &Copies)
        requires
            old(self).wf(),
        ensures
            final(self).wf(),
            final(self)@ == managing(old(self)@, copies@),
    {
        let list = self.manage_items(copies);
        let ghost all = dialogs::item_views(list@);
        assert(all[0] == list@[0]@ && all[1] == list@[1]@ && all[2] == list@[2]@);
        self.manage_cursor = if list[0].enabled {
            0
        } else if list[1].enabled {
            1
        } else if list[2].enabled {
            2
        } else {
            3
        };
        self.screen = Screen::Manage;
    }

    /// Ask about the entry under the cursor of the manage screen.
    pub fn choose_managed(&mut self, copies: &Copies)
        requires
            old(self).wf(),
        ensures
            final(self).wf(),
            final(self)@ == managed(old(self)@, copies@),
    {
        let list = self.manage_items(copies);
        let ghost all = dialogs::item_views(list@);
        assert(all[self.manage_cursor as int] == list@[self.manage_cursor as int]@);
        if !list[self.manage_cursor].enabled {
            return;
        }
        let (install, node) = match self.target() {
            Some(t) => (
                match t.install() {
                    Some(i) => Some(i.copied()),
                    None => None,
                },
                match t.node() {
                    Some(n) => Some(n.clone()),
                    None => None,
                },
            ),
            None => (None, None),
        };
        if self.manage_cursor == 0 {
            if let Some(install) = install {
                if let Some(node) = node {
                    self.modal = Some(restore_dialog(install, node));
                }
            }
        } else if self.manage_cursor == 1 {
            if let Some(install) = install {
                self.modal = Some(delete_dialog(install, copies.backup_path.as_str()));
            }
        } else if self.manage_cursor == 2 {
            if let Some(install) = install {
                self.modal = Some(
                    reinstall_dialog(
                        install,
                        node,
                        &copies.module_dir,
                        &copies.registry,
                        copies.backup,
                    ),
                );
            }
        } else {
            self.screen = Screen::Overview;
        }
    }

    /// Ask before patching. `pids` are the clients that have the module loaded.
    pub fn confirm_patch(&mut self, pids: &Vec<u32>)
        requires
            old(self).wf(),
        ensures
            final(self).wf(),
            final(self)@ == asked_to_patch(old(self)@, pids@),
    {
        let (install, node) = match self.target() {
            Some(t) => (
                match t.install() {
                    Some(i) => Some(i.copied()),
                    None => None,
                },
                match t.node() {
                    Some(n) => Some(n.clone()),
                    None => None,
                },
            ),
            None => (None, None),
        };
        if let Some(install) = install {
            if let Some(node) = node {
                let cfg = self.config();
                assert(text::views(cfg.groups@).len() == cfg.groups@.len());
                if cfg.groups.len() == 0 {
                    self.modal = Some(nothing_to_write());
                } else {
                    let gaps = self.critical_gaps();
                    assert(text::str_views(gaps@).len() == gaps@.len());
                    self.modal = Some(patch_dialog(install, node, cfg, pids, gaps.len()));
                }
            }
        }
    }
}

} // verus!

//! What the keys of the interface do.

use crate::picker;
use crate::picker::{Input, PickerModel};
use crate::sites;
use crate::sites::groups;
use crate::status;
use crate::status::InspectionModel;
use crate::tui::app;
use crate::tui::app::{AppModel, EffectModel, Key, Screen};
use crate::tui::dialogs;
use crate::tui::dialogs::CopiesModel;
use crate::tui::jobs::RequestModel;
use crate::tui::targets;
use crate::tui::targets::{KindModel, TargetModel};
use vstd::prelude::*;

verus! {

/// The keys go to the screen: no dialog is open and no job is running.
pub open spec fn is_listening(a: AppModel, screen: Screen) -> bool {
    a.modal is None && a.busy is None && a.screen == screen
}

/// The switches and the cursor of the patch screen, as the picker has them.
pub open spec fn as_picker(a: AppModel) -> PickerModel {
    PickerModel { on: a.groups_on, cursor: a.group_cursor }
}

/// The patch screen's keys for choosing groups do what the picker's do.
pub proof fn law_the_patch_screen_picks_as_the_picker_does(a: AppModel)
    requires
        app::well_formed(a),
        is_listening(a, Screen::Patch),
    ensures
        as_picker(app::pressed(a, Key::Char(' ')).0) == picker::after(
            as_picker(a),
            Input::Byte(0x20),
        ).0,
        as_picker(app::pressed(a, Key::Char('a')).0) == picker::after(
            as_picker(a),
            Input::Byte(0x61),
        ).0,
        as_picker(app::pressed(a, Key::Char('n')).0) == picker::after(
            as_picker(a),
            Input::Byte(0x6E),
        ).0,
        as_picker(app::pressed(a, Key::Char('d')).0) == picker::after(
            as_picker(a),
            Input::Byte(0x64),
        ).0,
        as_picker(app::pressed(a, Key::Down).0) == picker::after(
            as_picker(a),
            Input::Byte(0x6A),
        ).0,
        as_picker(app::pressed(a, Key::Up).0) == picker::after(as_picker(a), Input::Byte(0x6B)).0,
        app::pressed(a, Key::Char('j')) == app::pressed(a, Key::Down),
        app::pressed(a, Key::Char('k')) == app::pressed(a, Key::Up),
{
    picker::laws::law_keys_move_the_cursor(as_picker(a));
}

/// Down and then up, and up and then down, lead back to where the cursor was, on every
/// screen that has a list whose ends meet.
pub proof fn law_up_and_down_undo_each_other(a: AppModel, screen: Screen)
    requires
        app::well_formed(a),
        is_listening(a, screen),
        screen == Screen::Patch || screen == Screen::Manage || screen == Screen::Overview,
    ensures
        app::pressed(app::pressed(a, Key::Down).0, Key::Up).0 == a,
        app::pressed(app::pressed(a, Key::Up).0, Key::Down).0 == a,
        app::pressed(a, Key::Down).1 is Nothing,
        app::pressed(a, Key::Up).1 is Nothing,
{
}

/// Tab goes from one pane of the readout to the other, and back.
pub proof fn law_tab_changes_the_pane(a: AppModel)
    requires
        is_listening(a, Screen::Overview),
    ensures
        app::pressed(a, Key::Tab).0.focus != a.focus,
        app::pressed(app::pressed(a, Key::Tab).0, Key::Tab).0 == a,
{
}

/// Escape goes one screen back, and out of the program from the first; it never starts
/// anything that writes.
pub proof fn law_escape_goes_back(a: AppModel)
    requires
        a.modal is None,
        a.busy is None,
    ensures
        ({
            let b = app::pressed(a, Key::Esc);
            match a.screen {
                Screen::Targets => b.0.quit && b.1 is Nothing,
                Screen::AskPath => b.0.screen == Screen::Targets && b.1 is Nothing,
                Screen::Overview => b.0.screen == Screen::Targets && b.0.current is None
                    && b.1 is Nothing,
                Screen::Patch => b.0.screen == Screen::Overview && b.1 is Nothing,
                Screen::Manage => b.0.screen == Screen::Overview && b.1 is Nothing,
                Screen::Result => (b.0.screen == Screen::Overview || b.0.screen == Screen::Targets)
                    && match b.1 {
                    EffectModel::Start(r) => r is Scan,
                    EffectModel::Nothing => true,
                    EffectModel::Refresh => true,
                    _ => false,
                },
            }
        }),
{
}

/// What is typed is appended to the path, and backspace takes the last of it away.
pub proof fn law_typing_is_undone_by_backspace(a: AppModel, c: char)
    requires
        is_listening(a, Screen::AskPath),
    ensures
        app::pressed(a, Key::Char(c)).0.input == a.input.push(c),
        app::pressed(app::pressed(a, Key::Char(c)).0, Key::Backspace).0.input == a.input,
        app::pressed(a, Key::Char(c)).0.input_error is None,
        a.input.len() == 0 ==> app::pressed(a, Key::Backspace).0.input == a.input,
{
    assert(a.input.push(c).drop_last() =~= a.input);
}

/// What the entry under the cursor of the manage screen asks is about the install that
/// is being looked at; one that cannot be chosen asks nothing.
pub proof fn law_managing_asks_about_the_current_install(a: AppModel, copies: CopiesModel)
    requires
        app::well_formed(a),
        a.modal is None,
    ensures
        ({
            let b = app::managed(a, copies);
            let enabled = dialogs::items_for(app::target_of(a), copies)[a.manage_cursor].enabled;
            &&& !enabled ==> b == a
            &&& enabled && a.manage_cursor == 0 ==> (b.modal matches Some(m) && (
            m.request matches Some(RequestModel::Restore { install, node }) && Some(install)
                == app::current_install(a) && Some(node) == app::current_node(a)))
            &&& enabled && a.manage_cursor == 1 ==> (b.modal matches Some(m) && (
            m.request matches Some(RequestModel::DeleteBackup { install }) && Some(install)
                == app::current_install(a)))
            &&& enabled && a.manage_cursor == 2 ==> (b.modal matches Some(m) && (
            m.request matches Some(RequestModel::Reinstall { install, node }) && Some(install)
                == app::current_install(a) && node == app::current_node(a)))
            &&& enabled && a.manage_cursor == 3 ==> b.modal is None && b.screen == Screen::Overview
        }),
{
}

/// Site `i` is one of the group and reads as applied.
pub open spec fn is_patched(read: InspectionModel, group: Seq<char>, i: int) -> bool {
    &&& 0 <= i < sites::catalogue().len()
    &&& sites::catalogue()[i].group == group
    &&& status::state_named(read.sites, sites::catalogue()[i].name) is Applied
}

proof fn lemma_group_patched(read: InspectionModel, group: Seq<char>)
    ensures
        app::group_patched(read, group) <==> exists|i: int| #[trigger] is_patched(read, group, i),
{
    let n = sites::catalogue().len() as int;
    status::laws::law_a_group_is_whole_where_its_sites_are(read.sites, group);
    if app::group_patched(read, group) {
        let i = choose|i: int|
            0 <= i < n && #[trigger] status::laws::counts(read.sites, group, i)
                && status::state_named(read.sites, sites::catalogue()[i].name) is Applied;
        assert(is_patched(read, group, i));
    }
    if exists|i: int| #[trigger] is_patched(read, group, i) {
        let i = choose|i: int| #[trigger] is_patched(read, group, i);
        assert(status::laws::counts(read.sites, group, i));
    }
}

/// When a module that was patched before is read, the patch screen has on exactly the
/// groups that the module has something of, and the bitrate that it carries; for one that
/// was not, it has on the recommended set.
pub proof fn law_the_patch_screen_starts_from_what_is_there(
    a: AppModel,
    read: InspectionModel,
    k: int,
)
    requires
        0 <= k < groups::group_catalogue().len(),
    ensures
        ({
            let b = app::seeded(a, read);
            let name = groups::group_catalogue()[k].name;
            &&& b.seeded_from_module ==> (b.groups_on[k] <==> exists|i: int| #[trigger]
                is_patched(read, name, i))
            &&& (exists|i: int| #[trigger] is_patched(read, name, i)) ==> b.seeded_from_module
            &&& !b.seeded_from_module ==> b.groups_on[k]
                == groups::group_catalogue()[k].default_on
            &&& b.seeded_from_module && (read.bitrate_bps matches Some(bps) && 8000 <= bps
                < 513000) ==> b.bitrate == read.bitrate_bps->0 / 1000
            &&& !b.seeded_from_module || read.bitrate_bps is None ==> b.bitrate == a.bitrate
        }),
{
    let name = groups::group_catalogue()[k].name;
    lemma_group_patched(read, name);
    assert(app::carried(read)[k] == app::group_patched(read, name));
}

/// A path that is typed opens the first install whose module it is, and none where there
/// is no such install.
pub proof fn law_a_known_path_opens_its_install(
    list: Seq<TargetModel>,
    node: Seq<char>,
    from: int,
)
    requires
        0 <= from <= list.len(),
    ensures
        app::ready_place(list, node, from) matches Some(k) ==> {
            &&& from <= k < list.len()
            &&& list[k].kind matches KindModel::Ready { node: n, .. } && n == node
            &&& forall|j: int|
                from <= j < k ==> !((#[trigger] list[j]).kind matches KindModel::Ready {
                    node: n,
                    ..
                } && n == node)
        },
        app::ready_place(list, node, from) is None ==> forall|j: int|
            from <= j < list.len() ==> !((#[trigger] list[j]).kind matches KindModel::Ready {
                node: n,
                ..
            } && n == node),
    decreases list.len() - from,
{
    if from < list.len() {
        law_a_known_path_opens_its_install(list, node, from + 1);
    }
}

/// A row of a list that was built again is found as the first that stands for the same
/// thing: it has the same label and the same directory.
pub proof fn law_a_row_is_found_again(list: Seq<TargetModel>, row: TargetModel, from: int)
    requires
        0 <= from <= list.len(),
    ensures
        app::place_of(list, row, from) matches Some(k) ==> {
            &&& from <= k < list.len()
            &&& list[k].label == row.label && targets::dir_of(list[k]) == targets::dir_of(row)
            &&& forall|j: int|
                from <= j < k ==> (#[trigger] list[j]).label != row.label || targets::dir_of(
                    list[j],
                ) != targets::dir_of(row)
        },
        app::place_of(list, row, from) is None ==> forall|j: int|
            from <= j < list.len() ==> (#[trigger] list[j]).label != row.label || targets::dir_of(
                list[j],
            ) != targets::dir_of(row),
    decreases list.len() - from,
{
    if from < list.len() {
        law_a_row_is_found_again(list, row, from + 1);
    }
}

} // verus!

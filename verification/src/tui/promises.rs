//! What holds of the interface whatever is pressed.

use super::app;
use super::app::{AppModel, EffectModel, Key, Screen};
use super::dialogs;
use super::dialogs::CopiesModel;
use super::jobs::{LogModel, ReplyModel, RequestModel};
use super::targets;
use super::targets::TargetModel;
use crate::cli::{MAX_BITRATE_KBPS, MIN_BITRATE_KBPS};
use crate::picker;
use crate::sites::groups;
use crate::status::InspectionModel;
use vstd::prelude::*;

verus! {

proof fn lemma_stop_at(current: int, i: int)
    requires
        0 <= i < app::STOP_COUNT,
    ensures
        i <= app::stop_at(current, i) < app::STOP_COUNT,
        forall|k: int| i <= k < app::stop_at(current, i) ==> #[trigger] app::stops()[k] < current,
        app::stops()[app::stop_at(current, i)] >= current || app::stop_at(current, i)
            == app::STOP_COUNT - 1,
    decreases app::STOP_COUNT - i,
{
    if !(i >= app::STOP_COUNT - 1 || app::stops()[i] >= current) {
        lemma_stop_at(current, i + 1);
    }
}

/// A step always lands on one of the stops, which are all bitrates that may be
/// asked for.
pub proof fn law_bitrate_steps_stay_on_the_scale(current: int, direction: int)
    ensures
        app::stops().contains(app::stepped(current, direction)),
        MIN_BITRATE_KBPS <= app::stepped(current, direction) <= MAX_BITRATE_KBPS,
{
    lemma_stop_at(current, 0);
    let place = app::clamped(app::stop_at(current, 0) + direction);
    assert(app::stops()[place] == app::stepped(current, direction));
}

proof fn lemma_stop_of(i: int, k: int)
    requires
        0 <= i <= k < app::STOP_COUNT,
    ensures
        app::stop_at(app::stops()[k], i) == k,
    decreases k - i,
{
    if i < k {
        lemma_stops_grow(i, k);
        lemma_stop_of(i + 1, k);
    }
}

proof fn lemma_stops_grow(i: int, k: int)
    requires
        0 <= i < k < app::STOP_COUNT,
    ensures
        app::stops()[i] < app::stops()[k],
    decreases k - i,
{
    if i + 1 < k {
        lemma_stops_grow(i + 1, k);
    }
}

/// From a stop, a step goes to the neighbouring one, and from an end it stays.
pub proof fn law_steps_go_to_the_neighbouring_stop(k: int)
    requires
        0 <= k < app::STOP_COUNT,
    ensures
        k + 1 < app::STOP_COUNT ==> app::stepped(app::stops()[k], 1) == app::stops()[k + 1],
        k > 0 ==> app::stepped(app::stops()[k], -1) == app::stops()[k - 1],
        app::stepped(app::stops()[0], -1) == app::stops()[0],
        app::stepped(app::stops()[app::STOP_COUNT - 1], 1) == app::stops()[app::STOP_COUNT - 1],
{
    lemma_stop_of(0, k);
    lemma_stop_of(0, 0);
    lemma_stop_of(0, app::STOP_COUNT - 1);
}

/// Whatever is pressed, every cursor stays on something and the bitrate stays one
/// that may be written.
pub proof fn law_every_key_keeps_the_state_well_formed(a: AppModel, key: Key)
    requires
        app::well_formed(a),
    ensures
        app::well_formed(app::pressed(a, key).0),
{
    law_bitrate_steps_stay_on_the_scale(a.bitrate, 1);
    law_bitrate_steps_stay_on_the_scale(a.bitrate, -1);
    assert(picker::default_set().len() == groups::GROUP_COUNT);
}

/// Ctrl-C always leaves, including out of a dialog or a running job, and does
/// nothing else.
pub proof fn law_ctrl_c_always_leaves(a: AppModel)
    ensures
        app::pressed(a, Key::Interrupt).0 == (AppModel { quit: true, ..a }),
        app::pressed(a, Key::Interrupt).1 == EffectModel::Nothing,
{
}

/// No dialog is open while a job runs.
pub open spec fn apart(a: AppModel) -> bool {
    !(a.modal is Some && a.busy is Some)
}

/// A job is never started on top of another, nor a dialog opened over one.
pub proof fn law_one_job_at_a_time(a: AppModel, key: Key)
    requires
        apart(a),
    ensures
        apart(app::pressed(a, key).0),
        app::pressed(a, key).1 is Start ==> a.busy is None,
        app::pressed(a, key).1 is ConfirmPatch ==> a.busy is None && a.modal is None,
        app::pressed(a, key).1 is ChooseManaged ==> a.busy is None && a.modal is None,
        a.busy is Some && key != Key::Interrupt ==> app::pressed(a, key).0 == a,
{
}

/// The answers that open a dialog keep dialogs and jobs apart.
pub proof fn law_dialogs_wait_for_jobs(a: AppModel, copies: CopiesModel, pids: Seq<u32>)
    requires
        a.busy is None,
    ensures
        apart(app::asked_to_patch(a, pids)),
        apart(app::managed(a, copies)),
        apart(app::managing(a, copies)),
{
}

/// Nothing but reading a module is ever started without a dialog having been
/// answered with its confirming button.
pub proof fn law_only_a_confirmed_dialog_writes(a: AppModel, key: Key)
    ensures
        app::pressed(a, key).1 matches EffectModel::Start(request) ==> {
            ||| request is Scan
            ||| a.modal matches Some(m) && key == Key::Enter && m.cursor == 0 && m.request == Some(
                request,
            )
        },
{
}

/// Esc closes a dialog and changes nothing else, and so does Enter on its Cancel.
pub proof fn law_cancelling_changes_nothing(a: AppModel)
    requires
        a.modal is Some,
    ensures
        app::pressed(a, Key::Esc) == (AppModel { modal: None, ..a }, EffectModel::Nothing),
        a.modal->0.cursor == 1 ==> app::pressed(a, Key::Enter) == (
            AppModel { modal: None, ..a },
            EffectModel::Nothing,
        ),
{
}

/// What is asked before patching carries out exactly what the screen shows, on the
/// module that is being looked at, and tolerates gaps only where it warned of
/// them.
pub proof fn law_patching_does_what_the_screen_shows(a: AppModel, pids: Seq<u32>)
    requires
        a.modal is None,
    ensures
        app::asked_to_patch(a, pids).modal matches Some(m) ==> (m.request matches Some(r) ==> {
            &&& r is Patch
            &&& r->cfg == app::config_of(a)
            &&& app::current_node(a) == Some(r->Patch_node)
            &&& app::current_install(a) == Some(r->Patch_install)
            &&& r->allow_partial <==> app::critical(a).len() > 0
            &&& r->cfg.groups.len() > 0
        }),
{
}

/// Without a module to write to, patching is never asked about.
pub proof fn law_no_module_no_patch(a: AppModel, pids: Seq<u32>)
    requires
        app::current_node(a) is None,
    ensures
        app::asked_to_patch(a, pids) == a,
        !app::can_act(a, 0),
{
}

/// A module that has nothing of any group starts the patch screen on the
/// recommended set, and a patched one on what it already has.
pub proof fn law_the_patch_screen_starts_from_the_module(a: AppModel, i: InspectionModel, k: int)
    requires
        0 <= k < groups::GROUP_COUNT,
    ensures
        app::seeded(a, i).seeded_from_module <==> app::any_carried(i),
        !app::any_carried(i) ==> app::seeded(a, i).groups_on == picker::default_set(),
        app::any_carried(i) ==> app::seeded(a, i).groups_on[k] == app::group_patched(
            i,
            groups::group_catalogue()[k].name,
        ),
{
}

/// After a job that changed the module, the old readout is gone and the list is
/// built again.
pub proof fn law_a_changed_module_is_read_again(a: AppModel, log: LogModel)
    ensures
        log.changed ==> app::answered(a, ReplyModel::Finished(log)).0.inspection is None
            && app::answered(a, ReplyModel::Finished(log)).1 == EffectModel::Refresh,
        app::answered(a, ReplyModel::Finished(log)).0.busy is None,
        app::answered(a, ReplyModel::Finished(log)).0.screen == Screen::Result,
{
}

proof fn lemma_place_of(list: Seq<TargetModel>, row: TargetModel, i: int)
    requires
        0 <= i,
    ensures
        match app::place_of(list, row, i) {
            Some(k) => i <= k < list.len() && targets::same_row(list[k], row),
            None => forall|k: int|
                i <= k < list.len() ==> !targets::same_row(#[trigger] list[k], row),
        },
    decreases list.len() - i,
{
    if i < list.len() && !targets::same_row(list[i], row) {
        lemma_place_of(list, row, i + 1);
    }
}

/// Building the list again stays on the install that is being looked at, as long
/// as a row of its label and directory is still there, and never moves to another
/// install of the same label.
pub proof fn law_refreshing_keeps_the_row(a: AppModel, list: Seq<TargetModel>)
    requires
        app::target_of(a) is Some,
    ensures
        app::target_of(app::refreshed(a, list)) is Some <==> exists|k: int|
            0 <= k < list.len() && targets::same_row(#[trigger] list[k], app::target_of(a)->0),
        app::target_of(app::refreshed(a, list)) matches Some(t) ==> t.label == app::target_of(
            a,
        )->0.label && targets::dir_of(t) == targets::dir_of(app::target_of(a)->0),
{
    lemma_place_of(list, app::target_of(a)->0, 0);
    if let Some(k) = app::place_of(list, app::target_of(a)->0, 0) {
        assert(targets::same_row(list[k], app::target_of(a)->0));
    }
}

/// The manage screen opens on an entry that can be chosen.
pub proof fn law_managing_starts_on_something_that_can_be_chosen(a: AppModel, copies: CopiesModel)
    ensures
        ({
            let b = app::managing(a, copies);
            &&& 0 <= b.manage_cursor < dialogs::ITEM_COUNT
            &&& dialogs::items_for(app::target_of(a), copies)[b.manage_cursor].enabled
        }),
{
    dialogs::law_the_manage_screen_is_never_stuck(app::target_of(a), copies);
}

/// Opening a row that has a module reads that module, and no other.
pub proof fn law_opening_reads_that_module(a: AppModel, index: int)
    requires
        0 <= index < a.targets.len(),
    ensures
        match targets::node_of(a.targets[index]) {
            Some(node) => app::opened(a, index).1 == EffectModel::Start(
                RequestModel::Scan { install: targets::install_of(a.targets[index]), node },
            ),
            None => app::opened(a, index).1 == EffectModel::Nothing,
        },
{
}

} // verus!

//! What the opening list, the manage screen and the path box do, and what a patch
//! comes to, on the screen and on the command line.

use crate::apply;
use crate::console;
use crate::console::TurnModel;
use crate::patch;
use crate::patch::laws;
use crate::patch::ConfigModel;
use crate::sites;
use crate::status;
use crate::text;
use crate::tui::dialogs;
use crate::tui::dialogs::CopiesModel;
use crate::tui::jobs;
use crate::tui::jobs::{LogLineModel, StageModel};
use crate::tui::paths;
use crate::tui::targets;
use crate::tui::targets::{FoundModel, KindModel, TargetModel, Way};
use vstd::prelude::*;

verus! {

// ---------------------------------------------------------------------------
// Patching
// ---------------------------------------------------------------------------

/// Nothing that decides mono versus stereo is missing from the module.
pub open spec fn is_whole(data: Seq<u8>) -> bool {
    forall|name: Seq<char>| #[trigger]
        apply::gaps_of(status::report_of(data)).contains(name) ==> exists|i: int|
            0 <= i < sites::catalogue().len() && (#[trigger] sites::catalogue()[i]).name == name
                && !sites::catalogue()[i].critical
}

/// Every edit of the plan for the module may be written.
pub open spec fn is_safe(data: Seq<u8>, cfg: ConfigModel) -> bool {
    let plan = patch::plan_for(status::report_of(data), cfg, data);
    forall|k: int, i: int|
        0 <= k < plan.len() && 0 <= i < sites::catalogue().len() && (#[trigger] plan[k]).site == (
        #[trigger] sites::catalogue()[i]).name ==> laws::may_be_written(
            plan[k],
            sites::catalogue()[i],
            data,
        )
}

proof fn lemma_whole(data: Seq<u8>)
    ensures
        is_whole(data) <==> ({
            let gaps = apply::gaps_of(status::report_of(data));
            apply::critical_below(gaps, gaps.len() as int).len() == 0
        }),
{
    let cat = sites::catalogue();
    let gaps = apply::gaps_of(status::report_of(data));
    let critical = apply::critical_below(gaps, gaps.len() as int);
    if critical.len() > 0 {
        let name = critical[0];
        assert(critical.contains(name));
        apply::laws::law_the_critical_gaps_decide_stereo(gaps, gaps.len() as int, name);
        let k = choose|k: int| 0 <= k < gaps.len() && #[trigger] gaps[k] == name;
        assert(gaps.contains(name));
        if is_whole(data) {
            let i = choose|i: int|
                0 <= i < cat.len() && (#[trigger] cat[i]).name == name && !cat[i].critical;
            assert(cat[i].critical);
        }
    } else {
        assert forall|name: Seq<char>| #[trigger] gaps.contains(name) implies exists|i: int|
            0 <= i < cat.len() && (#[trigger] cat[i]).name == name && !cat[i].critical by {
            apply::laws::law_the_critical_gaps_decide_stereo(gaps, gaps.len() as int, name);
            let k = choose|k: int| 0 <= k < gaps.len() && gaps[k] == name;
            assert(gaps[k] == name);
            assert(!critical.contains(name));
        }
    }
}

proof fn lemma_safe(data: Seq<u8>, cfg: ConfigModel)
    requires
        0 <= cfg.bitrate_kbps && cfg.bitrate_kbps * 1000 <= u32::MAX,
        forall|k: int|
            0 <= k < patch::plan_for(status::report_of(data), cfg, data).len() ==> 0 <= (
            #[trigger] patch::plan_for(status::report_of(data), cfg, data)[k]).offset,
    ensures
        is_safe(data, cfg) <==> ({
            let plan = patch::plan_for(status::report_of(data), cfg, data);
            patch::errors_below(plan, data, plan.len() as int).len() == 0
        }),
{
    let cat = sites::catalogue();
    let report = status::report_of(data);
    let plan = patch::plan_for(report, cfg, data);
    let errors = patch::errors_below(plan, data, plan.len() as int);
    laws::law_every_refusal_is_reported(plan, data, plan.len() as int);
    if errors.len() > 0 {
        assert(errors.contains(errors[0]));
        let k = choose|k: int|
            0 <= k < plan.len() && patch::edit_error(#[trigger] plan[k], data) == Some(errors[0]);
        laws::law_every_edit_is_called_for(report, cfg, data, k);
        let (i, off) = choose|i: int, off: int|
            0 <= i < cat.len() && #[trigger] laws::is_called_for(
                plan[k],
                cat[i],
                report,
                cfg,
                data,
                off,
            );
        laws::law_an_edit_is_refused_where_it_may_not_be_written(plan[k], i, data);
        assert(plan[k].site == cat[i].name);
    } else {
        assert forall|k: int, i: int|
            0 <= k < plan.len() && 0 <= i < cat.len() && (#[trigger] plan[k]).site == (
            #[trigger] cat[i]).name implies laws::may_be_written(plan[k], cat[i], data) by {
            laws::law_an_edit_is_refused_where_it_may_not_be_written(plan[k], i, data);
            if let Some(e) = patch::edit_error(plan[k], data) {
                assert(errors.contains(e));
            }
        }
    }
}

/// `patch` writes a module exactly where it is no dry run, some group is selected,
/// nothing that decides mono versus stereo is missing or that was allowed, every edit may
/// be written, and there is one; what it writes is the plan for that very module. It
/// fails only where an edit may not be written.
pub proof fn law_patch_writes_what_it_may(
    data: Seq<u8>,
    cfg: ConfigModel,
    gain_text: Seq<char>,
    allow_partial: bool,
    verbose: bool,
    dry_run: bool,
    yes: bool,
)
    requires
        0 <= cfg.bitrate_kbps && cfg.bitrate_kbps * 1000 <= u32::MAX,
        forall|k: int|
            0 <= k < patch::plan_for(status::report_of(data), cfg, data).len() ==> 0 <= (
            #[trigger] patch::plan_for(status::report_of(data), cfg, data)[k]).offset,
    ensures
        ({
            let plan = patch::plan_for(status::report_of(data), cfg, data);
            let on = cfg.groups.len() > 0 && (is_whole(data) || allow_partial);
            match console::turn_of(data, cfg, gain_text, allow_partial, verbose, dry_run, yes) {
                TurnModel::Write { edits, ask, .. } => on && is_safe(data, cfg) && plan.len() > 0
                    && !dry_run && edits == plan && ask == !yes,
                TurnModel::Fail { .. } => on && !is_safe(data, cfg),
                TurnModel::Stop { .. } => !on || (is_safe(data, cfg) && (plan.len() == 0
                    || dry_run)),
            }
        }),
{
    lemma_whole(data);
    lemma_safe(data, cfg);
}

/// The interface writes a module exactly where nothing that decides mono versus stereo
/// is missing or that was allowed, every edit may be written, and there is one; what it
/// writes is the plan for that very module.
pub proof fn law_the_interface_writes_what_it_may(
    before: Seq<LogLineModel>,
    data: Seq<u8>,
    cfg: ConfigModel,
    gain_text: Seq<char>,
    allow_partial: bool,
    touched: bool,
)
    requires
        0 <= cfg.bitrate_kbps && cfg.bitrate_kbps * 1000 <= u32::MAX,
        forall|k: int|
            0 <= k < patch::plan_for(status::report_of(data), cfg, data).len() ==> 0 <= (
            #[trigger] patch::plan_for(status::report_of(data), cfg, data)[k]).offset,
    ensures
        ({
            let plan = patch::plan_for(status::report_of(data), cfg, data);
            let on = (is_whole(data) || allow_partial) && is_safe(data, cfg) && plan.len() > 0;
            match jobs::stage_of(before, data, cfg, gain_text, allow_partial, touched) {
                StageModel::Write { edits, .. } => on && edits == plan,
                StageModel::Stop(log) => !on && !log.ok,
            }
        }),
{
    lemma_whole(data);
    lemma_safe(data, cfg);
}

// ---------------------------------------------------------------------------
// The opening list
// ---------------------------------------------------------------------------

/// A row can be selected where there is something to do: a module, a module that was
/// deleted, or a path to be asked for.
pub proof fn law_a_row_can_be_selected_where_there_is_something_to_do(t: TargetModel)
    ensures
        targets::can_select(t) <==> targets::node_of(t) is Some || t.kind is AskForPath || (
        t.kind matches KindModel::NoModule { removed, .. } && removed),
{
}

/// Some install of the channel was found.
pub open spec fn is_installed(found: Seq<FoundModel>, channel: Seq<char>) -> bool {
    exists|k: int| 0 <= k < found.len() && (#[trigger] found[k]).install.channel == channel
}

proof fn lemma_channel_rows(found: Seq<FoundModel>, channel: Seq<char>, n: int)
    requires
        0 <= n <= found.len(),
    ensures
        targets::channel_rows(found, channel, n).len() > 0 <==> exists|k: int|
            0 <= k < n && (#[trigger] found[k]).install.channel == channel,
        forall|r: int|
            0 <= r < targets::channel_rows(found, channel, n).len() ==> is_row_of(
                found,
                channel,
                #[trigger] targets::channel_rows(found, channel, n)[r],
            ),
    decreases n,
{
    if n > 0 {
        lemma_channel_rows(found, channel, n - 1);
        let before = targets::channel_rows(found, channel, n - 1);
        let all = targets::channel_rows(found, channel, n);
        assert forall|r: int| 0 <= r < all.len() implies is_row_of(
            found,
            channel,
            #[trigger] all[r],
        ) by {
            if r < before.len() {
                assert(all[r] == before[r]);
            } else {
                assert(found[n - 1].install.channel == channel);
            }
        }
    }
}

/// The row is that of an install of the channel.
pub open spec fn is_row_of(found: Seq<FoundModel>, channel: Seq<char>, t: TargetModel) -> bool {
    exists|k: int|
        0 <= k < found.len() && (#[trigger] found[k]).install.channel == channel && t
            == targets::install_row(found[k])
}

/// A channel has a row for each of its installs and for nothing else, or a row that says
/// that it is not installed where it has none.
pub proof fn law_a_channel_shows_its_installs(found: Seq<FoundModel>, channel: Seq<char>, r: int)
    requires
        0 <= r < targets::rows_for(found, channel).len(),
    ensures
        is_installed(found, channel) ==> is_row_of(
            found,
            channel,
            targets::rows_for(found, channel)[r],
        ),
        !is_installed(found, channel) ==> targets::rows_for(found, channel) == seq![
            targets::absent_row(channel),
        ],
{
    lemma_channel_rows(found, channel, found.len() as int);
}

/// Row `m` steps from row `i`, where the ends of the list meet.
pub open spec fn steps_from(i: int, m: int, n: int, way: Way) -> int {
    match way {
        Way::Down => (i + m) % n,
        Way::Up => (i - m) % n,
    }
}

proof fn lemma_step(i: int, m: int, n: int, way: Way)
    requires
        n > 0,
        0 <= i < n,
    ensures
        steps_from(targets::neighbour(i, n, way), m, n, way) == steps_from(i, m + 1, n, way),
        0 <= targets::neighbour(i, n, way) < n,
        steps_from(i, 0, n, way) == i,
{
    match way {
        Way::Down => {
            vstd::arithmetic::div_mod::lemma_add_mod_noop(i + 1, m, n);
            vstd::arithmetic::div_mod::lemma_add_mod_noop((i + 1) % n, m, n);
            vstd::arithmetic::div_mod::lemma_mod_twice(i + 1, n);
        },
        Way::Up => {
            vstd::arithmetic::div_mod::lemma_sub_mod_noop(i - 1, m, n);
            vstd::arithmetic::div_mod::lemma_sub_mod_noop((i - 1) % n, m, n);
            vstd::arithmetic::div_mod::lemma_mod_twice(i - 1, n);
        },
    }
    vstd::arithmetic::div_mod::lemma_small_mod(i as nat, n as nat);
}

/// Row `k` is the first that can be selected among `tries` rows from row `i` on.
pub open spec fn is_nearest(list: Seq<TargetModel>, i: int, way: Way, tries: int, k: int) -> bool {
    exists|m: int| #[trigger] is_nearest_at(list, i, way, tries, k, m)
}

pub open spec fn is_nearest_at(
    list: Seq<TargetModel>,
    i: int,
    way: Way,
    tries: int,
    k: int,
    m: int,
) -> bool {
    let n = list.len() as int;
    &&& 0 <= m < tries
    &&& k == steps_from(i, m, n, way)
    &&& targets::can_select(list[k])
    &&& forall|j: int|
        0 <= j < m ==> !targets::can_select(list[#[trigger] steps_from(i, j, n, way)])
}

/// The cursor goes to the nearest row that can be selected in the direction that was
/// asked for, past the end of the list if need be, and passes over no other; where there
/// is none it stays.
pub proof fn law_the_cursor_goes_to_the_nearest_row(
    list: Seq<TargetModel>,
    i: int,
    way: Way,
    tries: int,
)
    requires
        0 <= i < list.len(),
    ensures
        targets::selectable_from(list, i, way, tries) matches Some(k) ==> is_nearest(
            list,
            i,
            way,
            tries,
            k,
        ),
        targets::selectable_from(list, i, way, tries) is None ==> forall|j: int|
            0 <= j < tries ==> !targets::can_select(
                list[#[trigger] steps_from(i, j, list.len() as int, way)],
            ),
    decreases tries,
{
    let n = list.len() as int;
    lemma_step(i, 0, n, way);
    if tries > 0 {
        if targets::can_select(list[i]) {
            assert(is_nearest_at(list, i, way, tries, i, 0));
        } else {
            let next = targets::neighbour(i, n, way);
            law_the_cursor_goes_to_the_nearest_row(list, next, way, tries - 1);
            assert forall|j: int| 0 <= j implies steps_from(next, j, n, way)
                == #[trigger] steps_from(i, j + 1, n, way) by {
                lemma_step(i, j, n, way);
            }
            match targets::selectable_from(list, i, way, tries) {
                Some(k) => {
                    let m = choose|m: int| #[trigger]
                        is_nearest_at(list, next, way, tries - 1, k, m);
                    lemma_step(i, m, n, way);
                    assert forall|j: int| 0 <= j < m + 1 implies !targets::can_select(
                        list[#[trigger] steps_from(i, j, n, way)],
                    ) by {
                        if j > 0 {
                            lemma_step(i, j - 1, n, way);
                            assert(!targets::can_select(list[steps_from(next, j - 1, n, way)]));
                        }
                    }
                    assert(is_nearest_at(list, i, way, tries, k, m + 1));
                },
                None => {
                    assert forall|j: int| 0 <= j < tries implies !targets::can_select(
                        list[#[trigger] steps_from(i, j, n, way)],
                    ) by {
                        if j > 0 {
                            lemma_step(i, j - 1, n, way);
                            assert(!targets::can_select(list[steps_from(next, j - 1, n, way)]));
                        }
                    }
                },
            }
        }
    }
}

// ---------------------------------------------------------------------------
// The manage screen
// ---------------------------------------------------------------------------

/// Restoring can be chosen exactly where there are a backup and a module, deleting the
/// backup where there is one, and reinstalling for an install that was found; going back
/// always.
pub proof fn law_what_can_be_managed(t: TargetModel, copies: CopiesModel)
    ensures
        ({
            let items = dialogs::items_for(Some(t), copies);
            let has_backup = targets::install_of(t) is Some && copies.backup;
            &&& items[0].enabled <==> has_backup && targets::node_of(t) is Some
            &&& items[1].enabled <==> has_backup
            &&& items[2].enabled <==> t.kind is Ready || t.kind is NoModule
            &&& items[3].enabled
            &&& items[1].danger && items[2].danger && !items[0].danger && !items[3].danger
        }),
{
}

// ---------------------------------------------------------------------------
// The path box
// ---------------------------------------------------------------------------

proof fn lemma_dir_len(path: Seq<char>, n: int)
    requires
        0 <= n <= path.len(),
    ensures
        0 <= paths::dir_len(path, n) <= n,
        paths::dir_len(path, n) > 0 ==> path[paths::dir_len(path, n) - 1] == '/',
        forall|i: int| paths::dir_len(path, n) <= i < n ==> #[trigger] path[i] != '/',
    decreases n,
{
    if n > 0 {
        lemma_dir_len(path, n - 1);
    }
}

/// A path that is being typed is its directory followed by the half-typed name, which
/// has no slash; a path without one is looked up in the current directory.
pub proof fn law_a_typed_path_is_split_at_its_last_slash(path: Seq<char>)
    ensures
        path.contains('/') ==> paths::dir_part(path) + paths::name_part(path) == path
            && paths::dir_part(path).last() == '/',
        !path.contains('/') ==> paths::dir_part(path) == "./"@ && paths::name_part(path) == path,
        !paths::name_part(path).contains('/'),
{
    let n = paths::dir_len(path, path.len() as int);
    let name = paths::name_part(path);
    lemma_dir_len(path, path.len() as int);
    assert(path.take(n) + path.skip(n) =~= path);
    if path.contains('/') {
        let i = choose|i: int| 0 <= i < path.len() && path[i] == '/';
        assert(n > 0);
    } else {
        if n > 0 {
            assert(path.contains(path[n - 1]));
        }
        assert(path.skip(0) =~= path);
    }
    if name.contains('/') {
        let i = choose|i: int| 0 <= i < name.len() && name[i] == '/';
        assert(path[n + i] == '/');
    }
}

/// The home directory stands for `~` and `$HOME` at the front of a path; every other
/// path is left as it is.
pub proof fn law_the_home_directory_is_spelled_out(rest: Seq<char>, home: Seq<char>, path: Seq<char>)
    requires
        home.len() > 0,
    ensures
        paths::expanded(seq!['~'], home) == home,
        paths::expanded(seq!['~', '/'] + rest, home) == home + seq!['/'] + rest,
        paths::expanded(seq!['$', 'H', 'O', 'M', 'E'] + rest, home) == home + rest,
        path.len() == 0 || (path[0] != '~' && path[0] != '$') ==> paths::expanded(path, home)
            == path,
{
    reveal_strlit("~");
    reveal_strlit("~/");
    reveal_strlit("$HOME");
    reveal_strlit("/");
    let tilde = seq!['~'];
    let under = seq!['~', '/'] + rest;
    let var = seq!['$', 'H', 'O', 'M', 'E'] + rest;
    assert("~"@ =~= tilde);
    assert("/"@ =~= seq!['/']);
    assert("~/"@ =~= seq!['~', '/']);
    assert("$HOME"@ =~= seq!['$', 'H', 'O', 'M', 'E']);
    assert(under.take(2) =~= "~/"@);
    assert(under.skip(2) =~= rest);
    assert(under.len() >= 2);
    assert(var.take(5) =~= "$HOME"@);
    assert(var.skip(5) =~= rest);
    assert(var[0] == '$');
    assert(var != "~"@) by {
        assert("~"@[0] == '~');
    }
    assert(!text::begins(var, "~/"@)) by {
        assert(var.take(2)[0] == '$');
        assert("~/"@[0] == '~');
    }
    if path.len() == 0 || (path[0] != '~' && path[0] != '$') {
        if path.len() >= 2 {
            assert(path.take(2)[0] == path[0]);
        }
        if path.len() >= 5 {
            assert(path.take(5)[0] == path[0]);
        }
    }
}

} // verus!

//! Which installs a command acts on, and which updates wait.

use crate::cli;
use crate::discovery;
use crate::discovery::laws;
use crate::discovery::InstallModel;
use crate::sites::groups;
use crate::text;
use vstd::prelude::*;

verus! {

/// Install `k` has a label in which what was asked for stands, if anything was.
pub open spec fn is_asked_for(
    labels: Seq<Seq<char>>,
    wanted: Option<Seq<char>>,
    k: int,
) -> bool {
    wanted matches Some(w) ==> exists|at: int|
        0 <= at && at + w.len() <= labels[k].len() && #[trigger] labels[k].subrange(
            at,
            at + w.len(),
        ) == w
}

/// Install `k` is the one of its channel that a command without `--all` acts on: the
/// first that is asked for and has a module.
pub open spec fn is_chosen(
    installs: Seq<InstallModel>,
    labels: Seq<Seq<char>>,
    wanted: Option<Seq<char>>,
    k: int,
) -> bool {
    &&& 0 <= k < installs.len()
    &&& is_asked_for(labels, wanted, k)
    &&& installs[k].node is Some
    &&& forall|j: int|
        0 <= j < k && (#[trigger] installs[j]).channel == installs[k].channel ==> !is_asked_for(
            labels,
            wanted,
            j,
        ) || installs[j].node is None
}

proof fn lemma_matching(labels: Seq<Seq<char>>, wanted: Option<Seq<char>>, n: int)
    requires
        0 <= n,
    ensures
        forall|k: int| #[trigger]
            cli::matching_below(labels, wanted, n).contains(k) <==> 0 <= k < n && is_asked_for(
                labels,
                wanted,
                k,
            ),
        forall|i: int, j: int|
            0 <= i < j < cli::matching_below(labels, wanted, n).len() ==> #[trigger]
            cli::matching_below(labels, wanted, n)[i] < #[trigger] cli::matching_below(
                labels,
                wanted,
                n,
            )[j],
    decreases n,
{
    let all = cli::matching_below(labels, wanted, n);
    if n > 0 {
        lemma_matching(labels, wanted, n - 1);
        let before = cli::matching_below(labels, wanted, n - 1);
        assert forall|k: int| #[trigger] all.contains(k) <==> 0 <= k < n && is_asked_for(
            labels,
            wanted,
            k,
        ) by {
            if all.contains(k) {
                let i = choose|i: int| 0 <= i < all.len() && all[i] == k;
                if i < before.len() {
                    assert(before[i] == k);
                    assert(before.contains(k));
                }
            }
            if 0 <= k < n && is_asked_for(labels, wanted, k) {
                if k < n - 1 {
                    assert(before.contains(k));
                    let i = choose|i: int| 0 <= i < before.len() && before[i] == k;
                    assert(all[i] == k);
                } else {
                    assert(all[before.len() as int] == k);
                }
            }
        }
        assert forall|i: int, j: int| 0 <= i < j < all.len() implies #[trigger] all[i]
            < #[trigger] all[j] by {
            assert(before.contains(before[i]));
            if j < before.len() {
                assert(all[j] == before[j]);
            }
        }
    }
}

proof fn lemma_first(installs: Seq<InstallModel>, candidates: Seq<int>, n: int)
    requires
        0 <= n <= candidates.len(),
    ensures
        forall|k: int| #[trigger]
            cli::first_with_module(installs, candidates, n).contains(k) ==> installs[k].node is Some
                && exists|c: int|
                0 <= c < n && #[trigger] candidates[c] == k && forall|b: int|
                    0 <= b < c && installs[#[trigger] candidates[b]].channel == installs[k].channel
                        ==> installs[candidates[b]].node is None,
        forall|c: int|
            0 <= c < n && installs[#[trigger] candidates[c]].node is Some && (forall|b: int|
                0 <= b < c && installs[#[trigger] candidates[b]].channel
                    == installs[candidates[c]].channel ==> installs[candidates[b]].node is None)
                ==> cli::first_with_module(installs, candidates, n).contains(candidates[c]),
    decreases n,
{
    let all = cli::first_with_module(installs, candidates, n);
    if n > 0 {
        lemma_first(installs, candidates, n - 1);
        let before = cli::first_with_module(installs, candidates, n - 1);
        let last = candidates[n - 1];
        assert(before.len() <= all.len());
        assert forall|k: int| before.contains(k) implies #[trigger] all.contains(k) by {
            let i = choose|i: int| 0 <= i < before.len() && before[i] == k;
            assert(all[i] == k);
        }
        lemma_taken(installs, candidates, n - 1, installs[last].channel);
        assert forall|k: int| #[trigger] all.contains(k) implies installs[k].node is Some
            && exists|c: int|
            0 <= c < n && #[trigger] candidates[c] == k && forall|b: int|
                0 <= b < c && installs[#[trigger] candidates[b]].channel == installs[k].channel
                    ==> installs[candidates[b]].node is None by {
            let i = choose|i: int| 0 <= i < all.len() && all[i] == k;
            if i < before.len() {
                assert(before[i] == k);
                assert(before.contains(k));
            } else {
                assert(candidates[n - 1] == k);
            }
        }
        assert forall|c: int|
            0 <= c < n && installs[#[trigger] candidates[c]].node is Some && (forall|b: int|
                0 <= b < c && installs[#[trigger] candidates[b]].channel
                    == installs[candidates[c]].channel
                    ==> installs[candidates[b]].node is None) implies all.contains(
            candidates[c],
        ) by {
            if c < n - 1 {
                assert(before.contains(candidates[c]));
            } else {
                assert(all[all.len() - 1] == candidates[c]);
            }
        }
    }
}

/// A channel is taken exactly where one of the candidates of it has a module.
proof fn lemma_taken(
    installs: Seq<InstallModel>,
    candidates: Seq<int>,
    n: int,
    channel: Seq<char>,
)
    requires
        0 <= n <= candidates.len(),
    ensures
        cli::channel_taken(installs, cli::first_with_module(installs, candidates, n), channel)
            <==> exists|b: int|
            0 <= b < n && installs[#[trigger] candidates[b]].channel == channel
                && installs[candidates[b]].node is Some,
    decreases n,
{
    let all = cli::first_with_module(installs, candidates, n);
    if n > 0 {
        lemma_taken(installs, candidates, n - 1, channel);
        let before = cli::first_with_module(installs, candidates, n - 1);
        let last = candidates[n - 1];
        lemma_taken(installs, candidates, n - 1, installs[last].channel);
        if cli::channel_taken(installs, before, channel) {
            let k = choose|k: int|
                0 <= k < before.len() && installs[#[trigger] before[k]].channel == channel;
            assert(all[k] == before[k]);
            assert(installs[all[k]].channel == channel);
        }
        if cli::channel_taken(installs, all, channel) && !cli::channel_taken(
            installs,
            before,
            channel,
        ) {
            let k = choose|k: int|
                0 <= k < all.len() && installs[#[trigger] all[k]].channel == channel;
            if k < before.len() {
                assert(installs[before[k]].channel == channel);
            }
            assert(all[k] == candidates[n - 1]);
        }
        if installs[last].node is Some && installs[last].channel == channel {
            if !cli::channel_taken(installs, before, channel) {
                assert(installs[all[all.len() - 1]].channel == channel);
            }
        }
    }
}

/// With `--all` every install that is asked for is selected, in the order in which they
/// are listed; without it the first of each channel that has a module. Nothing else is,
/// and it is an error only where there is nothing to select.
pub proof fn law_what_is_asked_for_is_selected(
    installs: Seq<InstallModel>,
    labels: Seq<Seq<char>>,
    wanted: Option<Seq<char>>,
    shown: Seq<char>,
    every: bool,
)
    ensures
        match cli::selection(installs, labels, wanted, shown, every) {
            Ok(places) => forall|k: int| #[trigger]
                places.contains(k) <==> if every {
                    0 <= k < installs.len() && is_asked_for(labels, wanted, k)
                } else {
                    is_chosen(installs, labels, wanted, k)
                },
            Err(_) => forall|k: int|
                0 <= k < installs.len() && #[trigger] is_asked_for(labels, wanted, k) ==> !every
                    && installs[k].node is None,
        },
        every ==> (cli::selection(installs, labels, wanted, shown, every) matches Ok(places)
            ==> forall|i: int, j: int|
            0 <= i < j < places.len() ==> #[trigger] places[i] < #[trigger] places[j]),
{
    let n = installs.len() as int;
    let matching = cli::matching_below(labels, wanted, n);
    let newest = cli::first_with_module(installs, matching, matching.len() as int);
    lemma_matching(labels, wanted, n);
    lemma_first(installs, matching, matching.len() as int);
    assert forall|k: int| newest.contains(k) implies #[trigger] is_chosen(
        installs,
        labels,
        wanted,
        k,
    ) by {
        let c = choose|c: int|
            0 <= c < matching.len() && #[trigger] matching[c] == k && forall|b: int|
                0 <= b < c && installs[#[trigger] matching[b]].channel == installs[k].channel
                    ==> installs[matching[b]].node is None;
        assert(matching.contains(k));
        assert forall|j: int|
            0 <= j < k && (#[trigger] installs[j]).channel == installs[k].channel implies (
        !is_asked_for(labels, wanted, j) || installs[j].node is None) by {
            if is_asked_for(labels, wanted, j) {
                assert(matching.contains(j));
                let b = choose|b: int| 0 <= b < matching.len() && matching[b] == j;
                if b >= c {
                    if b > c {
                        assert(matching[c] < matching[b]);
                    }
                }
            }
        }
    }
    assert forall|k: int| #[trigger] is_chosen(installs, labels, wanted, k) implies newest.contains(
        k,
    ) by {
        assert(matching.contains(k));
        let c = choose|c: int| 0 <= c < matching.len() && matching[c] == k;
        assert forall|b: int|
            0 <= b < c && installs[#[trigger] matching[b]].channel
                == installs[matching[c]].channel implies installs[matching[b]].node is None by {
            assert(matching[b] < matching[c]);
            assert(matching.contains(matching[b]));
            let j = matching[b];
            assert(installs[j].channel == installs[k].channel);
        }
    }
    if matching.len() == 0 {
        assert forall|k: int|
            0 <= k < installs.len() implies !#[trigger] is_asked_for(labels, wanted, k) by {
            if is_asked_for(labels, wanted, k) {
                assert(matching.contains(k));
            }
        }
    }
    if newest.len() == 0 {
        assert forall|k: int|
            0 <= k < installs.len() && #[trigger] is_asked_for(
                labels,
                wanted,
                k,
            ) implies installs[k].node is None by {
            if installs[k].node is Some {
                lemma_taken(
                    installs,
                    matching,
                    matching.len() as int,
                    installs[k].channel,
                );
                assert(matching.contains(k));
                let b = choose|b: int| 0 <= b < matching.len() && matching[b] == k;
                assert(installs[matching[b]].channel == installs[k].channel);
            }
        }
    }
}

/// Install `k` is the first of its channel.
pub open spec fn leads(installs: Seq<InstallModel>, k: int) -> bool {
    &&& 0 <= k < installs.len()
    &&& forall|j: int| 0 <= j < k ==> (#[trigger] installs[j]).channel != installs[k].channel
}

/// The labels that are marked as launched are those of the first install of each
/// channel, and no others.
pub proof fn law_the_first_of_each_channel_is_marked(
    installs: Seq<InstallModel>,
    n: int,
    label: Seq<char>,
)
    requires
        0 <= n <= installs.len(),
    ensures
        cli::newest_below(installs, n).contains(label) <==> exists|k: int|
            k < n && #[trigger] leads(installs, k) && discovery::label_of(installs[k]) == label,
    decreases n,
{
    let all = cli::newest_below(installs, n);
    if n > 0 {
        law_the_first_of_each_channel_is_marked(installs, n - 1, label);
        let before = cli::newest_below(installs, n - 1);
        let taken = exists|k: int|
            0 <= k < n - 1 && (#[trigger] installs[k]).channel == installs[n - 1].channel;
        assert(leads(installs, n - 1) == !taken);
        if all.contains(label) {
            let j = choose|j: int| 0 <= j < all.len() && all[j] == label;
            if j < before.len() {
                assert(before[j] == label);
                assert(before.contains(label));
            } else {
                assert(leads(installs, n - 1));
            }
        }
        if before.contains(label) {
            let j = choose|j: int| 0 <= j < before.len() && before[j] == label;
            assert(all[j] == label);
        }
        if !taken && discovery::label_of(installs[n - 1]) == label {
            assert(all[before.len() as int] == label);
        }
    }
}

// ---------------------------------------------------------------------------
// Staged updates
// ---------------------------------------------------------------------------

/// Install `k` is an older one of the same channel that has a module.
pub open spec fn is_older_sibling(installs: Seq<InstallModel>, k: int, i: int) -> bool {
    &&& 0 <= k < installs.len()
    &&& installs[k].channel == installs[i].channel
    &&& installs[k].node is Some
    &&& laws::is_older(installs[k].version, installs[i].version)
}

/// Install `i` is an update that waits: it has no module, and an older install of its
/// channel has one.
pub open spec fn is_waiting(installs: Seq<InstallModel>, i: int) -> bool {
    &&& 0 <= i < installs.len()
    &&& installs[i].node is None
    &&& exists|k: int| #[trigger] is_older_sibling(installs, k, i)
}

/// Install `k` is the first that the update at `i` is to replace and whose module was
/// changed.
pub open spec fn blocks(
    installs: Seq<InstallModel>,
    modified: Seq<bool>,
    k: int,
    i: int,
) -> bool {
    &&& is_older_sibling(installs, k, i)
    &&& modified[k]
    &&& forall|j: int| 0 <= j < k && #[trigger] is_older_sibling(installs, j, i) ==> !modified[j]
}

proof fn lemma_sibling(installs: Seq<InstallModel>, k: int, i: int)
    requires
        0 <= k < installs.len(),
    ensures
        cli::superseded_by(installs[k], installs[i]) == is_older_sibling(installs, k, i),
{
    laws::law_versions_are_ordered_number_by_number(installs[k].version, installs[i].version);
}

proof fn lemma_blocker(installs: Seq<InstallModel>, modified: Seq<bool>, i: int, n: int)
    requires
        0 <= n <= installs.len(),
    ensures
        match cli::blocker_below(installs, modified, installs[i], n) {
            Some(label) => exists|k: int|
                k < n && #[trigger] blocks(installs, modified, k, i) && label
                    == discovery::label_of(installs[k]),
            None => forall|k: int|
                k < n && #[trigger] is_older_sibling(installs, k, i) ==> !modified[k],
        },
    decreases n,
{
    if n > 0 {
        lemma_blocker(installs, modified, i, n - 1);
        lemma_sibling(installs, n - 1, i);
        match cli::blocker_below(installs, modified, installs[i], n - 1) {
            Some(label) => {},
            None => {
                if is_older_sibling(installs, n - 1, i) && modified[n - 1] {
                    assert(blocks(installs, modified, n - 1, i));
                }
            },
        }
    }
}

/// What is said of the update at `i`: the label of the first changed module that it is
/// to replace, or nothing where none of those was changed.
pub open spec fn is_told(
    installs: Seq<InstallModel>,
    modified: Seq<bool>,
    i: int,
    blocker: Option<Seq<char>>,
) -> bool {
    match blocker {
        Some(label) => exists|k: int| #[trigger]
            blocks(installs, modified, k, i) && label == discovery::label_of(installs[k]),
        None => forall|k: int| #[trigger] is_older_sibling(installs, k, i) ==> !modified[k],
    }
}

/// Every update that waits is reported, with the changed module that keeps it waiting
/// where there is one, and no other install is.
pub proof fn law_every_waiting_update_is_reported(
    installs: Seq<InstallModel>,
    modified: Seq<bool>,
    n: int,
)
    requires
        0 <= n <= installs.len(),
    ensures
        forall|e: int|
            0 <= e < cli::staged_below(installs, modified, n).len() ==> {
                let told = #[trigger] cli::staged_below(installs, modified, n)[e];
                told.0 < n && is_waiting(installs, told.0) && is_told(
                    installs,
                    modified,
                    told.0,
                    told.1,
                )
            },
        forall|i: int|
            i < n && #[trigger] is_waiting(installs, i) ==> exists|e: int|
                0 <= e < cli::staged_below(installs, modified, n).len()
                    && (#[trigger] cli::staged_below(installs, modified, n)[e]).0 == i,
        forall|d: int, e: int|
            0 <= d < e < cli::staged_below(installs, modified, n).len() ==> (
            #[trigger] cli::staged_below(installs, modified, n)[d]).0 < (
            #[trigger] cli::staged_below(installs, modified, n)[e]).0,
    decreases n,
{
    let all = cli::staged_below(installs, modified, n);
    if n > 0 {
        law_every_waiting_update_is_reported(installs, modified, n - 1);
        let before = cli::staged_below(installs, modified, n - 1);
        let i = n - 1;
        lemma_blocker(installs, modified, i, installs.len() as int);
        assert forall|k: int| 0 <= k < installs.len() implies cli::superseded_by(
            #[trigger] installs[k],
            installs[i],
        ) == is_older_sibling(installs, k, i) by {
            lemma_sibling(installs, k, i);
        }
        if is_waiting(installs, i) {
            let k = choose|k: int| #[trigger] is_older_sibling(installs, k, i);
            assert(cli::superseded_by(installs[k], installs[i]));
            assert(all[before.len() as int].0 == i);
        }
        assert forall|e: int| 0 <= e < all.len() implies {
            let told = #[trigger] all[e];
            told.0 < n && is_waiting(installs, told.0) && is_told(
                installs,
                modified,
                told.0,
                told.1,
            )
        } by {
            if e < before.len() {
                assert(all[e] == before[e]);
            } else {
                let k = choose|k: int|
                    0 <= k < installs.len() && cli::superseded_by(
                        #[trigger] installs[k],
                        installs[i],
                    );
                assert(is_older_sibling(installs, k, i));
            }
        }
        assert forall|j: int| j < n && #[trigger] is_waiting(installs, j) implies exists|e: int|
            0 <= e < all.len() && (#[trigger] all[e]).0 == j by {
            if j < n - 1 {
                let e = choose|e: int| 0 <= e < before.len() && (#[trigger] before[e]).0 == j;
                assert(all[e].0 == j);
            }
        }
        assert forall|d: int, e: int| 0 <= d < e < all.len() implies (#[trigger] all[d]).0 < (
        #[trigger] all[e]).0 by {
            assert(all[d] == before[d]);
            if e < before.len() {
                assert(all[e] == before[e]);
            }
        }
    }
}

// ---------------------------------------------------------------------------
// Groups
// ---------------------------------------------------------------------------

/// The part of a `--groups` value at place `k` names a group, once the white space round
/// it is gone.
pub open spec fn part_named(spec: Seq<char>, k: int) -> Seq<char> {
    text::trimmed(text::split_on(spec, ',')[k])
}

proof fn lemma_groups_from(
    parts: Seq<Seq<char>>,
    i: int,
    so_far: Seq<Seq<char>>,
)
    requires
        0 <= i <= parts.len(),
    ensures
        match cli::groups_from(parts, i, so_far) {
            Ok(list) => {
                &&& forall|k: int|
                    i <= k < parts.len() ==> ({
                        let name = text::trimmed(#[trigger] parts[k]);
                        name.len() > 0 ==> groups::declared(name) && list.contains(name)
                    })
                &&& forall|name: Seq<char>| so_far.contains(name) ==> #[trigger] list.contains(name)
                &&& forall|name: Seq<char>| #[trigger]
                    list.contains(name) ==> so_far.contains(name) || exists|k: int|
                        i <= k < parts.len() && text::trimmed(#[trigger] parts[k]) == name
                            && name.len() > 0
            },
            Err(_) => {
                ||| exists|k: int|
                    i <= k < parts.len() && ({
                        let name = text::trimmed(#[trigger] parts[k]);
                        name.len() > 0 && !groups::declared(name)
                    })
                ||| so_far.len() == 0 && forall|k: int|
                    i <= k < parts.len() ==> text::trimmed(#[trigger] parts[k]).len() == 0
            },
        },
    decreases parts.len() - i,
{
    if i < parts.len() {
        let name = text::trimmed(parts[i]);
        if name.len() == 0 {
            lemma_groups_from(parts, i + 1, so_far);
        } else if groups::declared(name) {
            let more = so_far.push(name);
            lemma_groups_from(parts, i + 1, more);
            assert(more[so_far.len() as int] == name);
            assert(more.contains(name));
            assert forall|x: Seq<char>| so_far.contains(x) implies #[trigger] more.contains(x) by {
                let j = choose|j: int| 0 <= j < so_far.len() && so_far[j] == x;
                assert(more[j] == x);
            }
            assert forall|x: Seq<char>| more.contains(x) implies x == name
                || #[trigger] so_far.contains(x) by {
                let j = choose|j: int| 0 <= j < more.len() && more[j] == x;
                if j < so_far.len() {
                    assert(so_far[j] == x);
                }
            }
        }
    }
}

/// A `--groups` value other than `all` selects the groups that its parts name, each of
/// them and no others; it is an error where a part names none, or where no part names
/// anything.
pub proof fn law_the_groups_that_are_named_are_selected(spec: Seq<char>)
    requires
        text::trimmed(spec) != "all"@,
    ensures
        match cli::groups_in(spec) {
            Ok(list) => {
                &&& forall|k: int|
                    #![trigger part_named(spec, k)]
                    0 <= k < text::split_on(spec, ',').len() && part_named(spec, k).len() > 0
                        ==> groups::declared(part_named(spec, k)) && list.contains(
                        part_named(spec, k),
                    )
                &&& forall|name: Seq<char>| #[trigger]
                    list.contains(name) ==> exists|k: int|
                        0 <= k < text::split_on(spec, ',').len() && #[trigger] part_named(spec, k)
                            == name && name.len() > 0
            },
            Err(_) => {
                ||| exists|k: int|
                    0 <= k < text::split_on(spec, ',').len() && (#[trigger] part_named(
                        spec,
                        k,
                    )).len() > 0 && !groups::declared(part_named(spec, k))
                ||| forall|k: int|
                    0 <= k < text::split_on(spec, ',').len() ==> (#[trigger] part_named(
                        spec,
                        k,
                    )).len() == 0
            },
        },
{
    let parts = text::split_on(spec, ',');
    lemma_groups_from(parts, 0, seq![]);
    match cli::groups_in(spec) {
        Ok(list) => {
            assert forall|name: Seq<char>| #[trigger] list.contains(name) implies exists|k: int|
                0 <= k < parts.len() && #[trigger] part_named(spec, k) == name && name.len() > 0 by {
                let k = choose|k: int|
                    0 <= k < parts.len() && text::trimmed(#[trigger] parts[k]) == name && name.len()
                        > 0;
                assert(part_named(spec, k) == name);
            }
        },
        Err(_) => {
            if exists|k: int|
                0 <= k < parts.len() && ({
                    let name = text::trimmed(#[trigger] parts[k]);
                    name.len() > 0 && !groups::declared(name)
                }) {
                let k = choose|k: int|
                    0 <= k < parts.len() && ({
                        let name = text::trimmed(#[trigger] parts[k]);
                        name.len() > 0 && !groups::declared(name)
                    });
                assert(part_named(spec, k).len() > 0);
            }
        },
    }
}

/// `all` selects every group that there is.
pub proof fn law_all_selects_every_group(spec: Seq<char>, name: Seq<char>)
    requires
        text::trimmed(spec) == "all"@,
    ensures
        cli::groups_in(spec) matches Ok(list) && (list.contains(name) <==> groups::declared(name)),
{
    let list = cli::all_group_names();
    let cat = groups::group_catalogue();
    if groups::declared(name) {
        let i = choose|i: int| 0 <= i < cat.len() && (#[trigger] cat[i]).name == name;
        assert(list[i] == name);
    }
    if list.contains(name) {
        let i = choose|i: int| 0 <= i < list.len() && list[i] == name;
        assert(cat[i].name == name);
    }
}

proof fn lemma_defaults(n: int, name: Seq<char>)
    requires
        0 <= n <= groups::group_catalogue().len(),
    ensures
        groups::defaults_below(n).contains(name) <==> exists|k: int|
            0 <= k < n && (#[trigger] groups::group_catalogue()[k]).name == name
                && groups::group_catalogue()[k].default_on,
    decreases n,
{
    let all = groups::defaults_below(n);
    let cat = groups::group_catalogue();
    if n > 0 {
        lemma_defaults(n - 1, name);
        let before = groups::defaults_below(n - 1);
        if all.contains(name) {
            let j = choose|j: int| 0 <= j < all.len() && all[j] == name;
            if j < before.len() {
                assert(before[j] == name);
                assert(before.contains(name));
            } else {
                assert(cat[n - 1].name == name);
            }
        }
        if before.contains(name) {
            let j = choose|j: int| 0 <= j < before.len() && before[j] == name;
            assert(all[j] == name);
        }
        if cat[n - 1].default_on && cat[n - 1].name == name {
            assert(all[before.len() as int] == name);
        }
    }
}

/// The recommended set is every group that is on unless the user says otherwise, and no
/// other.
pub proof fn law_the_recommended_set_is_what_is_on_by_default(name: Seq<char>)
    ensures
        groups::defaults_below(groups::GROUP_COUNT as int).contains(name) <==> exists|k: int|
            0 <= k < groups::group_catalogue().len() && (
            #[trigger] groups::group_catalogue()[k]).name == name
                && groups::group_catalogue()[k].default_on,
{
    lemma_defaults(groups::group_catalogue().len() as int, name);
}

} // verus!

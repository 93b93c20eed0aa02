//! What the lines of the readout vouch for.

use crate::sites;
use crate::status;
use crate::status::readout;
use crate::status::SiteState;
use vstd::prelude::*;

verus! {

/// The site does its job, or the build does not need it.
pub open spec fn is_done(states: Seq<(Seq<char>, SiteState)>, name: Seq<char>) -> bool {
    let state = status::state_named(states, name);
    state is Applied || state is Excused
}

/// The site was read and does not do its job.
pub open spec fn is_undone(states: Seq<(Seq<char>, SiteState)>, name: Seq<char>) -> bool {
    let state = status::state_named(states, name);
    state is Stock || state is Foreign
}

/// Site `i` of the catalogue speaks for the group: any site of it, or the critical ones.
pub open spec fn speaks_for(group: Seq<char>, only_critical: bool, i: int) -> bool {
    &&& 0 <= i < sites::catalogue().len()
    &&& sites::catalogue()[i].group == group
    &&& only_critical ==> sites::catalogue()[i].critical
}

/// Every site that speaks for the group is done.
pub open spec fn all_done(
    states: Seq<(Seq<char>, SiteState)>,
    group: Seq<char>,
    only_critical: bool,
) -> bool {
    forall|i: int| #[trigger]
        speaks_for(group, only_critical, i) ==> is_done(states, sites::catalogue()[i].name)
}

/// Every site that speaks for the group is undone.
pub open spec fn all_undone(
    states: Seq<(Seq<char>, SiteState)>,
    group: Seq<char>,
    only_critical: bool,
) -> bool {
    forall|i: int| #[trigger]
        speaks_for(group, only_critical, i) ==> is_undone(states, sites::catalogue()[i].name)
}

/// Some site speaks for the group.
pub open spec fn is_spoken_for(group: Seq<char>, only_critical: bool) -> bool {
    exists|i: int| #[trigger] speaks_for(group, only_critical, i)
}

spec fn all_are(answers: Seq<Option<bool>>, want: bool) -> bool {
    forall|k: int| 0 <= k < answers.len() ==> #[trigger] answers[k] == Some(want)
}

proof fn lemma_answers(
    states: Seq<(Seq<char>, SiteState)>,
    group: Seq<char>,
    only_critical: bool,
    n: int,
    want: bool,
)
    requires
        0 <= n <= sites::catalogue().len(),
    ensures
        all_are(readout::group_answers(states, group, only_critical, n), want) <==> forall|i: int|
            i < n && #[trigger] speaks_for(group, only_critical, i) ==> readout::tri(
                states,
                sites::catalogue()[i].name,
            ) == Some(want),
        readout::group_answers(states, group, only_critical, n).len() > 0 <==> exists|i: int|
            i < n && #[trigger] speaks_for(group, only_critical, i),
    decreases n,
{
    if n > 0 {
        lemma_answers(states, group, only_critical, n - 1, want);
        let before = readout::group_answers(states, group, only_critical, n - 1);
        let answers = readout::group_answers(states, group, only_critical, n);
        let last = readout::tri(states, sites::catalogue()[n - 1].name);
        if speaks_for(group, only_critical, n - 1) {
            assert(answers == before.push(last));
            assert(answers[before.len() as int] == last);
            if all_are(answers, want) {
                assert forall|k: int| 0 <= k < before.len() implies #[trigger] before[k] == Some(
                    want,
                ) by {
                    assert(answers[k] == before[k]);
                }
            }
        } else {
            assert(answers == before);
        }
    }
}

/// A group counts as done exactly where each site that speaks for it is, and as undone
/// where each was read and is not.
pub proof fn law_a_group_is_done_where_its_sites_are(
    states: Seq<(Seq<char>, SiteState)>,
    group: Seq<char>,
    only_critical: bool,
)
    ensures
        readout::selected_verdict(states, group, only_critical) is Yes <==> all_done(
            states,
            group,
            only_critical,
        ) && is_spoken_for(group, only_critical),
        readout::selected_verdict(states, group, only_critical) is No <==> all_undone(
            states,
            group,
            only_critical,
        ) && is_spoken_for(group, only_critical),
{
    let n = sites::catalogue().len() as int;
    let answers = readout::group_answers(states, group, only_critical, n);
    lemma_answers(states, group, only_critical, n, true);
    lemma_answers(states, group, only_critical, n, false);
    if answers.len() > 0 && all_are(answers, false) {
        assert(answers[0] == Some(false));
    }
    assert(readout::verdict_of(answers) is Yes <==> answers.len() > 0 && all_are(answers, true));
    assert(readout::verdict_of(answers) is No <==> answers.len() > 0 && all_are(answers, false));
}

/// Both of the Opus filters and the one before them are out of the path: the first
/// because its function returns, the second because it was replaced or because the
/// build does not have it and the mode that skips it is on, the third because it was
/// replaced or its coefficient is zero.
pub open spec fn low_cut_is_out(states: Seq<(Seq<char>, SiteState)>) -> bool {
    &&& is_done(states, "SplHighPass_Entry"@)
    &&& status::state_named(states, "HpCutoff_Inject"@) is Applied || (status::state_named(
        states,
        "HpCutoff_Inject"@,
    ) is Excused && is_done(states, "OpusConfig_Application"@))
    &&& status::state_named(states, "DcReject_Coefficient"@) is Applied || status::state_named(
        states,
        "DcReject_Inject"@,
    ) is Applied
}

/// Each of the settings that the encoder is held to is.
pub open spec fn encoder_is_held(states: Seq<(Seq<char>, SiteState)>) -> bool {
    &&& is_done(states, "WebRtcOpus_Fec_Off"@)
    &&& is_done(states, "WebRtcOpus_Dtx_Off"@)
    &&& is_done(states, "WebRtcOpus_PacketLoss_Zero"@)
    &&& is_done(states, "WebRtcOpus_Complexity_Max"@)
    &&& is_done(states, "FrameLength_Pin"@)
}

/// A row of the readout is good only where what it vouches for is in place, and where
/// it is in place the row is good.
pub proof fn law_a_good_row_is_vouched_for(
    states: Seq<(Seq<char>, SiteState)>,
    bitrate: Option<int>,
    locked: bool,
)
    ensures
        ({
            let rows = readout::rows_of(states, bitrate, locked);
            &&& rows[0].level is Good <==> all_done(states, "stereo"@, true) && is_spoken_for(
                "stereo"@,
                true,
            ) && !is_undone(states, "ChannelController_ForceStereo"@)
            &&& rows[1].level is Good <==> is_done(states, "SelectSampleRate_48k"@)
            &&& rows[2].level is Good <==> bitrate is Some
            &&& rows[3].level is Good <==> is_done(states, "OpusConfig_Application"@) && is_done(
                states,
                "OpusConfig_IsOk"@,
            )
            &&& rows[4].level is Good <==> all_done(states, "celt"@, false) && is_spoken_for(
                "celt"@,
                false,
            )
            &&& rows[5].level is Good <==> low_cut_is_out(states)
            &&& rows[6].level is Good <==> is_done(states, "WebRtcOpus_Bandwidth_Fullband"@)
            &&& rows[7].level is Good <==> encoder_is_held(states)
            &&& rows[8].level is Good <==> all_done(states, "gain"@, false) && is_spoken_for(
                "gain"@,
                false,
            )
            &&& rows[9].level is Good <==> all_done(states, "denoise"@, false) && is_spoken_for(
                "denoise"@,
                false,
            )
            &&& rows[10].level is Good <==> all_done(states, "echo"@, false) && is_spoken_for(
                "echo"@,
                false,
            )
            &&& rows[11].level is Neutral
        }),
{
    law_a_group_is_done_where_its_sites_are(states, "stereo"@, true);
    law_a_group_is_done_where_its_sites_are(states, "celt"@, false);
    law_a_group_is_done_where_its_sites_are(states, "gain"@, false);
    law_a_group_is_done_where_its_sites_are(states, "denoise"@, false);
    law_a_group_is_done_where_its_sites_are(states, "echo"@, false);
    lemma_low_cut(states);
    lemma_held(states);
}

proof fn lemma_low_cut(states: Seq<(Seq<char>, SiteState)>)
    ensures
        readout::verdict_of(readout::low_cut_readings(states)) is Yes <==> low_cut_is_out(states),
{
    let r = readout::low_cut_readings(states);
    assert(r.len() == 3);
    assert((forall|i: int| 0 <= i < r.len() ==> #[trigger] r[i] == Some(true)) <==> r[0] == Some(
        true,
    ) && r[1] == Some(true) && r[2] == Some(true));
}

proof fn lemma_held(states: Seq<(Seq<char>, SiteState)>)
    ensures
        readout::verdict_of(readout::lock_answers(states)) is Yes <==> encoder_is_held(states),
{
    let r = readout::lock_answers(states);
    assert(r.len() == 5);
    assert(r[0] == readout::tri(states, "WebRtcOpus_Fec_Off"@));
    assert(r[1] == readout::tri(states, "WebRtcOpus_Dtx_Off"@));
    assert(r[2] == readout::tri(states, "WebRtcOpus_PacketLoss_Zero"@));
    assert(r[3] == readout::tri(states, "WebRtcOpus_Complexity_Max"@));
    assert(r[4] == readout::tri(states, "FrameLength_Pin"@));
    assert((forall|i: int| 0 <= i < r.len() ==> #[trigger] r[i] == Some(true)) <==> r[0] == Some(
        true,
    ) && r[1] == Some(true) && r[2] == Some(true) && r[3] == Some(true) && r[4] == Some(true));
}

/// A module of which every site reads as stock gets no good row: Discord is said to be
/// in charge of each of these, and of constant bitrate nothing is held against it.
pub proof fn law_an_untouched_module_reads_as_one(
    states: Seq<(Seq<char>, SiteState)>,
    locked: bool,
)
    requires
        forall|name: Seq<char>| #[trigger] status::state_named(states, name) is Stock,
    ensures
        forall|i: int|
            0 <= i < 12 ==> ((#[trigger] readout::rows_of(states, None, locked)[i]).level is Bad
                || readout::rows_of(states, None, locked)[i].level is Neutral
                || readout::rows_of(states, None, locked)[i].level is Unknown),
{
    law_a_good_row_is_vouched_for(states, None, locked);
    law_a_group_is_done_where_its_sites_are(states, "stereo"@, true);
    law_a_group_is_done_where_its_sites_are(states, "celt"@, false);
    law_a_group_is_done_where_its_sites_are(states, "gain"@, false);
    law_a_group_is_done_where_its_sites_are(states, "denoise"@, false);
    law_a_group_is_done_where_its_sites_are(states, "echo"@, false);
    assert(forall|name: Seq<char>| #[trigger] is_undone(states, name));
    lemma_no_partial(states, "stereo"@, true);
    lemma_no_partial(states, "celt"@, false);
    lemma_no_partial(states, "gain"@, false);
    lemma_no_partial(states, "denoise"@, false);
    lemma_no_partial(states, "echo"@, false);
    let r = readout::low_cut_readings(states);
    assert(r[0] == Some(false) && r[1] == Some(false) && r[2] == Some(false));
    assert(!r.contains(Some(true)));
    let l = readout::lock_answers(states);
    assert forall|i: int| 0 <= i < l.len() implies #[trigger] l[i] == Some(false) by {
        assert(l[i] == readout::tri(states, readout::locks()[i].0));
    }
    assert(!l.contains(Some(true)));
}

proof fn lemma_no_partial(
    states: Seq<(Seq<char>, SiteState)>,
    group: Seq<char>,
    only_critical: bool,
)
    requires
        forall|name: Seq<char>| #[trigger] status::state_named(states, name) is Stock,
    ensures
        !(readout::selected_verdict(states, group, only_critical) is Partial),
{
    let n = sites::catalogue().len() as int;
    let answers = readout::group_answers(states, group, only_critical, n);
    lemma_answers(states, group, only_critical, n, false);
    assert(all_are(answers, false));
    assert(!answers.contains(Some(true)));
}

/// What is said to be loose is what was read and is not held: each such setting, and no
/// other.
pub proof fn law_what_is_loose_is_named(states: Seq<(Seq<char>, SiteState)>, k: int)
    requires
        0 <= k < 5,
    ensures
        is_undone(states, readout::locks()[k].0) ==> readout::loose_below(states, 5).contains(
            readout::locks()[k].1,
        ),
        readout::loose_below(states, 5).len() == 0 <==> forall|i: int|
            0 <= i < 5 ==> !is_undone(states, (#[trigger] readout::locks()[i]).0),
{
    lemma_loose(states, 5);
}

proof fn lemma_loose(states: Seq<(Seq<char>, SiteState)>, n: int)
    requires
        0 <= n <= 5,
    ensures
        forall|k: int|
            0 <= k < n && is_undone(states, (#[trigger] readout::locks()[k]).0)
                ==> readout::loose_below(states, n).contains(readout::locks()[k].1),
        readout::loose_below(states, n).len() == 0 <==> forall|i: int|
            0 <= i < n ==> !is_undone(states, (#[trigger] readout::locks()[i]).0),
    decreases n,
{
    if n > 0 {
        lemma_loose(states, n - 1);
        let before = readout::loose_below(states, n - 1);
        let all = readout::loose_below(states, n);
        let l = readout::locks();
        assert forall|k: int| 0 <= k < n && is_undone(
            states,
            (#[trigger] l[k]).0,
        ) implies all.contains(l[k].1) by {
            if k < n - 1 {
                assert(before.contains(l[k].1));
                let j = choose|j: int| 0 <= j < before.len() && before[j] == l[k].1;
                assert(all[j] == l[k].1);
            } else {
                assert(all[before.len() as int] == l[k].1);
            }
        }
    }
}

} // verus!

//! What is missing, what that costs, and what a plan is said to do.

use crate::apply;
use crate::patch::{ConfigModel, EditModel};
use crate::resolve;
use crate::resolve::OutcomeModel;
use crate::sites;
use crate::text;
use vstd::prelude::*;

verus! {

// ---------------------------------------------------------------------------
// Reports
// ---------------------------------------------------------------------------

/// Each name stands in the report once.
pub open spec fn names_differ(report: Seq<(Seq<char>, OutcomeModel)>) -> bool {
    forall|i: int, j: int|
        0 <= i < j < report.len() ==> (#[trigger] report[i]).0 != (#[trigger] report[j]).0
}

/// A report says of a name what its entry of that name says, and nothing of a name
/// that it has no entry for.
pub proof fn law_a_report_says_what_its_entry_says(
    report: Seq<(Seq<char>, OutcomeModel)>,
    k: int,
    name: Seq<char>,
)
    requires
        names_differ(report),
    ensures
        0 <= k < report.len() ==> resolve::lookup(report, report[k].0) == Some(report[k].1),
        (forall|j: int| 0 <= j < report.len() ==> (#[trigger] report[j]).0 != name)
            ==> resolve::lookup(report, name) is None,
    decreases report.len(),
{
    if report.len() > 0 {
        let rest = report.drop_last();
        assert(report[report.len() - 1] == report.last());
        assert(names_differ(rest)) by {
            assert forall|i: int, j: int| 0 <= i < j < rest.len() implies (#[trigger] rest[i]).0
                != (#[trigger] rest[j]).0 by {
                assert(report[i].0 != report[j].0);
            }
        }
        law_a_report_says_what_its_entry_says(rest, k, name);
        if 0 <= k < rest.len() {
            assert(rest[k] == report[k]);
            assert(report[k].0 != report[report.len() - 1].0);
        }
        if forall|j: int| 0 <= j < report.len() ==> (#[trigger] report[j]).0 != name {
            assert forall|j: int| 0 <= j < rest.len() implies (#[trigger] rest[j]).0 != name by {
                assert(report[j].0 != name);
            }
        }
    }
}

/// A site's absence is excused exactly where it matched nowhere, it may be absent, and
/// what covers it was found, if anything has to.
pub proof fn law_what_is_excused(report: Seq<(Seq<char>, OutcomeModel)>, i: int)
    requires
        0 <= i < sites::catalogue().len(),
    ensures
        ({
            let site = sites::catalogue()[i];
            resolve::excuse_for(report, site.name) is Some <==> {
                &&& resolve::lookup(report, site.name) matches Some(OutcomeModel::Missing)
                &&& site.absent_ok matches Some(absent) && (absent.covered_by matches Some(other)
                    ==> resolve::lookup(report, other) matches Some(OutcomeModel::Found(_)))
            }
        }),
        ({
            let site = sites::catalogue()[i];
            resolve::excuse_for(report, site.name) matches Some(note) ==> note
                == site.absent_ok->0.note
        }),
{
    let cat = sites::catalogue();
    sites::law_site_names_are_unique();
    resolve::lemma_site_named(cat, i);
    assert(cat[i].name == cat[i].name);
}

/// The entry of that name was not found.
pub open spec fn is_missing(report: Seq<(Seq<char>, OutcomeModel)>, name: Seq<char>) -> bool {
    &&& exists|k: int| 0 <= k < report.len() && (#[trigger] report[k]).0 == name
    &&& !(resolve::lookup(report, name) matches Some(OutcomeModel::Found(_)))
}

proof fn lemma_missing(report: Seq<(Seq<char>, OutcomeModel)>, n: int, name: Seq<char>)
    requires
        0 <= n <= report.len(),
    ensures
        resolve::missing_below(report, n).contains(name) <==> (exists|k: int|
            0 <= k < n && (#[trigger] report[k]).0 == name) && !(resolve::lookup(
            report,
            name,
        ) matches Some(OutcomeModel::Found(_))),
    decreases n,
{
    let all = resolve::missing_below(report, n);
    if n > 0 {
        lemma_missing(report, n - 1, name);
        let before = resolve::missing_below(report, n - 1);
        if all.contains(name) {
            let j = choose|j: int| 0 <= j < all.len() && all[j] == name;
            if j < before.len() {
                assert(before[j] == name);
                assert(before.contains(name));
            } else {
                assert(report[n - 1].0 == name);
            }
        }
        if before.contains(name) {
            let j = choose|j: int| 0 <= j < before.len() && before[j] == name;
            assert(all[j] == name);
        }
        if report[n - 1].0 == name && resolve::found(report, name) is None {
            assert(all[before.len() as int] == name);
        }
    }
}

proof fn lemma_unexcused(
    report: Seq<(Seq<char>, OutcomeModel)>,
    names: Seq<Seq<char>>,
    n: int,
    name: Seq<char>,
)
    requires
        0 <= n <= names.len(),
    ensures
        apply::unexcused_below(report, names, n).contains(name) <==> (exists|k: int|
            0 <= k < n && #[trigger] names[k] == name) && resolve::excuse_for(report, name) is None,
    decreases n,
{
    let all = apply::unexcused_below(report, names, n);
    if n > 0 {
        lemma_unexcused(report, names, n - 1, name);
        let before = apply::unexcused_below(report, names, n - 1);
        if all.contains(name) {
            let j = choose|j: int| 0 <= j < all.len() && all[j] == name;
            if j < before.len() {
                assert(before[j] == name);
                assert(before.contains(name));
            } else {
                assert(names[n - 1] == name);
            }
        }
        if before.contains(name) {
            let j = choose|j: int| 0 <= j < before.len() && before[j] == name;
            assert(all[j] == name);
        }
        if names[n - 1] == name && resolve::excuse_for(report, name) is None {
            assert(all[before.len() as int] == name);
        }
    }
}

/// The gaps of a report are the sites that were not found and have no excuse: each of
/// them, and no others.
pub proof fn law_the_gaps_are_what_is_missing_without_excuse(
    report: Seq<(Seq<char>, OutcomeModel)>,
    name: Seq<char>,
)
    ensures
        apply::gaps_of(report).contains(name) <==> is_missing(report, name) && resolve::excuse_for(
            report,
            name,
        ) is None,
{
    let all = resolve::missing_below(report, report.len() as int);
    lemma_missing(report, report.len() as int, name);
    lemma_unexcused(report, all, all.len() as int, name);
    if all.contains(name) {
        let k = choose|k: int| 0 <= k < all.len() && all[k] == name;
        assert(all[k] == name);
    }
}

/// The critical gaps are the gaps whose site decides mono versus stereo, and those of
/// which nothing is known.
pub proof fn law_the_critical_gaps_decide_stereo(gaps: Seq<Seq<char>>, n: int, name: Seq<char>)
    requires
        0 <= n <= gaps.len(),
    ensures
        apply::critical_below(gaps, n).contains(name) <==> (exists|k: int|
            0 <= k < n && #[trigger] gaps[k] == name) && (forall|i: int|
            0 <= i < sites::catalogue().len() && (#[trigger] sites::catalogue()[i]).name == name
                ==> sites::catalogue()[i].critical),
    decreases n,
{
    let cat = sites::catalogue();
    let all = apply::critical_below(gaps, n);
    assert(apply::is_critical(name) <==> forall|i: int|
        0 <= i < cat.len() && (#[trigger] cat[i]).name == name ==> cat[i].critical) by {
        sites::law_site_names_are_unique();
        if exists|i: int| 0 <= i < cat.len() && (#[trigger] cat[i]).name == name {
            let i = choose|i: int| 0 <= i < cat.len() && (#[trigger] cat[i]).name == name;
            resolve::lemma_site_named(cat, i);
            assert forall|j: int| 0 <= j < cat.len() && (#[trigger] cat[j]).name == name implies j
                == i by {
                if i < j {
                    assert(cat[i].name != cat[j].name);
                }
                if j < i {
                    assert(cat[j].name != cat[i].name);
                }
            }
        }
    }
    if n > 0 {
        law_the_critical_gaps_decide_stereo(gaps, n - 1, name);
        let before = apply::critical_below(gaps, n - 1);
        if all.contains(name) {
            let j = choose|j: int| 0 <= j < all.len() && all[j] == name;
            if j < before.len() {
                assert(before[j] == name);
                assert(before.contains(name));
            } else {
                assert(gaps[n - 1] == name);
            }
        }
        if before.contains(name) {
            let j = choose|j: int| 0 <= j < before.len() && before[j] == name;
            assert(all[j] == name);
        }
        if gaps[n - 1] == name && apply::is_critical(name) {
            assert(all[before.len() as int] == name);
        }
    }
}

// ---------------------------------------------------------------------------
// Effects
// ---------------------------------------------------------------------------

pub open spec fn one_if(b: bool) -> int {
    if b {
        1
    } else {
        0
    }
}

/// All of `a` is in `b`.
#[verifier::opaque]
pub open spec fn within(a: Seq<Seq<char>>, b: Seq<Seq<char>>) -> bool {
    forall|x: Seq<char>| a.contains(x) ==> #[trigger] b.contains(x)
}

proof fn lemma_more(list: Seq<Seq<char>>, more: Seq<Seq<char>>)
    ensures
        within(list, list + more),
        within(more, list + more),
        (list + more).len() == list.len() + more.len(),
{
    reveal(within);
    let all = list + more;
    assert forall|x: Seq<char>| list.contains(x) implies #[trigger] all.contains(x) by {
        let i = choose|i: int| 0 <= i < list.len() && list[i] == x;
        assert(all[i] == x);
    }
    assert forall|x: Seq<char>| more.contains(x) implies #[trigger] all.contains(x) by {
        let i = choose|i: int| 0 <= i < more.len() && more[i] == x;
        assert(all[list.len() + i] == x);
    }
}

proof fn lemma_kept(a: Seq<Seq<char>>, b: Seq<Seq<char>>, c: Seq<Seq<char>>)
    requires
        within(a, b),
        within(b, c),
    ensures
        within(a, c),
{
    reveal(within);
    assert forall|x: Seq<char>| a.contains(x) implies #[trigger] c.contains(x) by {
        assert(b.contains(x));
    }
}

/// The last of a list of lists, and through it those before, are in `told`.
proof fn lemma_peel(list: Seq<Seq<char>>, more: Seq<Seq<char>>, told: Seq<Seq<char>>)
    requires
        within(list + more, told),
    ensures
        within(list, told),
        within(more, told),
        (list + more).len() == list.len() + more.len(),
{
    lemma_more(list, more);
    lemma_kept(list, list + more, told);
    lemma_kept(more, list + more, told);
}

/// What is to be told is told, and counts.
proof fn lemma_told(wanted: bool, item: Seq<char>, told: Seq<Seq<char>>)
    requires
        within(apply::only_if(wanted, item), told),
    ensures
        wanted ==> told.contains(item),
        apply::only_if(wanted, item).len() == one_if(wanted),
{
    reveal(within);
    let list = apply::only_if(wanted, item);
    if wanted {
        assert(list[0] == item);
        assert(list.contains(item));
    }
}

proof fn lemma_filter_is_one(
    edits: Seq<EditModel>,
    report: Seq<(Seq<char>, OutcomeModel)>,
    cfg: ConfigModel,
    gain_text: Seq<char>,
)
    ensures
        apply::filter_effect(edits, report, cfg, gain_text).len() <= 1,
{
}

proof fn lemma_ten(
    w0: bool,
    w1: bool,
    w2: bool,
    w3: bool,
    w4: bool,
    w5: bool,
    w6: bool,
    w7: bool,
    w8: bool,
    w9: bool,
    x0: Seq<char>,
    x1: Seq<char>,
    x2: Seq<char>,
    x3: Seq<char>,
    x4: Seq<char>,
    x5: Seq<char>,
    x6: Seq<char>,
    x7: Seq<char>,
    x8: Seq<char>,
    x9: Seq<char>,
    f: Seq<Seq<char>>,
)
    ensures
        ({
            let told = apply::only_if(w0, x0) + apply::only_if(w1, x1) + apply::only_if(w2, x2) + apply::only_if(w3, x3) + apply::only_if(w4, x4) + apply::only_if(w5, x5) + apply::only_if(w6, x6) + apply::only_if(w7, x7) + apply::only_if(w8, x8) + apply::only_if(w9, x9) + f;
            &&& w0 ==> told.contains(x0)
            &&& w1 ==> told.contains(x1)
            &&& w2 ==> told.contains(x2)
            &&& w3 ==> told.contains(x3)
            &&& w4 ==> told.contains(x4)
            &&& w5 ==> told.contains(x5)
            &&& w6 ==> told.contains(x6)
            &&& w7 ==> told.contains(x7)
            &&& w8 ==> told.contains(x8)
            &&& w9 ==> told.contains(x9)
            &&& told.len() == one_if(w0) + one_if(w1) + one_if(w2) + one_if(w3) + one_if(w4) + one_if(w5) + one_if(w6) + one_if(w7) + one_if(w8) + one_if(w9) + f.len()
        }),
{
    let a0 = apply::only_if(w0, x0);
    let a1 = apply::only_if(w1, x1);
    let a2 = apply::only_if(w2, x2);
    let a3 = apply::only_if(w3, x3);
    let a4 = apply::only_if(w4, x4);
    let a5 = apply::only_if(w5, x5);
    let a6 = apply::only_if(w6, x6);
    let a7 = apply::only_if(w7, x7);
    let a8 = apply::only_if(w8, x8);
    let a9 = apply::only_if(w9, x9);
    let s2 = a0 + a1;
    let s3 = s2 + a2;
    let s4 = s3 + a3;
    let s5 = s4 + a4;
    let s6 = s5 + a5;
    let s7 = s6 + a6;
    let s8 = s7 + a7;
    let s9 = s8 + a8;
    let all = s9 + a9;
    let told = all + f;
    lemma_more(all, f);
    lemma_peel(s9, a9, told);
    lemma_peel(s8, a8, told);
    lemma_peel(s7, a7, told);
    lemma_peel(s6, a6, told);
    lemma_peel(s5, a5, told);
    lemma_peel(s4, a4, told);
    lemma_peel(s3, a3, told);
    lemma_peel(s2, a2, told);
    lemma_peel(a0, a1, told);
    lemma_told(w0, x0, told);
    lemma_told(w1, x1, told);
    lemma_told(w2, x2, told);
    lemma_told(w3, x3, told);
    lemma_told(w4, x4, told);
    lemma_told(w5, x5, told);
    lemma_told(w6, x6, told);
    lemma_told(w7, x7, told);
    lemma_told(w8, x8, told);
    lemma_told(w9, x9, told);
}

/// Every group that a plan touches is named among its effects, the bitrate with its
/// number, and there are no other effects: besides one for the filters, there are as
/// many as there are such groups.
pub proof fn law_the_effects_are_those_of_the_groups(
    edits: Seq<EditModel>,
    report: Seq<(Seq<char>, OutcomeModel)>,
    cfg: ConfigModel,
    gain_text: Seq<char>,
)
    ensures
        ({
            let told = apply::effects_of(edits, report, cfg, gain_text);
            &&& apply::touches_group(edits, "stereo"@) ==> told.contains("stereo"@) || told.contains(
                "stereo (held against the network adaptor)"@,
            )
            &&& apply::touches_group(edits, "samplerate"@) ==> told.contains("48 kHz"@)
            &&& apply::touches_group(edits, "bitrate"@) ==> told.contains(
                text::decimal(cfg.bitrate_kbps as nat) + " kbps"@,
            )
            &&& apply::touches_group(edits, "opus"@) ==> told.contains("audio mode"@)
            &&& apply::touches_group(edits, "encoder"@) ==> told.contains(
                "FEC/DTX off, complexity 10, fullband"@,
            )
            &&& apply::touches_group(edits, "celt"@) ==> told.contains("CELT"@)
            &&& apply::touches_group(edits, "gain"@) ==> told.contains("no auto-gain"@)
            &&& apply::touches_group(edits, "denoise"@) ==> told.contains("no noise removal"@)
            &&& apply::touches_group(edits, "echo"@) ==> told.contains("no echo cancellation"@)
            &&& apply::touches_group(edits, "cbr"@) ==> told.contains("constant bitrate"@)
            &&& 0 <= told.len() - (one_if(apply::touches_group(edits, "stereo"@)) + one_if(
                apply::touches_group(edits, "samplerate"@),
            ) + one_if(apply::touches_group(edits, "bitrate"@)) + one_if(apply::touches_group(edits, "opus"@))
                + one_if(apply::touches_group(edits, "encoder"@)) + one_if(apply::touches_group(edits, "celt"@))
                + one_if(apply::touches_group(edits, "gain"@)) + one_if(apply::touches_group(edits, "denoise"@))
                + one_if(apply::touches_group(edits, "echo"@)) + one_if(apply::touches_group(edits, "cbr"@))) <= 1
        }),
{
    let told = apply::effects_of(edits, report, cfg, gain_text);
    lemma_filter_is_one(edits, report, cfg, gain_text);
    lemma_ten(
        apply::touches_group(edits, "stereo"@),
        apply::touches_group(edits, "samplerate"@),
        apply::touches_group(edits, "bitrate"@),
        apply::touches_group(edits, "opus"@),
        apply::touches_group(edits, "encoder"@),
        apply::touches_group(edits, "celt"@),
        apply::touches_group(edits, "gain"@),
        apply::touches_group(edits, "denoise"@),
        apply::touches_group(edits, "echo"@),
        apply::touches_group(edits, "cbr"@),
        apply::stereo_effect(edits),
        "48 kHz"@,
        text::decimal(cfg.bitrate_kbps as nat) + " kbps"@,
        "audio mode"@,
        "FEC/DTX off, complexity 10, fullband"@,
        "CELT"@,
        "no auto-gain"@,
        "no noise removal"@,
        "no echo cancellation"@,
        "constant bitrate"@,
        apply::filter_effect(edits, report, cfg, gain_text),
    );
}

proof fn lemma_notes(
    report: Seq<(Seq<char>, OutcomeModel)>,
    names: Seq<Seq<char>>,
    n: int,
)
    requires
        0 <= n <= names.len(),
    ensures
        apply::gap_notes_below(report, names, n).len() == n,
        forall|k: int|
            0 <= k < n ==> #[trigger] apply::gap_notes_below(report, names, n)[k]
                == apply::gap_note(report, names[k]),
    decreases n,
{
    if n > 0 {
        lemma_notes(report, names, n - 1);
    }
}

/// Everything that could not be located gets a line of its own: a warning, or a remark
/// where it is excused. A report with gaps ends in what they cost: that stereo would be
/// half done where a critical one is among them, that all is well where there are none,
/// and else that they are refinements. A report without any is one good line.
pub proof fn law_every_gap_gets_a_line(report: Seq<(Seq<char>, OutcomeModel)>)
    ensures
        ({
            let notes = apply::gap_report(report);
            let names = resolve::missing_below(report, report.len() as int);
            let gaps = apply::gaps_of(report);
            &&& names.len() == 0 ==> notes.len() == 1 && notes[0] is Good
            &&& names.len() > 0 ==> {
                &&& notes.len() == names.len() + 2
                &&& notes[0] is Info
                &&& forall|k: int|
                    0 <= k < names.len() ==> (if resolve::excuse_for(
                        report,
                        #[trigger] names[k],
                    ) is Some {
                        notes[k + 1] is Info
                    } else {
                        notes[k + 1] is Warn
                    })
                &&& notes.last() is Bad <==> apply::critical_below(gaps, gaps.len() as int).len()
                    > 0
                &&& notes.last() is Good <==> gaps.len() == 0
            }
        }),
{
    let names = resolve::missing_below(report, report.len() as int);
    let gaps = apply::gaps_of(report);
    let notes = apply::gap_report(report);
    lemma_notes(report, names, names.len() as int);
    if names.len() > 0 {
        let middle = apply::gap_notes_below(report, names, names.len() as int);
        assert forall|k: int| 0 <= k < names.len() implies (if resolve::excuse_for(
            report,
            #[trigger] names[k],
        ) is Some {
            notes[k + 1] is Info
        } else {
            notes[k + 1] is Warn
        }) by {
            assert(notes[k + 1] == middle[k]);
        }
        assert(apply::critical_below(gaps, 0).len() == 0);
    }
}

} // verus!

//! What a site is read as, said of the bytes of the file, and what the counts add up to.

use crate::patch;
use crate::patch::laws;
use crate::resolve;
use crate::resolve::OutcomeModel;
use crate::shellcode;
use crate::sites;
use crate::sites::{ActionModel, SiteModel};
use crate::status;
use crate::status::SiteState;
use vstd::prelude::*;

verus! {

// ---------------------------------------------------------------------------
// One site
// ---------------------------------------------------------------------------

/// The file holds at `at` something that the site declares.
pub open spec fn is_declared(data: Seq<u8>, site: SiteModel, at: int) -> bool {
    ||| site.stock.len() > 0 && laws::bytes_are(data, at, site.stock)
    ||| exists|e: int|
        0 <= e < site.expect_orig.len() && laws::bytes_are(data, at, #[trigger] site.expect_orig[e])
}

/// The file holds at `off` what patching the site leaves there, whatever it was patched
/// with. A bitrate is any whole number of kbps that is not the stock one.
pub open spec fn is_patched(data: Seq<u8>, site: SiteModel, off: int) -> bool {
    match site.action {
        ActionModel::Bytes(b) => laws::bytes_are(data, off, b),
        ActionModel::BitrateImm32 => 0 <= off && off + 4 <= data.len() && laws::number(data, off)
            % 1000 == 0 && !is_declared(data, site, off),
        ActionModel::BitrateSetter | ActionModel::CtlArg(_) => 0 <= off && off + 2 <= data.len()
            && data[off] == 0x55 && data[off + 1] == 0xBA,
        ActionModel::ShellcodeHpCutoff => laws::bytes_are(data, off, laws::first_stores(1)),
        ActionModel::ShellcodeDcReject => laws::bytes_are(data, off, laws::first_stores(2)),
        ActionModel::RipRelF32(bits) => exists|at: int| #[trigger]
            laws::goes_to(site.action, data, off, at) && at + 4 <= data.len()
                && status::floats_equal(laws::number(data, at), bits as int),
    }
}

/// The file holds, where the site's action would write, something that the site
/// declares. A function entry that declares nothing is taken for one wherever it is.
pub open spec fn is_untouched(data: Seq<u8>, site: SiteModel, off: int) -> bool {
    ||| exists|at: int| #[trigger]
        laws::goes_to(site.action, data, off, at) && is_declared(data, site, at) && (
        site.action is RipRelF32 ==> at + 4 <= data.len())
    ||| site.action is Bytes && site.entry && site.stock.len() == 0 && site.expect_orig.len() == 0
}

/// The site's own stock bytes are what patching it writes.
pub open spec fn writes_stock(site: SiteModel) -> bool {
    site.action matches ActionModel::Bytes(b) && site.stock.len() > 0 && site.stock == b
}

proof fn lemma_declared(data: Seq<u8>, site: SiteModel, at: int)
    ensures
        status::looks_stock(data, site, at) == is_declared(data, site, at),
{
    laws::lemma_bytes_are(data, at, site.stock);
    assert forall|e: int| 0 <= e < site.expect_orig.len() implies laws::bytes_are(
        data,
        at,
        #[trigger] site.expect_orig[e],
    ) == patch::holds_at(data, at, site.expect_orig[e]) by {
        laws::lemma_bytes_are(data, at, site.expect_orig[e]);
    }
    if is_declared(data, site, at) && !(site.stock.len() > 0 && laws::bytes_are(
        data,
        at,
        site.stock,
    )) {
        let e = choose|e: int|
            0 <= e < site.expect_orig.len() && laws::bytes_are(
                data,
                at,
                #[trigger] site.expect_orig[e],
            );
        assert(patch::holds_at(data, at, site.expect_orig[e]));
    }
    if patch::holds_one_of(data, at, site.expect_orig) {
        let e = choose|e: int|
            0 <= e < site.expect_orig.len() && patch::holds_at(
                data,
                at,
                #[trigger] site.expect_orig[e],
            );
        assert(laws::bytes_are(data, at, site.expect_orig[e]));
    }
}

proof fn lemma_pinned(data: Seq<u8>, off: int)
    ensures
        patch::holds_at(data, off, seq![0x55u8, 0xBAu8]) <==> 0 <= off && off + 2 <= data.len()
            && data[off] == 0x55 && data[off + 1] == 0xBA,
{
    let two = seq![0x55u8, 0xBAu8];
    laws::lemma_bytes_are(data, off, two);
    if laws::bytes_are(data, off, two) {
        assert(data[off + 0] == two[0]);
        assert(data[off + 1] == two[1]);
    }
}

/// A site reads as applied exactly where the file holds what patching it leaves, as
/// stock where it does not but holds what the site declares, and else as foreign. Where
/// patching would write the stock bytes themselves, those read as stock.
pub proof fn law_what_a_site_is_read_as(data: Seq<u8>, site: SiteModel, off: int)
    ensures
        status::reading(data, site, off) == if is_patched(data, site, off) {
            if writes_stock(site) {
                SiteState::Stock
            } else {
                SiteState::Applied
            }
        } else if is_untouched(data, site, off) {
            SiteState::Stock
        } else {
            SiteState::Foreign
        },
{
    lemma_declared(data, site, off);
    match site.action {
        ActionModel::Bytes(b) => {
            laws::lemma_bytes_are(data, off, b);
            assert(laws::goes_to(site.action, data, off, off));
        },
        ActionModel::BitrateImm32 => {
            assert(laws::goes_to(site.action, data, off, off));
        },
        ActionModel::BitrateSetter | ActionModel::CtlArg(_) => {
            lemma_pinned(data, off);
            assert(laws::goes_to(site.action, data, off, off));
        },
        ActionModel::ShellcodeHpCutoff | ActionModel::ShellcodeDcReject => {
            patch::lemma_marker_bytes();
            assert(laws::first_stores(1) =~= shellcode::marker_code(shellcode::RCX));
            assert(laws::first_stores(2) =~= shellcode::marker_code(shellcode::RDX));
            laws::lemma_bytes_are(data, off, laws::first_stores(1));
            laws::lemma_bytes_are(data, off, laws::first_stores(2));
            assert(laws::goes_to(site.action, data, off, off));
        },
        ActionModel::RipRelF32(bits) => {
            match patch::rip_place(data, off) {
                Some(at) => {
                    laws::lemma_goes_to(site.action, data, off, at);
                    lemma_declared(data, site, at);
                    assert(laws::goes_to(site.action, data, off, at));
                },
                None => {},
            }
            assert forall|at: int| #[trigger]
                laws::goes_to(site.action, data, off, at) implies patch::rip_place(data, off)
                == Some(at) by {
                laws::lemma_goes_to(site.action, data, off, at);
            }
        },
    }
}

/// A site that was found is applied where every place of it is, stock where every place
/// is, and foreign where they differ; one that was not found is excused or unknown.
pub proof fn law_a_site_is_read_at_all_its_places(
    data: Seq<u8>,
    site: SiteModel,
    report: Seq<(Seq<char>, OutcomeModel)>,
    k: int,
)
    ensures
        resolve::found(report, site.name) matches Some(r) ==> {
            let state = status::site_reading(data, site, report);
            &&& 0 <= k < r.offsets.len() && state is Applied ==> status::reading(
                data,
                site,
                r.offsets[k],
            ) is Applied
            &&& 0 <= k < r.offsets.len() && state is Stock ==> status::reading(
                data,
                site,
                r.offsets[k],
            ) is Stock
            &&& state is Foreign ==> (exists|i: int|
                0 <= i < r.offsets.len() && !(status::reading(
                    data,
                    site,
                    #[trigger] r.offsets[i],
                ) is Applied)) && exists|i: int|
                0 <= i < r.offsets.len() && !(status::reading(
                    data,
                    site,
                    #[trigger] r.offsets[i],
                ) is Stock)
            &&& state is Applied || state is Stock || state is Foreign
        },
        resolve::found(report, site.name) is None ==> status::site_reading(data, site, report)
            == if resolve::excuse_for(report, site.name) is Some {
            SiteState::Excused
        } else {
            SiteState::Unknown
        },
{
}

// ---------------------------------------------------------------------------
// Groups
// ---------------------------------------------------------------------------

/// Site `i` of the catalogue belongs to the group and is one that this build can have.
pub open spec fn counts(
    list: Seq<(Seq<char>, SiteState)>,
    group: Seq<char>,
    i: int,
) -> bool {
    sites::catalogue()[i].group == group && !(status::state_named(list, sites::catalogue()[i].name)
        is Excused)
}

proof fn lemma_rolls(list: Seq<(Seq<char>, SiteState)>, group: Seq<char>, n: int)
    requires
        0 <= n,
    ensures
        0 <= status::applied_below(list, group, n) <= status::usable_below(list, group, n) <= n,
        status::applied_below(list, group, n) == status::usable_below(list, group, n) <==> forall|
            i: int,
        |
            0 <= i < n && #[trigger] counts(list, group, i) ==> status::state_named(
                list,
                sites::catalogue()[i].name,
            ) is Applied,
        status::applied_below(list, group, n) == 0 <==> forall|i: int|
            0 <= i < n && #[trigger] counts(list, group, i) ==> !(status::state_named(
                list,
                sites::catalogue()[i].name,
            ) is Applied),
        status::usable_below(list, group, n) == 0 <==> forall|i: int|
            0 <= i < n ==> !#[trigger] counts(list, group, i),
    decreases n,
{
    if n > 0 {
        lemma_rolls(list, group, n - 1);
        assert(counts(list, group, n - 1) == (sites::catalogue()[n - 1].group == group && !(
        status::state_named(list, sites::catalogue()[n - 1].name) is Excused)));
    }
}

/// A group counts as wholly applied exactly where each of its sites that this build can
/// have is applied, and as not applied at all where none of them is. Excused sites do
/// not count.
pub proof fn law_a_group_is_whole_where_its_sites_are(
    list: Seq<(Seq<char>, SiteState)>,
    group: Seq<char>,
)
    ensures
        ({
            let n = sites::catalogue().len() as int;
            let applied = status::applied_below(list, group, n);
            let usable = status::usable_below(list, group, n);
            &&& 0 <= applied <= usable <= n
            &&& applied == usable <==> forall|i: int|
                0 <= i < n && #[trigger] counts(list, group, i) ==> status::state_named(
                    list,
                    sites::catalogue()[i].name,
                ) is Applied
            &&& applied == 0 <==> forall|i: int|
                0 <= i < n && #[trigger] counts(list, group, i) ==> !(status::state_named(
                    list,
                    sites::catalogue()[i].name,
                ) is Applied)
            &&& usable == 0 <==> forall|i: int| 0 <= i < n ==> !#[trigger] counts(list, group, i)
        }),
{
    lemma_rolls(list, group, sites::catalogue().len() as int);
}

/// What was located and what is missing make up the whole report.
pub proof fn law_located_and_missing_add_up(report: Seq<(Seq<char>, OutcomeModel)>, n: int)
    requires
        0 <= n,
    ensures
        status::located_below(report, n) + resolve::missing_below(report, n).len() == n,
    decreases n,
{
    if n > 0 {
        law_located_and_missing_add_up(report, n - 1);
    }
}

/// Each name stands in the list once.
pub open spec fn names_differ(list: Seq<(Seq<char>, SiteState)>) -> bool {
    forall|i: int, j: int|
        0 <= i < j < list.len() ==> (#[trigger] list[i]).0 != (#[trigger] list[j]).0
}

/// The state under a name is that of the entry of that name, and unknown where there is
/// none.
pub proof fn law_a_state_is_found_by_its_name(
    list: Seq<(Seq<char>, SiteState)>,
    k: int,
    name: Seq<char>,
)
    requires
        names_differ(list),
    ensures
        0 <= k < list.len() ==> status::state_named(list, list[k].0) == list[k].1,
        (forall|j: int| 0 <= j < list.len() ==> (#[trigger] list[j]).0 != name)
            ==> status::state_named(list, name) is Unknown,
    decreases list.len(),
{
    if list.len() > 0 {
        let rest = list.drop_last();
        assert(list[list.len() - 1] == list.last());
        assert forall|i: int, j: int| 0 <= i < j < rest.len() implies (#[trigger] rest[i]).0 != (
        #[trigger] rest[j]).0 by {
            assert(list[i].0 != list[j].0);
        }
        law_a_state_is_found_by_its_name(rest, k, name);
        if 0 <= k < rest.len() {
            assert(rest[k] == list[k]);
            assert(list[k].0 != list[list.len() - 1].0);
        }
        if forall|j: int| 0 <= j < list.len() ==> (#[trigger] list[j]).0 != name {
            assert forall|j: int| 0 <= j < rest.len() implies (#[trigger] rest[j]).0 != name by {
                assert(list[j].0 != name);
            }
        }
    }
}

} // verus!

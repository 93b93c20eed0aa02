//! What a plan writes and where, and what becomes of it, said of the bytes of the
//! file.

use crate::bytes;
use crate::patch;
use crate::patch::{CheckErrorModel, ConfigModel, EditModel, State};
use crate::resolve;
use crate::resolve::OutcomeModel;
use crate::shellcode;
use crate::sites;
use crate::sites::{ActionModel, SiteModel};
use crate::status;
use vstd::prelude::*;

verus! {

/// The number that the four bytes at `at` denote, the lowest first.
pub open spec fn number(d: Seq<u8>, at: int) -> int {
    d[at] + 256 * (d[at + 1] + 256 * (d[at + 2] + 256 * d[at + 3]))
}

/// The same as a signed number.
pub open spec fn signed_number(d: Seq<u8>, at: int) -> int {
    if d[at + 3] >= 0x80 {
        number(d, at) - 0x1_0000_0000
    } else {
        number(d, at)
    }
}

/// `push rbp`, then `mov edx` with some four bytes.
pub open spec fn pins_edx(b: Seq<u8>) -> bool {
    b.len() == 6 && b[0] == 0x55 && b[1] == 0xBA
}

/// `b` does at a site what the action declares.
pub open spec fn does(action: ActionModel, cfg: ConfigModel, b: Seq<u8>) -> bool {
    match action {
        ActionModel::Bytes(declared) => b == declared,
        ActionModel::BitrateImm32 => b.len() == 4 && number(b, 0) == 1000 * cfg.bitrate_kbps,
        ActionModel::BitrateSetter => pins_edx(b) && number(b, 2) == 1000 * cfg.bitrate_kbps,
        ActionModel::CtlArg(value) => pins_edx(b) && signed_number(b, 2) == value,
        ActionModel::ShellcodeHpCutoff => b == shellcode::hp_cutoff_code(cfg.gain),
        ActionModel::ShellcodeDcReject => b == shellcode::dc_reject_code(cfg.gain),
        ActionModel::RipRelF32(bits) => b.len() == 4 && number(b, 0) == bits,
    }
}

/// An action on a site at `off` writes at `at`: on the spot, or where the operand
/// there points, counted from behind the operand.
pub open spec fn goes_to(action: ActionModel, data: Seq<u8>, off: int, at: int) -> bool {
    if action is RipRelF32 {
        0 <= off && off + 4 <= data.len() && at == off + 4 + signed_number(data, off) && 0 <= at
            <= usize::MAX
    } else {
        at == off
    }
}

/// The bytes from `at` on are `b`.
pub open spec fn bytes_are(data: Seq<u8>, at: int, b: Seq<u8>) -> bool {
    &&& 0 <= at && at + b.len() <= data.len()
    &&& forall|i: int| 0 <= i < b.len() ==> #[trigger] data[at + i] == b[i]
}

pub proof fn lemma_bytes_are(data: Seq<u8>, at: int, b: Seq<u8>)
    ensures
        bytes_are(data, at, b) == patch::holds_at(data, at, b),
{
    if bytes_are(data, at, b) {
        let there = data.subrange(at, at + b.len());
        assert forall|i: int| 0 <= i < b.len() implies #[trigger] there[i] == b[i] by {
            assert(data[at + i] == b[i]);
        }
        assert(there =~= b);
    }
    if patch::holds_at(data, at, b) {
        let there = data.subrange(at, at + b.len());
        assert forall|i: int| 0 <= i < b.len() implies #[trigger] data[at + i] == b[i] by {
            assert(there[i] == data[at + i]);
        }
    }
}

// ---------------------------------------------------------------------------
// What is written
// ---------------------------------------------------------------------------

proof fn lemma_le32(v: int)
    requires
        0 <= v < 0x1_0000_0000,
    ensures
        bytes::le32(v).len() == 4,
        number(bytes::le32(v), 0) == v,
        signed_number(bytes::le32(v), 0) == if v < 0x8000_0000 {
            v
        } else {
            v - 0x1_0000_0000
        },
{
    let le = bytes::le32(v);
    bytes::law_le32_reads_back(v);
    assert(bytes::quad(le[0], le[1], le[2], le[3]) == v);
}

proof fn lemma_pinned(v: int)
    requires
        0 <= v < 0x1_0000_0000,
    ensures
        pins_edx(patch::pinned_argument(v)),
        number(patch::pinned_argument(v), 2) == v,
        signed_number(patch::pinned_argument(v), 2) == if v < 0x8000_0000 {
            v
        } else {
            v - 0x1_0000_0000
        },
{
    let b = patch::pinned_argument(v);
    let le = bytes::le32(v);
    lemma_le32(v);
    assert(b[2] == le[0] && b[3] == le[1] && b[4] == le[2] && b[5] == le[3]);
}

/// What is written at a site is what its action declares: the declared bytes, the
/// bitrate in bits per second, the argument of the ctl, the constant.
pub proof fn law_what_is_written_is_what_is_declared(action: ActionModel, cfg: ConfigModel)
    requires
        0 <= cfg.bitrate_kbps && cfg.bitrate_kbps * 1000 <= u32::MAX,
    ensures
        does(action, cfg, patch::action_bytes(action, cfg)),
{
    match action {
        ActionModel::BitrateImm32 => {
            lemma_le32(cfg.bitrate_kbps * 1000);
        },
        ActionModel::BitrateSetter => {
            lemma_pinned(cfg.bitrate_kbps * 1000);
        },
        ActionModel::CtlArg(v) => {
            lemma_pinned(bytes::unsigned(v as int));
        },
        ActionModel::RipRelF32(bits) => {
            lemma_le32(bits as int);
        },
        _ => {},
    }
}

/// The value that a ctl lock was declared with reads back from what is written for
/// it, whatever the value.
pub proof fn law_a_ctl_value_reads_back(v: i32, cfg: ConfigModel, data: Seq<u8>, off: int)
    ensures
        bytes::u32_at(patch::action_bytes(ActionModel::CtlArg(v), cfg), 2) matches Some(n)
            && bytes::signed(n) == v,
        patch::holds_at(data, off, patch::action_bytes(ActionModel::CtlArg(v), cfg))
            ==> status::carried(data, ActionModel::CtlArg(v), off) == Some(v as int),
{
    let b = patch::action_bytes(ActionModel::CtlArg(v), cfg);
    let u = bytes::unsigned(v as int);
    bytes::law_le32_reads_back(u);
    assert(b.skip(2) =~= bytes::le32(u));
    if patch::holds_at(data, off, b) {
        lemma_bytes_are(data, off, b);
        assert(data[off + 0] == b[0]);
        assert(data[off + 1] == b[1]);
        assert(data[off + 2] == b[2]);
        assert(data[off + 3] == b[3]);
        assert(data[off + 4] == b[4]);
        assert(data[off + 5] == b[5]);
        assert(data.subrange(off, off + 2) =~= seq![0x55u8, 0xBAu8]);
    }
}

/// Two ctl locks with different values are different bytes.
pub proof fn law_ctl_values_are_told_apart(v: i32, w: i32, cfg: ConfigModel)
    requires
        v != w,
    ensures
        patch::action_bytes(ActionModel::CtlArg(v), cfg) != patch::action_bytes(
            ActionModel::CtlArg(w),
            cfg,
        ),
{
    law_a_ctl_value_reads_back(v, cfg, seq![], 0);
    law_a_ctl_value_reads_back(w, cfg, seq![], 0);
}

// ---------------------------------------------------------------------------
// Where
// ---------------------------------------------------------------------------

pub proof fn lemma_goes_to(action: ActionModel, data: Seq<u8>, off: int, at: int)
    ensures
        goes_to(action, data, off, at) <==> patch::action_place(action, data, off) == Some(at),
{
}

proof fn lemma_edit_of_site(
    site: SiteModel,
    offsets: Seq<int>,
    cfg: ConfigModel,
    data: Seq<u8>,
    n: int,
    k: int,
) -> (j: int)
    requires
        0 <= k < patch::site_edits(site, offsets, cfg, data, n).len(),
    ensures
        0 <= j < n,
        ({
            let edit = patch::site_edits(site, offsets, cfg, data, n)[k];
            edit == patch::edit_for(site, cfg, edit.offset) && patch::action_place(
                site.action,
                data,
                offsets[j],
            ) == Some(edit.offset)
        }),
    decreases n,
{
    if k < patch::site_edits(site, offsets, cfg, data, n - 1).len() {
        lemma_edit_of_site(site, offsets, cfg, data, n - 1, k)
    } else {
        n - 1
    }
}

/// The edit is one that the site, found at `off` among its places, calls for.
pub open spec fn is_called_for(
    edit: EditModel,
    site: SiteModel,
    report: Seq<(Seq<char>, OutcomeModel)>,
    cfg: ConfigModel,
    data: Seq<u8>,
    off: int,
) -> bool {
    &&& cfg.groups.contains(site.group)
    &&& resolve::found(report, site.name) matches Some(r) && r.offsets.contains(off)
    &&& edit.site == site.name
    &&& edit.group == site.group
    &&& edit.what == site.what
    &&& goes_to(site.action, data, off, edit.offset)
    &&& does(site.action, cfg, edit.bytes)
}

proof fn lemma_called_for(
    cat: Seq<SiteModel>,
    report: Seq<(Seq<char>, OutcomeModel)>,
    cfg: ConfigModel,
    data: Seq<u8>,
    n: int,
    k: int,
) -> (at: (int, int))
    requires
        0 <= cfg.bitrate_kbps && cfg.bitrate_kbps * 1000 <= u32::MAX,
        n <= cat.len(),
        0 <= k < patch::edits_below(cat, report, cfg, data, n).len(),
    ensures
        0 <= at.0 < n,
        is_called_for(
            patch::edits_below(cat, report, cfg, data, n)[k],
            cat[at.0],
            report,
            cfg,
            data,
            at.1,
        ),
    decreases n,
{
    let before = patch::edits_below(cat, report, cfg, data, n - 1);
    let site = cat[n - 1];
    let mine = patch::edits_of_site(site, report, cfg, data);
    let edit = patch::edits_below(cat, report, cfg, data, n)[k];
    if k < before.len() {
        assert(edit == before[k]);
        lemma_called_for(cat, report, cfg, data, n - 1, k)
    } else {
        let r = resolve::found(report, site.name)->0;
        assert(edit == mine[k - before.len()]);
        let j = lemma_edit_of_site(
            site,
            r.offsets,
            cfg,
            data,
            r.offsets.len() as int,
            k - before.len(),
        );
        lemma_goes_to(site.action, data, r.offsets[j], edit.offset);
        law_what_is_written_is_what_is_declared(site.action, cfg);
        (n - 1, r.offsets[j])
    }
}

/// A plan holds nothing but what is called for: each edit is that of a site of a
/// selected group, goes where the site was found or where the operand there points,
/// and does what the site declares.
pub proof fn law_every_edit_is_called_for(
    report: Seq<(Seq<char>, OutcomeModel)>,
    cfg: ConfigModel,
    data: Seq<u8>,
    k: int,
)
    requires
        0 <= cfg.bitrate_kbps && cfg.bitrate_kbps * 1000 <= u32::MAX,
        0 <= k < patch::plan_for(report, cfg, data).len(),
    ensures
        exists|i: int, off: int|
            0 <= i < sites::catalogue().len() && #[trigger] is_called_for(
                patch::plan_for(report, cfg, data)[k],
                sites::catalogue()[i],
                report,
                cfg,
                data,
                off,
            ),
{
    let cat = sites::catalogue();
    let at = lemma_called_for(cat, report, cfg, data, cat.len() as int, k);
    assert(is_called_for(
        patch::plan_for(report, cfg, data)[k],
        cat[at.0],
        report,
        cfg,
        data,
        at.1,
    ));
}

/// A plan leaves out nothing that is called for: each place of a site of a selected
/// group has its edit.
pub proof fn law_what_is_called_for_is_planned(
    report: Seq<(Seq<char>, OutcomeModel)>,
    cfg: ConfigModel,
    data: Seq<u8>,
    i: int,
    off: int,
    at: int,
)
    requires
        0 <= cfg.bitrate_kbps && cfg.bitrate_kbps * 1000 <= u32::MAX,
        0 <= i < sites::catalogue().len(),
        cfg.groups.contains(sites::catalogue()[i].group),
        resolve::found(report, sites::catalogue()[i].name) matches Some(r) && r.offsets.contains(
            off,
        ),
        goes_to(sites::catalogue()[i].action, data, off, at),
    ensures
        exists|k: int|
            0 <= k < patch::plan_for(report, cfg, data).len() && is_called_for(
                #[trigger] patch::plan_for(report, cfg, data)[k],
                sites::catalogue()[i],
                report,
                cfg,
                data,
                off,
            ) && patch::plan_for(report, cfg, data)[k].offset == at,
{
    let site = sites::catalogue()[i];
    let r = resolve::found(report, site.name)->0;
    let plan = patch::plan_for(report, cfg, data);
    let j = choose|j: int| 0 <= j < r.offsets.len() && r.offsets[j] == off;
    lemma_goes_to(site.action, data, off, at);
    law_what_is_written_is_what_is_declared(site.action, cfg);
    patch::law_selected_sites_are_planned(report, cfg, data, i, j);
    let wanted = patch::edit_for(site, cfg, at);
    let k = choose|k: int| 0 <= k < plan.len() && plan[k] == wanted;
    assert(is_called_for(plan[k], site, report, cfg, data, off));
}

/// An action on a site at `off` writes somewhere.
pub open spec fn goes_somewhere(action: ActionModel, data: Seq<u8>, off: int) -> bool {
    exists|at: int| #[trigger] goes_to(action, data, off, at)
}

/// Each place of a site gets one edit, in order. Only a place whose operand points
/// nowhere gets none.
pub proof fn law_each_place_gets_one_edit(
    site: SiteModel,
    offsets: Seq<int>,
    cfg: ConfigModel,
    data: Seq<u8>,
    n: int,
)
    requires
        0 <= n <= offsets.len(),
    ensures
        ({
            let edits = patch::site_edits(site, offsets, cfg, data, n);
            &&& edits.len() <= n
            &&& (forall|k: int|
                0 <= k < n ==> goes_somewhere(site.action, data, #[trigger] offsets[k]))
                ==> edits.len() == n
            &&& edits.len() == n ==> forall|k: int|
                0 <= k < n ==> goes_to(site.action, data, offsets[k], (#[trigger] edits[k]).offset)
            &&& !(site.action is RipRelF32) ==> edits.len() == n && forall|k: int|
                0 <= k < n ==> (#[trigger] edits[k]).offset == offsets[k]
        }),
    decreases n,
{
    if n > 0 {
        law_each_place_gets_one_edit(site, offsets, cfg, data, n - 1);
        let before = patch::site_edits(site, offsets, cfg, data, n - 1);
        let edits = patch::site_edits(site, offsets, cfg, data, n);
        let off = offsets[n - 1];
        assert(offsets[n - 1] == off);
        if goes_somewhere(site.action, data, off) {
            let at = choose|at: int| #[trigger] goes_to(site.action, data, off, at);
            lemma_goes_to(site.action, data, off, at);
        }
        if let Some(at) = patch::action_place(site.action, data, off) {
            lemma_goes_to(site.action, data, off, at);
            assert(goes_to(site.action, data, off, at));
            assert forall|k: int| 0 <= k < n && edits.len() == n implies goes_to(
                site.action,
                data,
                offsets[k],
                (#[trigger] edits[k]).offset,
            ) by {
                if k < n - 1 {
                    assert(edits[k] == before[k]);
                }
            }
        }
    }
}

// ---------------------------------------------------------------------------
// Whether it may be
// ---------------------------------------------------------------------------

/// An edit of the site may be written: it lies in the file, and the file holds one of
/// the things that the site expects there, where it expects any.
pub open spec fn may_be_written(edit: EditModel, site: SiteModel, data: Seq<u8>) -> bool {
    &&& edit.offset + edit.bytes.len() <= data.len()
    &&& site.expect_orig.len() == 0 || exists|e: int|
        0 <= e < site.expect_orig.len() && bytes_are(
            data,
            edit.offset,
            #[trigger] site.expect_orig[e],
        )
}

/// An edit of a site is refused exactly where it may not be written, and the refusal
/// names the site, the place, and what is wrong with it.
pub proof fn law_an_edit_is_refused_where_it_may_not_be_written(
    edit: EditModel,
    i: int,
    data: Seq<u8>,
)
    requires
        0 <= i < sites::catalogue().len(),
        edit.site == sites::catalogue()[i].name,
        0 <= edit.offset,
    ensures
        patch::edit_error(edit, data) is None <==> may_be_written(
            edit,
            sites::catalogue()[i],
            data,
        ),
        patch::edit_error(edit, data) matches Some(e) ==> match e {
            CheckErrorModel::OutOfRange { site, offset, len } => edit.offset + edit.bytes.len()
                > data.len() && site == edit.site && offset == edit.offset && len
                == edit.bytes.len(),
            CheckErrorModel::UnexpectedBytes { site, offset, .. } => edit.offset + edit.bytes.len()
                <= data.len() && site == edit.site && offset == edit.offset,
        },
{
    let site = sites::catalogue()[i];
    assert(sites::catalogue().contains(site));
    patch::lemma_known_site(site, edit.site);
    assert forall|e: int| 0 <= e < site.expect_orig.len() implies bytes_are(
        data,
        edit.offset,
        #[trigger] site.expect_orig[e],
    ) == patch::holds_at(data, edit.offset, site.expect_orig[e]) by {
        lemma_bytes_are(data, edit.offset, site.expect_orig[e]);
    }
    if may_be_written(edit, site, data) && site.expect_orig.len() > 0 {
        let e = choose|e: int|
            0 <= e < site.expect_orig.len() && bytes_are(
                data,
                edit.offset,
                #[trigger] site.expect_orig[e],
            );
        assert(patch::holds_at(data, edit.offset, site.expect_orig[e]));
    }
    if patch::holds_one_of(data, edit.offset, site.expect_orig) {
        let e = choose|e: int|
            0 <= e < site.expect_orig.len() && patch::holds_at(
                data,
                edit.offset,
                #[trigger] site.expect_orig[e],
            );
        assert(bytes_are(data, edit.offset, site.expect_orig[e]));
    }
}

/// Every edit that is refused is reported, and a report names no other.
pub proof fn law_every_refusal_is_reported(edits: Seq<EditModel>, data: Seq<u8>, n: int)
    requires
        0 <= n <= edits.len(),
    ensures
        forall|e: CheckErrorModel| #[trigger]
            patch::errors_below(edits, data, n).contains(e) <==> exists|k: int|
                0 <= k < n && patch::edit_error(#[trigger] edits[k], data) == Some(e),
    decreases n,
{
    let all = patch::errors_below(edits, data, n);
    if n == 0 {
    } else {
        law_every_refusal_is_reported(edits, data, n - 1);
        let before = patch::errors_below(edits, data, n - 1);
        assert forall|e: CheckErrorModel| #[trigger] all.contains(e) <==> exists|k: int|
            0 <= k < n && patch::edit_error(#[trigger] edits[k], data) == Some(e) by {
            if all.contains(e) {
                let j = choose|j: int| 0 <= j < all.len() && all[j] == e;
                if j < before.len() {
                    assert(before[j] == e);
                    assert(before.contains(e));
                } else {
                    assert(patch::edit_error(edits[n - 1], data) == Some(e));
                }
            }
            if exists|k: int|
                0 <= k < n && patch::edit_error(#[trigger] edits[k], data) == Some(e) {
                let k = choose|k: int|
                    0 <= k < n && patch::edit_error(#[trigger] edits[k], data) == Some(e);
                if k < n - 1 {
                    assert(before.contains(e));
                    let j = choose|j: int| 0 <= j < before.len() && before[j] == e;
                    assert(all[j] == e);
                } else {
                    assert(all[before.len() as int] == e);
                }
            }
        }
    }
}

/// Reading back names exactly the sites of which an edit is not in the file.
pub proof fn law_every_unwritten_edit_is_named(edits: Seq<EditModel>, data: Seq<u8>, n: int)
    requires
        0 <= n <= edits.len(),
    ensures
        forall|name: Seq<char>| #[trigger]
            patch::unwritten_below(edits, data, n).contains(name) <==> exists|k: int|
                0 <= k < n && (#[trigger] edits[k]).site == name && !bytes_are(
                    data,
                    edits[k].offset,
                    edits[k].bytes,
                ),
    decreases n,
{
    let all = patch::unwritten_below(edits, data, n);
    if n == 0 {
    } else {
        law_every_unwritten_edit_is_named(edits, data, n - 1);
        let before = patch::unwritten_below(edits, data, n - 1);
        lemma_bytes_are(data, edits[n - 1].offset, edits[n - 1].bytes);
        assert forall|name: Seq<char>| #[trigger] all.contains(name) <==> exists|k: int|
            0 <= k < n && (#[trigger] edits[k]).site == name && !bytes_are(
                data,
                edits[k].offset,
                edits[k].bytes,
            ) by {
            if all.contains(name) {
                let j = choose|j: int| 0 <= j < all.len() && all[j] == name;
                if j < before.len() {
                    assert(before[j] == name);
                    assert(before.contains(name));
                } else {
                    assert(edits[n - 1].site == name);
                }
            }
            if exists|k: int|
                0 <= k < n && (#[trigger] edits[k]).site == name && !bytes_are(
                    data,
                    edits[k].offset,
                    edits[k].bytes,
                ) {
                let k = choose|k: int|
                    0 <= k < n && (#[trigger] edits[k]).site == name && !bytes_are(
                        data,
                        edits[k].offset,
                        edits[k].bytes,
                    );
                if k < n - 1 {
                    assert(before.contains(name));
                    let j = choose|j: int| 0 <= j < before.len() && before[j] == name;
                    assert(all[j] == name);
                } else {
                    assert(all[before.len() as int] == name);
                }
            }
        }
    }
}

// ---------------------------------------------------------------------------
// What a file is
// ---------------------------------------------------------------------------

/// The first two stores of a filter replacement that finds the encoder through
/// register `enc`: `mov dword [enc + 16], 1002` and `mov dword [enc - 14052], -1`.
pub open spec fn first_stores(enc: u8) -> Seq<u8> {
    seq![
        0xC7u8,
        (0x80 + enc) as u8,
        0x10u8,
        0u8,
        0u8,
        0u8,
        0xEAu8,
        0x03u8,
        0u8,
        0u8,
        0xC7u8,
        (0x80 + enc) as u8,
        0x1Cu8,
        0xC9u8,
        0xFFu8,
        0xFFu8,
        0xFFu8,
        0xFFu8,
        0xFFu8,
        0xFFu8,
    ]
}

/// A filter replacement starts at `at`.
pub open spec fn a_filter_starts(data: Seq<u8>, at: int) -> bool {
    bytes_are(data, at, first_stores(1)) || bytes_are(data, at, first_stores(2))
}

/// At one of the places where the site was found, the file has room for the site's
/// stock bytes and holds something else.
pub open spec fn is_changed(
    site: SiteModel,
    report: Seq<(Seq<char>, OutcomeModel)>,
    data: Seq<u8>,
    off: int,
) -> bool {
    &&& site.stock.len() > 0
    &&& resolve::found(report, site.name) matches Some(r) && r.offsets.contains(off)
    &&& off + site.stock.len() <= data.len()
    &&& !bytes_are(data, off, site.stock)
}

/// A file is taken for this tool's exactly where it holds the start of a filter
/// replacement, for another tool's where it does not and some site is changed, and
/// for an untouched one where neither is so.
pub proof fn law_what_a_file_is_taken_for(
    data: Seq<u8>,
    report: Seq<(Seq<char>, OutcomeModel)>,
)
    ensures
        ({
            let ours = exists|at: int| #[trigger] a_filter_starts(data, at);
            let changed = exists|i: int, off: int|
                0 <= i < sites::catalogue().len() && #[trigger] is_changed(
                    sites::catalogue()[i],
                    report,
                    data,
                    off,
                );
            patch::state_of(data, report) == if ours {
                State::Stereocord
            } else if changed {
                State::Foreign
            } else {
                State::Stock
            }
        }),
{
    patch::lemma_marker_bytes();
    assert(first_stores(1) =~= shellcode::marker_code(shellcode::RCX));
    assert(first_stores(2) =~= shellcode::marker_code(shellcode::RDX));
    assert forall|at: int| #[trigger] bytes_are(data, at, first_stores(1)) == patch::holds_at(
        data,
        at,
        first_stores(1),
    ) by {
        lemma_bytes_are(data, at, first_stores(1));
    }
    assert forall|at: int| #[trigger] bytes_are(data, at, first_stores(2)) == patch::holds_at(
        data,
        at,
        first_stores(2),
    ) by {
        lemma_bytes_are(data, at, first_stores(2));
    }
    let ours = exists|at: int| #[trigger] a_filter_starts(data, at);
    if patch::carries_filter(data) {
        if patch::contains_bytes(data, first_stores(1)) {
            let at = choose|at: int| #[trigger] patch::holds_at(data, at, first_stores(1));
            assert(a_filter_starts(data, at));
        } else {
            let at = choose|at: int| #[trigger] patch::holds_at(data, at, first_stores(2));
            assert(a_filter_starts(data, at));
        }
        assert(ours);
    }
    if ours {
        let at = choose|at: int| #[trigger] a_filter_starts(data, at);
        if bytes_are(data, at, first_stores(1)) {
            assert(patch::holds_at(data, at, first_stores(1)));
        } else {
            assert(patch::holds_at(data, at, first_stores(2)));
        }
        assert(patch::carries_filter(data));
    }
    let cat = sites::catalogue();
    let changed = exists|i: int, off: int|
        0 <= i < cat.len() && #[trigger] is_changed(cat[i], report, data, off);
    let differs = exists|i: int|
        0 <= i < cat.len() && patch::differs_from_stock(#[trigger] cat[i], report, data);
    if differs {
        let i = choose|i: int|
            0 <= i < cat.len() && patch::differs_from_stock(#[trigger] cat[i], report, data);
        let site = cat[i];
        let r = resolve::found(report, site.name)->0;
        let k = choose|k: int|
            0 <= k < r.offsets.len() && (#[trigger] r.offsets[k]) + site.stock.len() <= data.len()
                && !patch::holds_at(data, r.offsets[k], site.stock);
        lemma_bytes_are(data, r.offsets[k], site.stock);
        assert(is_changed(cat[i], report, data, r.offsets[k]));
    }
    if changed {
        let (i, off) = choose|i: int, off: int|
            0 <= i < cat.len() && #[trigger] is_changed(cat[i], report, data, off);
        let site = cat[i];
        let r = resolve::found(report, site.name)->0;
        let k = choose|k: int| 0 <= k < r.offsets.len() && r.offsets[k] == off;
        lemma_bytes_are(data, off, site.stock);
        assert(r.offsets[k] + site.stock.len() <= data.len());
        assert(patch::differs_from_stock(cat[i], report, data));
    }
}

/// The longest of a list is as long as one of them, and none is longer.
pub proof fn law_the_longest_is_one_of_them(list: Seq<Seq<u8>>, n: int)
    requires
        0 < n <= list.len(),
    ensures
        forall|k: int| 0 <= k < n ==> (#[trigger] list[k]).len() <= patch::longest_below(list, n),
        exists|k: int| 0 <= k < n && (#[trigger] list[k]).len() == patch::longest_below(list, n),
    decreases n,
{
    if n > 1 {
        law_the_longest_is_one_of_them(list, n - 1);
    }
    assert(list[n - 1].len() >= 0);
    assert(patch::longest_below(list, 0) == 0);
}

} // verus!

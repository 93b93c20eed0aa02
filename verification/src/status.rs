//! Reading a module back and saying, in plain words, what it will sound like.
//!
//! `scan` answers "can the catalogue still find its way around this build",
//! which is a question about the tool. This answers "what is this module
//! currently doing to my audio", which is the question the person actually
//! has. The two are different enough to be worth keeping apart: a site can be
//! perfectly locatable and simply not applied.
//!
//! The awkward part is that a patched module hides its own evidence. Most
//! signatures key on the very instructions the patch overwrites, so scanning a
//! patched file reports two thirds of the catalogue as MISSING and can say
//! nothing about what was done to it. The way out is the backup: it is a stock
//! copy of the same build, patching never changes the file's length, and so
//! offsets resolved against the backup are valid in the patched file byte for
//! byte. Resolve there, read here.

pub mod laws;
pub mod promises;
pub mod readout;

use crate::bytes;
use crate::bytes::{to_signed, u32le};
use crate::elf;
use crate::md5;
use crate::patch;
use crate::patch::{any_at, bytes_at, rip_target, ConfigModel, State};
use crate::resolve;
use crate::resolve::{OutcomeModel, Report};
use crate::shellcode;
use crate::sig;
use crate::sites;
use crate::sites::{Action, ActionModel, Site, SiteModel};
use crate::status::readout::{Row, RowModel};
use crate::text::str_eq;
use vstd::prelude::*;

verus! {

/// What one site is currently doing in the file on disk.
#[derive(Clone, Copy, PartialEq, Eq, Debug, Structural)]
pub enum SiteState {
    /// The bytes this tool writes are there.
    Applied,
    /// The bytes an untouched build has are there.
    Stock,
    /// Located, but holding something neither stock nor ours. Another tool,
    /// another version of this one, or a signature that found the wrong place.
    Foreign,
    /// Could not be located, so nothing can be said about it.
    Unknown,
    /// This build does not have the code, and does not need it.
    Excused,
}

impl SiteState {
    pub fn applied(self) -> (res: bool)
        ensures
            res == (self is Applied),
    {
        match self {
            SiteState::Applied => true,
            _ => false,
        }
    }
}

/// Where the offsets used to read the file came from.
#[derive(Clone, Copy, PartialEq, Eq, Structural)]
pub enum Baseline {
    /// Resolved against a stock backup of this exact build. Everything below
    /// can be read with confidence, patched or not.
    Backup,
    /// Resolved against the file itself. Fine while it is stock; once patched,
    /// most sites no longer match and read as unknown.
    SelfScan,
}

pub struct Inspection {
    pub size: u64,
    pub md5: String,
    pub symbols: Option<usize>,
    pub state: State,
    pub baseline: Baseline,
    /// The report to plan a patch from: against the backup where there is one,
    /// because that is the file a patch run actually starts from.
    pub report: Report,
    pub sites: Vec<(&'static str, SiteState)>,
    pub rows: Vec<Row>,
    /// How many sites were located at all.
    pub located: usize,
    /// The bitrate the module currently carries, read back out of the file.
    pub bitrate_bps: Option<u32>,
    /// Whether that bitrate is the `opus_encoder_ctl` lock rather than merely
    /// the value the encoder starts from.
    pub bitrate_locked: bool,
}

// ---------------------------------------------------------------------------
// What one site holds
// ---------------------------------------------------------------------------

/// The bits of a float that is not a number.
pub open spec fn is_nan(bits: int) -> bool {
    bits % 0x8000_0000 > 0x7F80_0000
}

/// Two floats, given by their bits, compare equal.
pub open spec fn floats_equal(a: int, b: int) -> bool {
    !is_nan(a) && !is_nan(b) && (a == b || a % 0x8000_0000 == 0 && b % 0x8000_0000 == 0)
}

/// The bytes at `off` are ones that the site declares. Once they are known not to
/// be its patched form, that makes them an untouched build's.
pub open spec fn looks_stock(data: Seq<u8>, site: SiteModel, off: int) -> bool {
    ||| site.stock.len() > 0 && patch::holds_at(data, off, site.stock)
    ||| patch::holds_one_of(data, off, site.expect_orig)
}

/// A bitrate that can have been written: a whole number of kbps.
pub open spec fn whole_kbps(bps: int) -> bool {
    bps % 1000 == 0
}

/// What identifies the filter replacement that an action injects.
pub open spec fn marker_of(action: ActionModel) -> Seq<u8> {
    match action {
        ActionModel::ShellcodeHpCutoff => shellcode::marker_code(shellcode::RCX),
        _ => shellcode::marker_code(shellcode::RDX),
    }
}

/// What a site holds at one of its places. Every action can say "neither": that
/// keeps a wrong backup, or a signature that landed somewhere unintended, from
/// being reported as a confident yes or no.
pub open spec fn reading(data: Seq<u8>, site: SiteModel, off: int) -> SiteState {
    match site.action {
        ActionModel::Bytes(b) => if patch::holds_at(data, off, b) {
            if site.stock.len() > 0 && site.stock == b {
                SiteState::Stock
            } else {
                SiteState::Applied
            }
        } else if looks_stock(data, site, off) {
            SiteState::Stock
        } else if site.entry && site.stock.len() == 0 && site.expect_orig.len() == 0 {
            SiteState::Stock
        } else {
            SiteState::Foreign
        },
        ActionModel::BitrateImm32 => if looks_stock(data, site, off) {
            SiteState::Stock
        } else if bytes::u32_at(data, off) matches Some(bps) && whole_kbps(bps) {
            SiteState::Applied
        } else {
            SiteState::Foreign
        },
        ActionModel::BitrateSetter | ActionModel::CtlArg(_) => if patch::holds_at(
            data,
            off,
            seq![0x55u8, 0xBAu8],
        ) {
            SiteState::Applied
        } else if looks_stock(data, site, off) {
            SiteState::Stock
        } else {
            SiteState::Foreign
        },
        ActionModel::ShellcodeHpCutoff | ActionModel::ShellcodeDcReject => if patch::holds_at(
            data,
            off,
            marker_of(site.action),
        ) {
            SiteState::Applied
        } else if looks_stock(data, site, off) {
            SiteState::Stock
        } else {
            SiteState::Foreign
        },
        ActionModel::RipRelF32(bits) => match patch::rip_place(data, off) {
            None => SiteState::Foreign,
            Some(target) => match bytes::u32_at(data, target) {
                None => SiteState::Foreign,
                Some(current) => if floats_equal(current, bits as int) {
                    SiteState::Applied
                } else if looks_stock(data, site, target) {
                    SiteState::Stock
                } else {
                    SiteState::Foreign
                },
            },
        },
    }
}

/// All of a site's places read as `state`.
pub open spec fn all_read(
    data: Seq<u8>,
    site: SiteModel,
    offsets: Seq<int>,
    state: SiteState,
) -> bool {
    forall|k: int|
        0 <= k < offsets.len() ==> reading(data, site, #[trigger] offsets[k]) == state
}

/// What a site holds, over all of its places. Half-applied is not a state this
/// tool can produce, so it counts as somebody else's.
pub open spec fn site_reading(
    data: Seq<u8>,
    site: SiteModel,
    report: Seq<(Seq<char>, OutcomeModel)>,
) -> SiteState {
    match resolve::found(report, site.name) {
        None => if resolve::excuse_for(report, site.name) is Some {
            SiteState::Excused
        } else {
            SiteState::Unknown
        },
        Some(r) => if all_read(data, site, r.offsets, SiteState::Applied) {
            SiteState::Applied
        } else if all_read(data, site, r.offsets, SiteState::Stock) {
            SiteState::Stock
        } else {
            SiteState::Foreign
        },
    }
}

fn has_marker(data: &[u8], off: usize, action: &Action) -> (res: bool)
    ensures
        res == patch::holds_at(data@, off as int, marker_of(action@)),
{
    let marker = match action {
        Action::ShellcodeHpCutoff => shellcode::hp_cutoff_marker(),
        _ => shellcode::dc_reject_marker(),
    };
    bytes_at(data, off, marker.as_slice())
}

fn stock_there(data: &[u8], site: &Site, off: usize) -> (res: bool)
    ensures
        res == looks_stock(data@, site@, off as int),
{
    site.stock.len() > 0 && bytes_at(data, off, site.stock) || any_at(data, off, site.expect_orig)
}

fn same_float(a: u32, b: u32) -> (res: bool)
    ensures
        res == floats_equal(a as int, b as int),
{
    let x: u32 = a % 0x8000_0000;
    let y: u32 = b % 0x8000_0000;
    x <= 0x7F80_0000 && y <= 0x7F80_0000 && (a == b || (x == 0 && y == 0))
}

fn pins_argument(data: &[u8], off: usize) -> (res: bool)
    ensures
        res == patch::holds_at(data@, off as int, seq![0x55u8, 0xBAu8]),
{
    let prefix: [u8; 2] = [0x55, 0xBA];
    assert(prefix@ =~= seq![0x55u8, 0xBAu8]);
    bytes_at(data, off, &prefix)
}

/// Decide what a site holds at one of its places.
pub fn read_one(data: &[u8], site: &Site, off: usize) -> (res: SiteState)
    ensures
        res == reading(data@, site@, off as int),
{
    match site.action {
        Action::Bytes(b) => {
            if bytes_at(data, off, b) {
                // A site whose patched bytes are also a legal stock value
                // cannot be told apart by bytes alone; `stock` is declared
                // exactly where that is not the case, so prefer it.
                if site.stock.len() > 0 && crate::text::bytes_eq(site.stock, b) {
                    return SiteState::Stock;
                }
                return SiteState::Applied;
            }
            if stock_there(data, site, off) {
                return SiteState::Stock;
            }
            // Function-entry stubs have no declared stock bytes: the prologue
            // differs per build and the symbol is what found them. Anything
            // that is not our `ret` is the original.
            if site.entry && site.stock.len() == 0 && site.expect_orig.len() == 0 {
                return SiteState::Stock;
            }
            SiteState::Foreign
        },
        Action::BitrateImm32 => {
            if stock_there(data, site, off) {
                return SiteState::Stock;
            }
            match u32le(data, off as u128) {
                Some(bps) if bps % 1000 == 0 => SiteState::Applied,
                _ => SiteState::Foreign,
            }
        },
        Action::BitrateSetter | Action::CtlArg(_) => {
            if pins_argument(data, off) {
                SiteState::Applied
            } else if stock_there(data, site, off) {
                SiteState::Stock
            } else {
                SiteState::Foreign
            }
        },
        Action::ShellcodeHpCutoff | Action::ShellcodeDcReject => {
            if has_marker(data, off, &site.action) {
                SiteState::Applied
            } else if stock_there(data, site, off) {
                SiteState::Stock
            } else {
                SiteState::Foreign
            }
        },
        Action::RipRelF32(bits) => match rip_target(data, off) {
            None => SiteState::Foreign,
            Some(target) => match u32le(data, target as u128) {
                None => SiteState::Foreign,
                Some(current) => {
                    if same_float(current, bits) {
                        SiteState::Applied
                    } else if stock_there(data, site, target) {
                        SiteState::Stock
                    } else {
                        SiteState::Foreign
                    }
                },
            },
        },
    }
}

fn read_all(data: &[u8], site: &Site, offsets: &Vec<usize>, state: SiteState) -> (res: bool)
    ensures
        res == all_read(data@, site@, sig::ints(offsets@), state),
{
    let ghost places = sig::ints(offsets@);
    let mut k: usize = 0;
    while k < offsets.len()
        invariant
            k <= offsets@.len(),
            places == sig::ints(offsets@),
            forall|j: int| 0 <= j < k ==> reading(data@, site@, #[trigger] places[j]) == state,
        decreases offsets@.len() - k,
    {
        assert(places[k as int] == offsets@[k as int]);
        if read_one(data, site, offsets[k]) != state {
            return false;
        }
        k = k + 1;
    }
    true
}

/// Decide what one site currently holds.
fn read_site(data: &[u8], site: &Site, report: &Report) -> (res: SiteState)
    requires
        report.wf(),
    ensures
        res == site_reading(data@, site@, report@),
{
    match report.resolved(site.name) {
        None => {
            if report.excused(site.name).is_some() {
                SiteState::Excused
            } else {
                SiteState::Unknown
            }
        },
        Some(r) => {
            if read_all(data, site, &r.offsets, SiteState::Applied) {
                SiteState::Applied
            } else if read_all(data, site, &r.offsets, SiteState::Stock) {
                SiteState::Stock
            } else {
                SiteState::Foreign
            }
        },
    }
}

// ---------------------------------------------------------------------------
// The value that a site carries
// ---------------------------------------------------------------------------

/// The value at `off` where a site with that action carries one.
pub open spec fn carried(data: Seq<u8>, action: ActionModel, off: int) -> Option<int> {
    match action {
        ActionModel::BitrateImm32 | ActionModel::Bytes(_) => bytes::u32_at(data, off),
        ActionModel::BitrateSetter | ActionModel::CtlArg(_) => if patch::holds_at(
            data,
            off,
            seq![0x55u8, 0xBAu8],
        ) {
            match bytes::u32_at(data, off + 2) {
                Some(v) => Some(bytes::signed(v)),
                None => None,
            }
        } else {
            None
        },
        _ => None,
    }
}

/// The value that the site of that name carries where it was first found.
pub open spec fn value_read(
    data: Seq<u8>,
    report: Seq<(Seq<char>, OutcomeModel)>,
    name: Seq<char>,
) -> Option<int> {
    match (patch::known_site(name), resolve::found(report, name)) {
        (Some(site), Some(r)) => if r.offsets.len() > 0 {
            carried(data, site.action, r.offsets[0])
        } else {
            None
        },
        _ => None,
    }
}

/// The value a site currently carries, where it carries one.
fn value_of(data: &[u8], report: &Report, name: &str) -> (res: Option<i64>)
    requires
        report.wf(),
    ensures
        res is Some == value_read(data@, report@, name@) is Some,
        res matches Some(v) ==> value_read(data@, report@, name@) == Some(v as int),
{
    let site: &'static Site = match sites::find(name) {
        Some(s) => s,
        None => {
            return None;
        },
    };
    proof {
        patch::lemma_known_site(site@, name@);
    }
    let resolved = match report.resolved(name) {
        Some(r) => r,
        None => {
            return None;
        },
    };
    if resolved.offsets.len() == 0 {
        return None;
    }
    let off: usize = resolved.offsets[0];
    assert(resolved@.offsets[0] == off);
    match site.action {
        Action::BitrateImm32 | Action::Bytes(_) => match u32le(data, off as u128) {
            Some(v) => Some(v as i64),
            None => None,
        },
        Action::BitrateSetter | Action::CtlArg(_) => {
            if pins_argument(data, off) {
                match u32le(data, off as u128 + 2) {
                    Some(v) => Some(to_signed(v) as i64),
                    None => None,
                }
            } else {
                None
            }
        },
        _ => None,
    }
}

// ---------------------------------------------------------------------------
// Inspecting a module
// ---------------------------------------------------------------------------

/// The state that a list of readings gives for a name.
pub open spec fn state_named(list: Seq<(Seq<char>, SiteState)>, name: Seq<char>) -> SiteState
    decreases list.len(),
{
    if list.len() == 0 {
        SiteState::Unknown
    } else if list.last().0 == name {
        list.last().1
    } else {
        state_named(list.drop_last(), name)
    }
}

/// The names of a list of readings with their states.
pub open spec fn state_views(list: Seq<(&'static str, SiteState)>) -> Seq<(Seq<char>, SiteState)> {
    list.map_values(|e: (&'static str, SiteState)| (e.0@, e.1))
}

/// What an inspection says.
#[verifier::ext_equal]
pub struct InspectionModel {
    pub size: int,
    pub md5: Seq<char>,
    pub symbols: Option<int>,
    pub state: State,
    pub baseline: Baseline,
    pub report: Seq<(Seq<char>, OutcomeModel)>,
    pub sites: Seq<(Seq<char>, SiteState)>,
    pub rows: Seq<RowModel>,
    pub located: int,
    pub bitrate_bps: Option<int>,
    pub bitrate_locked: bool,
}

impl View for Inspection {
    type V = InspectionModel;

    open spec fn view(&self) -> InspectionModel {
        InspectionModel {
            size: self.size as int,
            md5: self.md5@,
            symbols: match self.symbols {
                Some(n) => Some(n as int),
                None => None,
            },
            state: self.state,
            baseline: self.baseline,
            report: self.report@,
            sites: state_views(self.sites@),
            rows: readout::row_views(self.rows@),
            located: self.located as int,
            bitrate_bps: match self.bitrate_bps {
                Some(v) => Some(v as int),
                None => None,
            },
            bitrate_locked: self.bitrate_locked,
        }
    }
}

/// What resolving the whole catalogue in a file gives.
pub open spec fn report_of(data: Seq<u8>) -> Seq<(Seq<char>, OutcomeModel)> {
    resolve::outcomes_of(sites::catalogue(), data, elf::function_symbols(data))
}

/// The baseline is a copy of the same build: it has the length of the file.
pub open spec fn usable(data: Seq<u8>, baseline: Option<Seq<u8>>) -> bool {
    baseline matches Some(b) && b.len() == data.len()
}

/// The report that a file is read with.
pub open spec fn report_for(data: Seq<u8>, baseline: Option<Seq<u8>>) -> Seq<
    (Seq<char>, OutcomeModel),
> {
    if usable(data, baseline) {
        report_of(baseline->0)
    } else {
        report_of(data)
    }
}

/// What every site of the catalogue holds.
pub open spec fn states_of(
    data: Seq<u8>,
    report: Seq<(Seq<char>, OutcomeModel)>,
) -> Seq<(Seq<char>, SiteState)> {
    Seq::new(
        sites::catalogue().len(),
        |i: int|
            (
                sites::catalogue()[i].name,
                site_reading(data, sites::catalogue()[i], report),
            ),
    )
}

/// How many of the first `n` names of a report were found.
pub open spec fn located_below(report: Seq<(Seq<char>, OutcomeModel)>, n: int) -> int
    decreases n,
{
    if n <= 0 {
        0
    } else if resolve::found(report, report[n - 1].0) is Some {
        located_below(report, n - 1) + 1
    } else {
        located_below(report, n - 1)
    }
}

/// A value that can be a bitrate.
pub open spec fn as_bitrate(v: Option<int>) -> Option<int> {
    match v {
        Some(n) => if 0 < n <= u32::MAX {
            Some(n)
        } else {
            None
        },
        None => None,
    }
}

/// The bitrate that a module carries. Two sites can carry one; the lock is the
/// one that decides, because it overrides both the value the config started with
/// and the one the server sends on joining.
pub open spec fn bitrate_of(
    data: Seq<u8>,
    report: Seq<(Seq<char>, OutcomeModel)>,
    states: Seq<(Seq<char>, SiteState)>,
) -> Option<int> {
    if state_named(states, "WebRtcOpus_SetBitRate"@) is Applied {
        as_bitrate(value_read(data, report, "WebRtcOpus_SetBitRate"@))
    } else if state_named(states, "OpusConfig_Bitrate"@) is Applied {
        as_bitrate(value_read(data, report, "OpusConfig_Bitrate"@))
    } else {
        None
    }
}

/// What an inspection of `data` says, read with the help of `baseline`.
pub open spec fn inspection_of(data: Seq<u8>, baseline: Option<Seq<u8>>) -> InspectionModel {
    let report = report_for(data, baseline);
    let states = states_of(data, report);
    let bitrate = bitrate_of(data, report, states);
    let locked = state_named(states, "WebRtcOpus_SetBitRate"@) is Applied;
    InspectionModel {
        size: data.len() as int,
        md5: md5::hex_digest(data),
        symbols: match elf::function_symbols(data) {
            Some(known) => Some(known.len() as int),
            None => None,
        },
        state: patch::state_of(data, report_of(data)),
        baseline: if usable(data, baseline) {
            Baseline::Backup
        } else {
            Baseline::SelfScan
        },
        report,
        sites: states,
        rows: readout::rows_of(states, bitrate, locked),
        located: located_below(report, report.len() as int),
        bitrate_bps: bitrate,
        bitrate_locked: locked,
    }
}

pub fn find_state(list: &Vec<(&'static str, SiteState)>, name: &str) -> (res: SiteState)
    ensures
        res == state_named(state_views(list@), name@),
{
    let ghost all = state_views(list@);
    let mut i: usize = list.len();
    assert(all.take(i as int) =~= all);
    while i > 0
        invariant
            i <= list@.len(),
            all == state_views(list@),
            state_named(all, name@) == state_named(all.take(i as int), name@),
        decreases i,
    {
        i = i - 1;
        assert(all.take(i + 1).last() == all[i as int]);
        assert(all.take(i + 1).drop_last() =~= all.take(i as int));
        if str_eq(list[i].0, name) {
            return list[i].1;
        }
    }
    SiteState::Unknown
}

/// How many of a group's sites are in a state, among the first `n`.
pub open spec fn applied_below(
    list: Seq<(Seq<char>, SiteState)>,
    group: Seq<char>,
    n: int,
) -> int
    decreases n,
{
    if n <= 0 {
        0
    } else {
        let site = sites::catalogue()[n - 1];
        applied_below(list, group, n - 1) + if site.group == group && state_named(
            list,
            site.name,
        ) is Applied {
            1int
        } else {
            0
        }
    }
}

/// How many of a group's sites this build can have, among the first `n`.
pub open spec fn usable_below(list: Seq<(Seq<char>, SiteState)>, group: Seq<char>, n: int) -> int
    decreases n,
{
    if n <= 0 {
        0
    } else {
        let site = sites::catalogue()[n - 1];
        usable_below(list, group, n - 1) + if site.group == group && !(state_named(
            list,
            site.name,
        ) is Excused) {
            1int
        } else {
            0
        }
    }
}

impl Inspection {
    /// The report can be looked up and put into words, and the digest is whole.
    pub open spec fn wf(&self) -> bool {
        self.report.wf() && self.report.plain() && self.md5@.len() == 32
    }

    /// Whether this file looks like a Discord voice module at all.
    ///
    /// Nothing located means one of two things, and they are worth telling
    /// apart from "stock": a file that is not the module (someone pointed the
    /// path box at the wrong thing) or a build so far ahead of the catalogue
    /// that none of it applies. Reporting either as "untouched" would be a
    /// confident answer to a question that was never understood.
    pub fn recognised(&self) -> (res: bool)
        ensures
            res == (self@.located > 0),
    {
        self.located > 0
    }

    pub fn site(&self, name: &str) -> (res: SiteState)
        ensures
            res == state_named(self@.sites, name@),
    {
        find_state(&self.sites, name)
    }

    /// How many of a group's sites are applied, out of how many this build can
    /// have at all.
    pub fn group_roll(&self, group: &str) -> (res: (usize, usize))
        ensures
            res.0 == applied_below(self@.sites, group@, sites::catalogue().len() as int),
            res.1 == usable_below(self@.sites, group@, sites::catalogue().len() as int),
    {
        let list = sites::sites();
        let ghost cat = sites::catalogue();
        let mut applied: usize = 0;
        let mut usable: usize = 0;
        let mut i: usize = 0;
        assert(sites::models(list@).len() == cat.len());
        while i < list.len()
            invariant
                i <= list@.len(),
                cat == sites::catalogue(),
                sites::models(list@) == cat,
                applied == applied_below(self@.sites, group@, i as int),
                usable == usable_below(self@.sites, group@, i as int),
                applied <= i,
                usable <= i,
            decreases list@.len() - i,
        {
            let site: &'static Site = list[i];
            assert(cat[i as int] == sites::models(list@)[i as int]);
            if str_eq(site.group, group) {
                let state = self.site(site.name);
                if state.applied() {
                    applied = applied + 1;
                }
                if state != SiteState::Excused {
                    usable = usable + 1;
                }
            }
            i = i + 1;
        }
        (applied, usable)
    }
}

fn read_states(data: &[u8], report: &Report) -> (res: Vec<(&'static str, SiteState)>)
    requires
        report.wf(),
    ensures
        state_views(res@) == states_of(data@, report@),
{
    let list = sites::sites();
    let ghost cat = sites::catalogue();
    let ghost all = states_of(data@, report@);
    let mut out: Vec<(&'static str, SiteState)> = Vec::new();
    let mut i: usize = 0;
    assert(sites::models(list@).len() == cat.len());
    while i < list.len()
        invariant
            i <= list@.len(),
            report.wf(),
            cat == sites::catalogue(),
            sites::models(list@) == cat,
            all == states_of(data@, report@),
            state_views(out@) == all.take(i as int),
        decreases list@.len() - i,
    {
        let site: &'static Site = list[i];
        assert(cat[i as int] == sites::models(list@)[i as int]);
        let entry = (site.name, read_site(data, site, report));
        assert(state_views(out@.push(entry)) =~= state_views(out@).push((entry.0@, entry.1)));
        assert(all.take(i + 1) =~= all.take(i as int).push(all[i as int]));
        out.push(entry);
        i = i + 1;
    }
    assert(all.take(i as int) =~= all);
    out
}

fn count_located(report: &Report) -> (res: usize)
    requires
        report.wf(),
    ensures
        res == located_below(report@, report@.len() as int),
{
    let mut n: usize = 0;
    let mut i: usize = 0;
    while i < report.order.len()
        invariant
            i <= report.order@.len(),
            report.wf(),
            n <= i,
            n == located_below(report@, i as int),
        decreases report.order@.len() - i,
    {
        assert(report@[i as int].0 == report.order@[i as int]@);
        if report.resolved(report.order[i]).is_some() {
            n = n + 1;
        }
        i = i + 1;
    }
    n
}

fn bitrate_value(v: Option<i64>) -> (res: Option<u32>)
    ensures
        res is Some == as_bitrate(
            match v {
                Some(n) => Some(n as int),
                None => None,
            },
        ) is Some,
        res matches Some(n) ==> v == Some(n as i64),
{
    match v {
        Some(n) => if n > 0 && n <= u32::MAX as i64 {
            Some(n as u32)
        } else {
            None
        },
        None => None,
    }
}

fn report_on(data: &[u8]) -> (res: (Report, Option<usize>))
    ensures
        res.0.wf(),
        res.0.plain(),
        res.0@ == report_of(data@),
        match (res.1, elf::function_symbols(data@)) {
            (Some(n), Some(known)) => n == known.len(),
            (None, None) => true,
            _ => false,
        },
{
    match elf::symbols(data) {
        Some(syms) => {
            let report = resolve::resolve_all(data, Some(&syms));
            (report, Some(syms.len()))
        },
        None => (resolve::resolve_all(data, None), None),
    }
}

pub open spec fn opt_bytes(b: Option<&[u8]>) -> Option<Seq<u8>> {
    match b {
        Some(x) => Some(x@),
        None => None,
    }
}

/// Read `data`, using `baseline` (a stock copy of the same build, if there is
/// one) to locate the sites.
///
/// A backup of a different build would resolve to offsets that mean nothing
/// here. Equal length is a weak check on its own, but combined with the per-site
/// byte validation (every read has to land on either stock or patched bytes to
/// count as either) a mismatched backup degrades to "unknown" rather than to a
/// confident lie.
pub fn inspect(data: &[u8], baseline: Option<&[u8]>) -> (res: Inspection)
    ensures
        res@ == inspection_of(data@, opt_bytes(baseline)),
        res.wf(),
{
    proof {
        md5::law_digests_are_32_hex_digits(data@);
    }
    let (live, symbols) = report_on(data);
    let state = patch::classify(data, &live);
    let mut source = Baseline::SelfScan;
    let mut report = live;
    if let Some(b) = baseline {
        if b.len() == data.len() {
            let (resolved, _) = report_on(b);
            report = resolved;
            source = Baseline::Backup;
        }
    }
    assert(report@ == report_for(data@, opt_bytes(baseline)));
    let states = read_states(data, &report);
    let located: usize = count_located(&report);
    let locked = find_state(&states, "WebRtcOpus_SetBitRate").applied();
    let bitrate: Option<u32> = if locked {
        bitrate_value(value_of(data, &report, "WebRtcOpus_SetBitRate"))
    } else if find_state(&states, "OpusConfig_Bitrate").applied() {
        bitrate_value(value_of(data, &report, "OpusConfig_Bitrate"))
    } else {
        None
    };
    let rows = readout::rows(&states, bitrate, locked);
    Inspection {
        size: data.len() as u64,
        md5: md5::hex(data),
        symbols,
        state,
        baseline: source,
        report,
        sites: states,
        rows,
        located,
        bitrate_bps: bitrate,
        bitrate_locked: locked,
    }
}

// ---------------------------------------------------------------------------
// Laws
// ---------------------------------------------------------------------------

/// The bytes that a site's action writes can be told apart from a stock build's.
pub open spec fn distinguishable(site: SiteModel) -> bool {
    match site.action {
        ActionModel::Bytes(b) => site.stock.len() == 0 || site.stock != b,
        ActionModel::RipRelF32(bits) => !is_nan(bits as int),
        _ => true,
    }
}

proof fn lemma_prefix_is_there(data: Seq<u8>, at: int, whole: Seq<u8>, n: int)
    requires
        patch::holds_at(data, at, whole),
        0 <= n <= whole.len(),
    ensures
        patch::holds_at(data, at, whole.take(n)),
{
    assert(data.subrange(at, at + n) =~= data.subrange(at, at + whole.len()).take(n));
}

proof fn lemma_number_is_there(data: Seq<u8>, at: int, v: int)
    requires
        patch::holds_at(data, at, bytes::le32(v)),
        0 <= v < 0x1_0000_0000,
    ensures
        bytes::u32_at(data, at) == Some(v),
{
    let there = data.subrange(at, at + 4);
    assert(there == bytes::le32(v));
    assert(there[0] == data[at] && there[1] == data[at + 1] && there[2] == data[at + 2]
        && there[3] == data[at + 3]);
    bytes::law_le32_reads_back(v);
}

/// What this tool writes at a site, it reads back as applied. A default bitrate
/// that happens to be the stock one is the exception: it cannot be told from an
/// untouched file.
pub proof fn law_written_sites_read_as_applied(
    data: Seq<u8>,
    site: SiteModel,
    cfg: ConfigModel,
    off: int,
)
    requires
        distinguishable(site),
        0 <= cfg.bitrate_kbps && cfg.bitrate_kbps * 1000 <= u32::MAX,
        patch::action_place(site.action, data, off) matches Some(place) && patch::holds_at(
            data,
            place,
            patch::action_bytes(site.action, cfg),
        ),
        site.action is BitrateImm32 ==> !looks_stock(data, site, off),
    ensures
        reading(data, site, off) is Applied,
{
    let written = patch::action_bytes(site.action, cfg);
    match site.action {
        ActionModel::BitrateImm32 => {
            lemma_number_is_there(data, off, cfg.bitrate_kbps * 1000);
        },
        ActionModel::BitrateSetter | ActionModel::CtlArg(_) => {
            lemma_prefix_is_there(data, off, written, 2);
            assert(written.take(2) =~= seq![0x55u8, 0xBAu8]);
        },
        ActionModel::ShellcodeHpCutoff => {
            shellcode::law_markers_are_a_prefix_of_the_code_they_identify(cfg.gain);
            lemma_prefix_is_there(data, off, written, 20);
            assert(marker_of(site.action).len() == 20);
        },
        ActionModel::ShellcodeDcReject => {
            shellcode::law_markers_are_a_prefix_of_the_code_they_identify(cfg.gain);
            lemma_prefix_is_there(data, off, written, 20);
            assert(marker_of(site.action).len() == 20);
        },
        ActionModel::RipRelF32(bits) => {
            lemma_number_is_there(data, patch::rip_place(data, off)->0, bits as int);
        },
        _ => {},
    }
}

/// A site that declares bytes is read as stock only where it holds some of them,
/// so a signature that landed somewhere unintended is not taken for an untouched
/// build.
pub proof fn law_stock_means_declared(data: Seq<u8>, site: SiteModel, off: int)
    requires
        site.stock.len() > 0 || site.expect_orig.len() > 0,
        reading(data, site, off) is Stock,
        !(site.action matches ActionModel::Bytes(b) && site.stock == b),
    ensures
        patch::action_place(site.action, data, off) matches Some(place) && looks_stock(
            data,
            site,
            place,
        ),
{
}

/// Every site of the catalogue writes bytes that can be told from stock ones.
pub proof fn law_catalogue_writes_are_distinguishable()
    ensures
        forall|i: int|
            0 <= i < sites::catalogue().len() ==> distinguishable(#[trigger] sites::catalogue()[i]),
{
    reveal(sites::site_model);
    assert forall|i: int| 0 <= i < sites::catalogue().len() implies distinguishable(
        #[trigger] sites::catalogue()[i],
    ) by {
        let site = sites::catalogue()[i];
        if let ActionModel::Bytes(b) = site.action {
            assert(site.stock.len() == 0 || site.stock[0] != b[0]);
        }
    }
}

/// The bitrate that a lock was written with reads back from it.
pub proof fn law_locked_bitrate_reads_back(data: Seq<u8>, kbps: int, off: int)
    requires
        0 <= kbps && kbps * 1000 < 0x8000_0000,
        patch::holds_at(data, off, patch::pinned_argument(kbps * 1000)),
    ensures
        carried(data, ActionModel::BitrateSetter, off) == Some(kbps * 1000),
{
    let written = patch::pinned_argument(kbps * 1000);
    lemma_prefix_is_there(data, off, written, 2);
    assert(written.take(2) =~= seq![0x55u8, 0xBAu8]);
    assert(data.subrange(off + 2, off + 6) =~= data.subrange(off, off + 6).skip(2));
    assert(written.skip(2) =~= bytes::le32(kbps * 1000));
    lemma_number_is_there(data, off + 2, kbps * 1000);
}

/// The default bitrate that was written reads back.
pub proof fn law_default_bitrate_reads_back(data: Seq<u8>, kbps: int, off: int)
    requires
        0 <= kbps && kbps * 1000 <= u32::MAX,
        patch::holds_at(data, off, bytes::le32(kbps * 1000)),
    ensures
        carried(data, ActionModel::BitrateImm32, off) == Some(kbps * 1000),
{
    lemma_number_is_there(data, off, kbps * 1000);
}

/// A patched file has the length of its backup, so the backup is always usable to
/// read it with.
pub proof fn law_a_backup_reads_the_file_patched_from_it(
    stock: Seq<u8>,
    edits: Seq<patch::EditModel>,
)
    ensures
        usable(patch::applied(edits, stock), Some(stock)),
        inspection_of(patch::applied(edits, stock), Some(stock)).report == report_of(stock),
{
    patch::law_patching_keeps_the_length(edits, stock, edits.len() as int);
}

/// The rate that a stock build's encoder starts from, in kbps.
pub const STOCK_BITRATE_KBPS: u32 = 32;

/// A default bitrate other than the stock one is not taken for it.
proof fn lemma_default_bitrate_shows(data: Seq<u8>, i: int, kbps: int, off: int)
    requires
        0 <= i < sites::catalogue().len(),
        sites::catalogue()[i].action is BitrateImm32,
        0 <= kbps && kbps * 1000 <= u32::MAX,
        kbps != STOCK_BITRATE_KBPS,
        patch::holds_at(data, off, bytes::le32(kbps * 1000)),
    ensures
        !looks_stock(data, sites::catalogue()[i], off),
{
    reveal(sites::site_model);
    let site = sites::catalogue()[i];
    assert(site.expect_orig.len() == 0);
    assert(site.stock =~= bytes::le32(32000));
    if patch::holds_at(data, off, site.stock) {
        lemma_number_is_there(data, off, 32000);
        lemma_number_is_there(data, off, kbps * 1000);
    }
}

/// A name that stands once in a list of readings is looked up where it stands.
proof fn lemma_state_at(list: Seq<(Seq<char>, SiteState)>, i: int)
    requires
        0 <= i < list.len(),
        forall|k: int| i < k < list.len() ==> (#[trigger] list[k]).0 != list[i].0,
    ensures
        state_named(list, list[i].0) == list[i].1,
    decreases list.len(),
{
    if i < list.len() - 1 {
        assert(list[list.len() - 1].0 != list[i].0);
        let shorter = list.drop_last();
        assert(shorter[i] == list[i]);
        assert forall|k: int| i < k < shorter.len() implies (#[trigger] shorter[k]).0
            != shorter[i].0 by {
            assert(list[k].0 != list[i].0);
        }
        lemma_state_at(shorter, i);
    }
}

/// A patch reads back: when a stock file is patched as planned, and the edits lie
/// inside it and do not overlap, then inspecting the patched file against the
/// stock one reports every site of a selected group that was found as applied.
///
/// The default bitrate at its stock value cannot be told from an untouched file,
/// and a RIP-relative constant is found again only where its operand is intact.
pub proof fn law_a_patch_reads_back(stock: Seq<u8>, cfg: ConfigModel, i: int)
    requires
        0 <= i < sites::catalogue().len(),
        0 <= cfg.bitrate_kbps && cfg.bitrate_kbps * 1000 <= u32::MAX,
        sites::catalogue()[i].action is BitrateImm32 ==> cfg.bitrate_kbps != STOCK_BITRATE_KBPS,
        patch::in_range(
            patch::plan_for(report_of(stock), cfg, stock),
            stock.len() as int,
        ),
        patch::disjoint(patch::plan_for(report_of(stock), cfg, stock)),
        cfg.groups.contains(sites::catalogue()[i].group),
        resolve::found(report_of(stock), sites::catalogue()[i].name) matches Some(r) && forall|
            k: int,
        |
            0 <= k < r.offsets.len() && sites::catalogue()[i].action is RipRelF32 ==> {
                let off = #[trigger] r.offsets[k];
                let patched = patch::applied(
                    patch::plan_for(report_of(stock), cfg, stock),
                    stock,
                );
                &&& patch::rip_place(stock, off) is Some
                &&& patch::rip_place(patched, off) == patch::rip_place(stock, off)
            },
    ensures
        ({
            let patched = patch::applied(patch::plan_for(report_of(stock), cfg, stock), stock);
            state_named(
                inspection_of(patched, Some(stock)).sites,
                sites::catalogue()[i].name,
            ) is Applied
        }),
{
    let site = sites::catalogue()[i];
    let report = report_of(stock);
    let plan = patch::plan_for(report, cfg, stock);
    let patched = patch::applied(plan, stock);
    let r = resolve::found(report, site.name)->0;
    assert forall|k: int| 0 <= k < r.offsets.len() implies reading(
        patched,
        site,
        #[trigger] r.offsets[k],
    ) is Applied by {
        let off = r.offsets[k];
        let place = patch::action_place(site.action, stock, off)->0;
        patch::law_selected_sites_are_planned(report, cfg, stock, i, k);
        let edit = patch::edit_for(site, cfg, place);
        let j = choose|j: int| 0 <= j < plan.len() && plan[j] == edit;
        patch::lemma_edit_is_there(plan, stock, j);
        law_catalogue_writes_are_distinguishable();
        if site.action is BitrateImm32 {
            lemma_default_bitrate_shows(patched, i, cfg.bitrate_kbps, off);
        }
        law_written_sites_read_as_applied(patched, site, cfg, off);
    }
    law_a_backup_reads_the_file_patched_from_it(stock, plan);
    let states = states_of(patched, report);
    sites::law_site_names_are_unique();
    assert forall|k: int| i < k < states.len() implies (#[trigger] states[k]).0 != states[i].0 by {
        assert(sites::catalogue()[i].name != sites::catalogue()[k].name);
    }
    lemma_state_at(states, i);
}

} // verus!

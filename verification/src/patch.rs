//! Building and applying the concrete list of edits.

pub mod laws;

use crate::bytes;
use crate::bytes::{push_le32, to_le32, to_unsigned, u32le};
use crate::resolve;
use crate::resolve::{OutcomeModel, Report};
use crate::shellcode;
use crate::sig;
use crate::sig::hex;
use crate::sites;
use crate::sites::groups::default_groups;
use crate::sites::{Action, ActionModel, Site, SiteModel};
use crate::text;
use crate::text::{bytes_eq, cat2, join, list_holds, own_all, push_decimal, push_hexadecimal};
use vstd::prelude::*;
use vstd::slice::slice_subrange;

verus! {

/// The bits of the gain that leaves the signal as it is.
pub const UNITY_GAIN: u32 = 0x3F80_0000;

pub const DEFAULT_BITRATE_KBPS: u32 = 248;

pub struct Config {
    pub bitrate_kbps: u32,
    /// The bits of the factor that the injected filters apply.
    pub gain: u32,
    /// The groups whose sites are patched.
    pub groups: Vec<String>,
}

#[verifier::ext_equal]
pub struct ConfigModel {
    pub bitrate_kbps: int,
    pub gain: int,
    pub groups: Seq<Seq<char>>,
}

impl View for Config {
    type V = ConfigModel;

    open spec fn view(&self) -> ConfigModel {
        ConfigModel {
            bitrate_kbps: self.bitrate_kbps as int,
            gain: self.gain as int,
            groups: text::views(self.groups@),
        }
    }
}

impl Default for Config {
    fn default() -> (res: Self)
        ensures
            res@ == (ConfigModel {
                bitrate_kbps: DEFAULT_BITRATE_KBPS as int,
                gain: UNITY_GAIN as int,
                groups: sites::groups::defaults_below(sites::groups::GROUP_COUNT as int),
            }),
    {
        Config {
            bitrate_kbps: DEFAULT_BITRATE_KBPS,
            gain: UNITY_GAIN,
            groups: own_all(&default_groups()),
        }
    }
}

impl Config {
    /// The bitrate in bits per second fits a machine word.
    pub open spec fn wf(&self) -> bool {
        self.bitrate_kbps * 1000 <= u32::MAX
    }

    pub fn bitrate_bps(&self) -> (res: u32)
        requires
            self.wf(),
        ensures
            res == self@.bitrate_kbps * 1000,
    {
        self.bitrate_kbps * 1000
    }
}

pub struct Edit {
    pub site: &'static str,
    pub group: &'static str,
    pub what: &'static str,
    pub offset: usize,
    pub bytes: Vec<u8>,
}

#[verifier::ext_equal]
pub struct EditModel {
    pub site: Seq<char>,
    pub group: Seq<char>,
    pub what: Seq<char>,
    pub offset: int,
    pub bytes: Seq<u8>,
}

impl View for Edit {
    type V = EditModel;

    open spec fn view(&self) -> EditModel {
        EditModel {
            site: self.site@,
            group: self.group@,
            what: self.what@,
            offset: self.offset as int,
            bytes: self.bytes@,
        }
    }
}

pub struct Plan {
    pub edits: Vec<Edit>,
}

pub open spec fn edit_views(edits: Seq<Edit>) -> Seq<EditModel> {
    edits.map_values(|e: Edit| e@)
}

impl View for Plan {
    type V = Seq<EditModel>;

    open spec fn view(&self) -> Seq<EditModel> {
        edit_views(self.edits@)
    }
}

// ---------------------------------------------------------------------------
// What is written where
// ---------------------------------------------------------------------------

/// `push rbp ; mov edx, <value>`
pub open spec fn pinned_argument(value: int) -> Seq<u8> {
    seq![0x55u8, 0xBAu8] + bytes::le32(value)
}

/// The bytes that a site's action writes.
pub open spec fn action_bytes(action: ActionModel, cfg: ConfigModel) -> Seq<u8> {
    match action {
        ActionModel::Bytes(b) => b,
        ActionModel::BitrateImm32 => bytes::le32(cfg.bitrate_kbps * 1000),
        ActionModel::BitrateSetter => pinned_argument(cfg.bitrate_kbps * 1000),
        ActionModel::CtlArg(value) => pinned_argument(bytes::unsigned(value as int)),
        ActionModel::ShellcodeHpCutoff => shellcode::hp_cutoff_code(cfg.gain),
        ActionModel::ShellcodeDcReject => shellcode::dc_reject_code(cfg.gain),
        ActionModel::RipRelF32(bits) => bytes::le32(bits as int),
    }
}

/// Where a RIP-relative operand at `off` points: past its four bytes by the
/// signed displacement that they hold.
pub open spec fn rip_place(data: Seq<u8>, off: int) -> Option<int> {
    match bytes::u32_at(data, off) {
        None => None,
        Some(disp) => {
            let target = off + 4 + bytes::signed(disp);
            if 0 <= target <= usize::MAX {
                Some(target)
            } else {
                None
            }
        },
    }
}

/// Where a site's action writes when the site is at `off`.
pub open spec fn action_place(action: ActionModel, data: Seq<u8>, off: int) -> Option<int> {
    if action is RipRelF32 {
        rip_place(data, off)
    } else {
        Some(off)
    }
}

/// The edits for the first `n` places that a site was found at.
pub open spec fn site_edits(
    site: SiteModel,
    offsets: Seq<int>,
    cfg: ConfigModel,
    data: Seq<u8>,
    n: int,
) -> Seq<EditModel>
    decreases n,
{
    if n <= 0 {
        seq![]
    } else {
        let before = site_edits(site, offsets, cfg, data, n - 1);
        match action_place(site.action, data, offsets[n - 1]) {
            Some(offset) => before.push(
                EditModel {
                    site: site.name,
                    group: site.group,
                    what: site.what,
                    offset,
                    bytes: action_bytes(site.action, cfg),
                },
            ),
            None => before,
        }
    }
}

/// The edits that one site calls for: those of a selected group, where it was
/// found.
pub open spec fn edits_of_site(
    site: SiteModel,
    report: Seq<(Seq<char>, OutcomeModel)>,
    cfg: ConfigModel,
    data: Seq<u8>,
) -> Seq<EditModel> {
    if !cfg.groups.contains(site.group) {
        seq![]
    } else {
        match resolve::found(report, site.name) {
            Some(r) => site_edits(site, r.offsets, cfg, data, r.offsets.len() as int),
            None => seq![],
        }
    }
}

/// The edits of the first `n` sites of a catalogue.
pub open spec fn edits_below(
    cat: Seq<SiteModel>,
    report: Seq<(Seq<char>, OutcomeModel)>,
    cfg: ConfigModel,
    data: Seq<u8>,
    n: int,
) -> Seq<EditModel>
    decreases n,
{
    if n <= 0 {
        seq![]
    } else {
        edits_below(cat, report, cfg, data, n - 1) + edits_of_site(cat[n - 1], report, cfg, data)
    }
}

/// The whole plan for a module.
pub open spec fn plan_for(
    report: Seq<(Seq<char>, OutcomeModel)>,
    cfg: ConfigModel,
    data: Seq<u8>,
) -> Seq<EditModel> {
    edits_below(sites::catalogue(), report, cfg, data, sites::catalogue().len() as int)
}

/// How many bytes the first `n` edits write.
pub open spec fn bytes_below(edits: Seq<EditModel>, n: int) -> int
    decreases n,
{
    if n <= 0 {
        0
    } else {
        bytes_below(edits, n - 1) + edits[n - 1].bytes.len()
    }
}

impl Plan {
    pub fn total_bytes(&self) -> (res: usize)
        requires
            bytes_below(self@, self@.len() as int) <= usize::MAX,
        ensures
            res == bytes_below(self@, self@.len() as int),
    {
        let mut total: usize = 0;
        let mut i: usize = 0;
        while i < self.edits.len()
            invariant
                i <= self.edits@.len(),
                total == bytes_below(self@, i as int),
                bytes_below(self@, self@.len() as int) <= usize::MAX,
            decreases self.edits@.len() - i,
        {
            proof {
                lemma_bytes_below_monotone(self@, i + 1, self@.len() as int);
            }
            assert(self@[i as int].bytes == self.edits@[i as int].bytes@);
            total = total + self.edits[i].bytes.len();
            i = i + 1;
        }
        total
    }
}

impl Plan {
    /// How many bytes the plan writes, however many that is.
    pub fn wide_total(&self) -> (res: u128)
        ensures
            res == bytes_below(self@, self@.len() as int),
    {
        let mut total: u128 = 0;
        let mut i: usize = 0;
        while i < self.edits.len()
            invariant
                i <= self.edits@.len(),
                total == bytes_below(self@, i as int),
                total <= i * 0xFFFF_FFFF_FFFF_FFFF,
            decreases self.edits@.len() - i,
        {
            assert(self@[i as int].bytes == self.edits@[i as int].bytes@);
            let n: usize = self.edits[i].bytes.len();
            assert(i * 0xFFFF_FFFF_FFFF_FFFF + n <= (i + 1) * 0xFFFF_FFFF_FFFF_FFFF);
            total = total + n as u128;
            i = i + 1;
        }
        total
    }
}

proof fn lemma_bytes_below_monotone(edits: Seq<EditModel>, n: int, m: int)
    requires
        n <= m,
    ensures
        bytes_below(edits, n) <= bytes_below(edits, m),
    decreases m - n,
{
    if n < m {
        lemma_bytes_below_monotone(edits, n, m - 1);
    }
}

fn copy_bytes(b: &[u8]) -> (res: Vec<u8>)
    ensures
        res@ == b@,
{
    let mut out: Vec<u8> = Vec::new();
    let mut i: usize = 0;
    while i < b.len()
        invariant
            i <= b@.len(),
            out@ == b@.take(i as int),
        decreases b@.len() - i,
    {
        out.push(b[i]);
        i = i + 1;
        assert(out@ =~= b@.take(i as int));
    }
    assert(b@.take(i as int) =~= b@);
    out
}

fn pin_argument(value: u32) -> (res: Vec<u8>)
    ensures
        res@ == pinned_argument(value as int),
{
    // The original prologue is `push rbp; mov rbp,rsp; mov edx,esi`, where the
    // frame pointer is never used. Six bytes in, six bytes out, and every
    // caller's requested value is discarded in favour of this one.
    let mut out: Vec<u8> = vec![0x55, 0xBA];
    push_le32(&mut out, value);
    out
}

fn bytes_for(action: &Action, cfg: &Config) -> (res: Vec<u8>)
    requires
        cfg.wf(),
    ensures
        res@ == action_bytes(action@, cfg@),
{
    match *action {
        Action::Bytes(b) => copy_bytes(b),
        Action::BitrateImm32 => to_le32(cfg.bitrate_bps()),
        Action::BitrateSetter => pin_argument(cfg.bitrate_bps()),
        Action::CtlArg(value) => pin_argument(to_unsigned(value)),
        Action::ShellcodeHpCutoff => shellcode::hp_cutoff(cfg.gain),
        Action::ShellcodeDcReject => shellcode::dc_reject(cfg.gain),
        Action::RipRelF32(bits) => to_le32(bits),
    }
}

/// Follow the RIP-relative operand whose disp32 is at `off`.
pub fn rip_target(data: &[u8], off: usize) -> (res: Option<usize>)
    ensures
        res is Some == rip_place(data@, off as int) is Some,
        res matches Some(t) ==> rip_place(data@, off as int) == Some(t as int),
{
    match u32le(data, off as u128) {
        None => None,
        Some(disp) => {
            let target: i128 = off as i128 + 4 + bytes::to_signed(disp) as i128;
            if target >= 0 && target <= usize::MAX as i128 {
                Some(target as usize)
            } else {
                None
            }
        },
    }
}

fn push_site_edits(
    edits: &mut Vec<Edit>,
    site: &'static Site,
    offsets: &Vec<usize>,
    cfg: &Config,
    data: &[u8],
)
    requires
        cfg.wf(),
    ensures
        edit_views(final(edits)@) == edit_views(old(edits)@) + site_edits(
            site@,
            sig::ints(offsets@),
            cfg@,
            data@,
            offsets@.len() as int,
        ),
{
    let ghost before = edit_views(edits@);
    let ghost places = sig::ints(offsets@);
    let mut i: usize = 0;
    assert(before + site_edits(site@, places, cfg@, data@, 0) =~= before);
    while i < offsets.len()
        invariant
            i <= offsets@.len(),
            cfg.wf(),
            places == sig::ints(offsets@),
            edit_views(edits@) == before + site_edits(site@, places, cfg@, data@, i as int),
        decreases offsets@.len() - i,
    {
        let off: usize = offsets[i];
        assert(places[i as int] == off);
        let target: Option<usize> = match site.action {
            Action::RipRelF32(_) => rip_target(data, off),
            _ => Some(off),
        };
        let ghost prefix = site_edits(site@, places, cfg@, data@, i as int);
        if let Some(offset) = target {
            let edit = Edit {
                site: site.name,
                group: site.group,
                what: site.what,
                offset,
                bytes: bytes_for(&site.action, cfg),
            };
            assert(edit_views(edits@.push(edit)) =~= edit_views(edits@).push(edit@));
            assert(edit_views(edits@).push(edit@) =~= before + prefix.push(edit@));
            edits.push(edit);
        }
        i = i + 1;
    }
}

/// Turn resolved offsets into the bytes that will be written.
pub fn build(report: &Report, cfg: &Config, data: &[u8]) -> (res: Plan)
    requires
        report.wf(),
        cfg.wf(),
    ensures
        res@ == plan_for(report@, cfg@, data@),
{
    let list = sites::sites();
    let ghost cat = sites::catalogue();
    let mut edits: Vec<Edit> = Vec::new();
    let mut i: usize = 0;
    assert(edit_views(edits@) =~= edits_below(cat, report@, cfg@, data@, 0));
    while i < list.len()
        invariant
            i <= list@.len(),
            report.wf(),
            cfg.wf(),
            cat == sites::catalogue(),
            sites::models(list@) == cat,
            edit_views(edits@) == edits_below(cat, report@, cfg@, data@, i as int),
        decreases list@.len() - i,
    {
        let site: &'static Site = list[i];
        assert(cat[i as int] == sites::models(list@)[i as int]);
        assert(cat[i as int] == site@);
        let ghost before = edit_views(edits@);
        assert(before + Seq::<EditModel>::empty() =~= before);
        if list_holds(&cfg.groups, site.group) {
            if let Some(resolved) = report.resolved(site.name) {
                push_site_edits(&mut edits, site, &resolved.offsets, cfg, data);
            }
        }
        i = i + 1;
    }
    assert(list@.len() == cat.len()) by {
        assert(sites::models(list@).len() == cat.len());
    }
    Plan { edits }
}

// ---------------------------------------------------------------------------
// Checking before writing
// ---------------------------------------------------------------------------

pub enum CheckError {
    OutOfRange { site: &'static str, offset: usize, len: usize },
    UnexpectedBytes { site: &'static str, offset: usize, found: String, expected: Vec<String> },
}

#[verifier::ext_equal]
pub enum CheckErrorModel {
    OutOfRange { site: Seq<char>, offset: int, len: int },
    UnexpectedBytes { site: Seq<char>, offset: int, found: Seq<char>, expected: Seq<Seq<char>> },
}

impl View for CheckError {
    type V = CheckErrorModel;

    open spec fn view(&self) -> CheckErrorModel {
        match *self {
            CheckError::OutOfRange { site, offset, len } => CheckErrorModel::OutOfRange {
                site: site@,
                offset: offset as int,
                len: len as int,
            },
            CheckError::UnexpectedBytes { site, offset, found, expected } =>
                CheckErrorModel::UnexpectedBytes {
                site: site@,
                offset: offset as int,
                found: found@,
                expected: text::views(expected@),
            },
        }
    }
}

pub open spec fn error_views(errs: Seq<CheckError>) -> Seq<CheckErrorModel> {
    errs.map_values(|e: CheckError| e@)
}

/// A refusal in words.
pub open spec fn error_text(e: CheckErrorModel) -> Seq<char> {
    match e {
        CheckErrorModel::OutOfRange { site, offset, len } => site + ": edit at 0x"@
            + text::hexadecimal(offset as nat) + " (+"@ + text::decimal(len as nat)
            + " bytes) runs past the end of the file"@,
        CheckErrorModel::UnexpectedBytes { site, offset, found, expected } => site + ": 0x"@
            + text::hexadecimal(offset as nat) + " holds "@ + found + ", expected one of ["@
            + text::joined(expected, " | "@) + "]"@,
    }
}

impl CheckError {
    /// The refusal in words.
    pub fn to_text(&self) -> (res: String)
        ensures
            res@ == error_text(self@),
    {
        match self {
            CheckError::OutOfRange { site, offset, len } => {
                let mut out = cat2(site, ": edit at 0x");
                push_hexadecimal(&mut out, *offset as u64);
                out.append(" (+");
                push_decimal(&mut out, *len as u64);
                out.append(" bytes) runs past the end of the file");
                out
            },
            CheckError::UnexpectedBytes { site, offset, found, expected } => {
                let mut out = cat2(site, ": 0x");
                push_hexadecimal(&mut out, *offset as u64);
                out.append(" holds ");
                out.append(found.as_str());
                out.append(", expected one of [");
                out.append(join(expected, " | ").as_str());
                out.append("]");
                out
            },
        }
    }
}

/// The bytes at `at` are `b`.
pub open spec fn holds_at(data: Seq<u8>, at: int, b: Seq<u8>) -> bool {
    0 <= at && at + b.len() <= data.len() && data.subrange(at, at + b.len()) == b
}

/// One of `allowed` is at `at`.
pub open spec fn holds_one_of(data: Seq<u8>, at: int, allowed: Seq<Seq<u8>>) -> bool {
    exists|k: int| 0 <= k < allowed.len() && holds_at(data, at, #[trigger] allowed[k])
}

/// The length of the longest of the first `n`.
pub open spec fn longest_below(list: Seq<Seq<u8>>, n: int) -> int
    decreases n,
{
    if n <= 0 {
        0
    } else if list[n - 1].len() > longest_below(list, n - 1) {
        list[n - 1].len() as int
    } else {
        longest_below(list, n - 1)
    }
}

/// How many bytes are shown where none of `allowed` was found, with `room` bytes
/// left in the file.
pub open spec fn shown_width(allowed: Seq<Seq<u8>>, room: int) -> int {
    let longest = longest_below(allowed, allowed.len() as int);
    if longest < room {
        longest
    } else {
        room
    }
}

/// The site of that name in the catalogue.
pub open spec fn known_site(name: Seq<char>) -> Option<SiteModel> {
    if exists|i: int|
        0 <= i < sites::catalogue().len() && (#[trigger] sites::catalogue()[i]).name == name {
        Some(resolve::site_named(sites::catalogue(), name))
    } else {
        None
    }
}

/// What is wrong with one edit: it leaves the file, or it lands on bytes that its
/// site does not vouch for.
pub open spec fn edit_error(edit: EditModel, data: Seq<u8>) -> Option<CheckErrorModel> {
    if edit.offset + edit.bytes.len() > data.len() {
        Some(
            CheckErrorModel::OutOfRange {
                site: edit.site,
                offset: edit.offset,
                len: edit.bytes.len() as int,
            },
        )
    } else {
        match known_site(edit.site) {
            None => None,
            Some(site) => if site.expect_orig.len() == 0 || holds_one_of(
                data,
                edit.offset,
                site.expect_orig,
            ) {
                None
            } else {
                Some(
                    CheckErrorModel::UnexpectedBytes {
                        site: edit.site,
                        offset: edit.offset,
                        found: sig::hex_text(
                            data.subrange(
                                edit.offset,
                                edit.offset + shown_width(
                                    site.expect_orig,
                                    data.len() - edit.offset,
                                ),
                            ),
                        ),
                        expected: site.expect_orig.map_values(|b: Seq<u8>| sig::hex_text(b)),
                    },
                )
            },
        }
    }
}

/// What is wrong with the first `n` edits.
pub open spec fn errors_below(edits: Seq<EditModel>, data: Seq<u8>, n: int) -> Seq<CheckErrorModel>
    decreases n,
{
    if n <= 0 {
        seq![]
    } else {
        let before = errors_below(edits, data, n - 1);
        match edit_error(edits[n - 1], data) {
            Some(e) => before.push(e),
            None => before,
        }
    }
}

/// Whether the bytes at `at` are `b`.
pub fn bytes_at(data: &[u8], at: usize, b: &[u8]) -> (res: bool)
    ensures
        res == holds_at(data@, at as int, b@),
{
    if data.len() < b.len() || at > data.len() - b.len() {
        return false;
    }
    bytes_eq(slice_subrange(data, at, at + b.len()), b)
}

/// Whether one of `allowed` is at `at`.
pub fn any_at(data: &[u8], at: usize, allowed: &'static [&'static [u8]]) -> (res: bool)
    ensures
        res == holds_one_of(data@, at as int, sites::slice_views(allowed@)),
{
    let ghost list = sites::slice_views(allowed@);
    let mut k: usize = 0;
    while k < allowed.len()
        invariant
            k <= allowed@.len(),
            list == sites::slice_views(allowed@),
            forall|j: int| 0 <= j < k ==> !holds_at(data@, at as int, #[trigger] list[j]),
        decreases allowed@.len() - k,
    {
        assert(list[k as int] == allowed@[k as int]@);
        if bytes_at(data, at, allowed[k]) {
            return true;
        }
        k = k + 1;
    }
    false
}

fn longest(allowed: &'static [&'static [u8]]) -> (res: usize)
    ensures
        res == longest_below(sites::slice_views(allowed@), allowed@.len() as int),
{
    let ghost list = sites::slice_views(allowed@);
    let mut best: usize = 0;
    let mut k: usize = 0;
    while k < allowed.len()
        invariant
            k <= allowed@.len(),
            list == sites::slice_views(allowed@),
            best == longest_below(list, k as int),
        decreases allowed@.len() - k,
    {
        assert(list[k as int] == allowed@[k as int]@);
        if allowed[k].len() > best {
            best = allowed[k].len();
        }
        k = k + 1;
    }
    best
}

fn hex_all(allowed: &'static [&'static [u8]]) -> (res: Vec<String>)
    ensures
        text::views(res@) == sites::slice_views(allowed@).map_values(
            |b: Seq<u8>| sig::hex_text(b),
        ),
{
    let ghost all = sites::slice_views(allowed@).map_values(|b: Seq<u8>| sig::hex_text(b));
    let mut out: Vec<String> = Vec::new();
    let mut k: usize = 0;
    while k < allowed.len()
        invariant
            k <= allowed@.len(),
            all == sites::slice_views(allowed@).map_values(|b: Seq<u8>| sig::hex_text(b)),
            text::views(out@) == all.take(k as int),
        decreases allowed@.len() - k,
    {
        let s = hex(allowed[k]);
        assert(text::views(out@.push(s)) =~= text::views(out@).push(s@));
        assert(all.take(k + 1) =~= all.take(k as int).push(all[k as int]));
        out.push(s);
        k = k + 1;
    }
    assert(all.take(k as int) =~= all);
    out
}

/// A site that the catalogue lookup gave is the one of that name.
pub proof fn lemma_known_site(site: SiteModel, name: Seq<char>)
    requires
        sites::catalogue().contains(site),
        site.name == name,
    ensures
        known_site(name) == Some(site),
{
    let cat = sites::catalogue();
    sites::law_site_names_are_unique();
    let i = choose|i: int| 0 <= i < cat.len() && cat[i] == site;
    assert(cat[i].name == name);
    let j = choose|j: int| 0 <= j < cat.len() && (#[trigger] cat[j]).name == name;
    if i < j {
        assert(cat[i].name != cat[j].name);
    }
    if j < i {
        assert(cat[j].name != cat[i].name);
    }
}

fn check_edit(edit: &Edit, data: &[u8]) -> (res: Option<CheckError>)
    ensures
        res is Some == edit_error(edit@, data@) is Some,
        res matches Some(e) ==> edit_error(edit@, data@) == Some(e@),
{
    if edit.bytes.len() > data.len() || edit.offset > data.len() - edit.bytes.len() {
        return Some(
            CheckError::OutOfRange {
                site: edit.site,
                offset: edit.offset,
                len: edit.bytes.len(),
            },
        );
    }
    let site: &'static Site = match sites::find(edit.site) {
        Some(s) => s,
        None => {
            return None;
        },
    };
    proof {
        lemma_known_site(site@, edit@.site);
    }
    if site.expect_orig.len() == 0 || any_at(data, edit.offset, site.expect_orig) {
        return None;
    }
    let longest: usize = longest(site.expect_orig);
    let room: usize = data.len() - edit.offset;
    let width: usize = if longest < room {
        longest
    } else {
        room
    };
    let err = CheckError::UnexpectedBytes {
        site: edit.site,
        offset: edit.offset,
        found: hex(slice_subrange(data, edit.offset, edit.offset + width)),
        expected: hex_all(site.expect_orig),
    };
    Some(err)
}

/// Confirm every edit lands inside the file and on bytes the site vouches for.
///
/// A signature can in principle match somewhere unintended in a 100 MB binary.
/// Checking the bytes actually present against what the site declares turns
/// that into a refusal instead of a corrupted voice module.
pub fn check(plan: &Plan, data: &[u8]) -> (res: Vec<CheckError>)
    ensures
        error_views(res@) == errors_below(plan@, data@, plan@.len() as int),
{
    let mut errs: Vec<CheckError> = Vec::new();
    let mut i: usize = 0;
    while i < plan.edits.len()
        invariant
            i <= plan.edits@.len(),
            error_views(errs@) == errors_below(plan@, data@, i as int),
        decreases plan.edits@.len() - i,
    {
        assert(plan@[i as int] == plan.edits@[i as int]@);
        if let Some(e) = check_edit(&plan.edits[i], data) {
            assert(error_views(errs@.push(e)) =~= error_views(errs@).push(e@));
            errs.push(e);
        }
        i = i + 1;
    }
    errs
}

// ---------------------------------------------------------------------------
// Writing, and reading back
// ---------------------------------------------------------------------------

/// `data` with `b` at `at`.
pub open spec fn written(data: Seq<u8>, at: int, b: Seq<u8>) -> Seq<u8> {
    Seq::new(
        data.len(),
        |i: int|
            if at <= i < at + b.len() {
                b[i - at]
            } else {
                data[i]
            },
    )
}

/// `data` after the first `n` edits.
pub open spec fn applied_below(edits: Seq<EditModel>, data: Seq<u8>, n: int) -> Seq<u8>
    decreases n,
{
    if n <= 0 {
        data
    } else {
        written(
            applied_below(edits, data, n - 1),
            edits[n - 1].offset,
            edits[n - 1].bytes,
        )
    }
}

/// `data` after all edits.
pub open spec fn applied(edits: Seq<EditModel>, data: Seq<u8>) -> Seq<u8> {
    applied_below(edits, data, edits.len() as int)
}

/// Every edit lies inside a file of `len` bytes.
pub open spec fn in_range(edits: Seq<EditModel>, len: int) -> bool {
    forall|k: int|
        0 <= k < edits.len() ==> 0 <= (#[trigger] edits[k]).offset && edits[k].offset
            + edits[k].bytes.len() <= len
}

fn write_edit(data: &mut [u8], at: usize, b: &Vec<u8>)
    requires
        at + b@.len() <= old(data)@.len(),
    ensures
        final(data)@ == written(old(data)@, at as int, b@),
{
    let ghost before = data@;
    let size: usize = data.len();
    let mut k: usize = 0;
    assert(data@ =~= written(before, at as int, b@.take(0)));
    while k < b.len()
        invariant
            k <= b@.len(),
            data@.len() == before.len(),
            size == before.len(),
            at + b@.len() <= before.len(),
            data@ == written(before, at as int, b@.take(k as int)),
        decreases b@.len() - k,
    {
        data[at + k] = b[k];
        k = k + 1;
        assert(data@ =~= written(before, at as int, b@.take(k as int)));
    }
    assert(b@.take(k as int) =~= b@);
}

pub fn apply(plan: &Plan, data: &mut [u8])
    requires
        in_range(plan@, old(data)@.len() as int),
    ensures
        final(data)@ == applied(plan@, old(data)@),
{
    let ghost before = data@;
    let mut i: usize = 0;
    while i < plan.edits.len()
        invariant
            i <= plan.edits@.len(),
            in_range(plan@, before.len() as int),
            data@.len() == before.len(),
            data@ == applied_below(plan@, before, i as int),
        decreases plan.edits@.len() - i,
    {
        assert(plan@[i as int] == plan.edits@[i as int]@);
        write_edit(data, plan.edits[i].offset, &plan.edits[i].bytes);
        i = i + 1;
    }
}

/// The sites among the first `n` edits whose bytes are not in the file.
pub open spec fn unwritten_below(edits: Seq<EditModel>, data: Seq<u8>, n: int) -> Seq<Seq<char>>
    decreases n,
{
    if n <= 0 {
        seq![]
    } else if holds_at(data, edits[n - 1].offset, edits[n - 1].bytes) {
        unwritten_below(edits, data, n - 1)
    } else {
        unwritten_below(edits, data, n - 1).push(edits[n - 1].site)
    }
}

/// Read back what was written. Cheap, and it catches a truncated or
/// concurrently-replaced file rather than reporting a success that did not
/// happen.
pub fn verify(plan: &Plan, data: &[u8]) -> (res: Vec<&'static str>)
    ensures
        text::str_views(res@) == unwritten_below(plan@, data@, plan@.len() as int),
{
    let mut out: Vec<&'static str> = Vec::new();
    let mut i: usize = 0;
    while i < plan.edits.len()
        invariant
            i <= plan.edits@.len(),
            text::str_views(out@) == unwritten_below(plan@, data@, i as int),
        decreases plan.edits@.len() - i,
    {
        assert(plan@[i as int] == plan.edits@[i as int]@);
        let edit = &plan.edits[i];
        if !bytes_at(data, edit.offset, edit.bytes.as_slice()) {
            assert(text::str_views(out@.push(edit.site)) =~= text::str_views(out@).push(
                edit.site@,
            ));
            out.push(edit.site);
        }
        i = i + 1;
    }
    out
}

// ---------------------------------------------------------------------------
// Telling a stock module from a patched one
// ---------------------------------------------------------------------------

#[derive(PartialEq, Eq, Clone, Copy, Structural)]
pub enum State {
    Stock,
    /// Carries this tool's injected filters.
    Stereocord,
    /// Modified, but not with the byte sequence emitted here.
    Foreign,
}

/// The state in words.
pub open spec fn state_text(state: State) -> Seq<char> {
    match state {
        State::Stock => "stock"@,
        State::Stereocord => "patched by stereocord"@,
        State::Foreign => "already patched, but not by stereocord"@,
    }
}

impl State {
    /// The state in words.
    pub fn to_text(self) -> (res: String)
        ensures
            res@ == state_text(self),
    {
        match self {
            State::Stock => "stock".to_owned(),
            State::Stereocord => "patched by stereocord".to_owned(),
            State::Foreign => "already patched, but not by stereocord".to_owned(),
        }
    }
}

/// `needle` stands somewhere in `hay`.
pub open spec fn contains_bytes(hay: Seq<u8>, needle: Seq<u8>) -> bool {
    needle.len() > 0 && exists|at: int| #[trigger] holds_at(hay, at, needle)
}

/// The file carries one of the injected filters.
pub open spec fn carries_filter(data: Seq<u8>) -> bool {
    contains_bytes(data, shellcode::marker_code(shellcode::RCX)) || contains_bytes(
        data,
        shellcode::marker_code(shellcode::RDX),
    )
}

/// At one of its places the site holds something other than its stock bytes.
pub open spec fn differs_from_stock(
    site: SiteModel,
    report: Seq<(Seq<char>, OutcomeModel)>,
    data: Seq<u8>,
) -> bool {
    &&& site.stock.len() > 0
    &&& resolve::found(report, site.name) matches Some(r) && exists|k: int|
        0 <= k < r.offsets.len() && (#[trigger] r.offsets[k]) + site.stock.len() <= data.len()
            && !holds_at(data, r.offsets[k], site.stock)
}

/// What a module is.
pub open spec fn state_of(data: Seq<u8>, report: Seq<(Seq<char>, OutcomeModel)>) -> State {
    if carries_filter(data) {
        State::Stereocord
    } else if exists|i: int|
        0 <= i < sites::catalogue().len() && differs_from_stock(
            #[trigger] sites::catalogue()[i],
            report,
            data,
        ) {
        State::Foreign
    } else {
        State::Stock
    }
}

fn contains(hay: &[u8], needle: &[u8]) -> (res: bool)
    ensures
        res == contains_bytes(hay@, needle@),
{
    if needle.len() == 0 || hay.len() < needle.len() {
        return false;
    }
    let last: usize = hay.len() - needle.len();
    let mut at: usize = 0;
    while at <= last
        invariant
            needle@.len() > 0,
            last == hay@.len() - needle@.len(),
            hay@.len() <= usize::MAX,
            at <= last + 1,
            forall|p: int| 0 <= p < at ==> !#[trigger] holds_at(hay@, p, needle@),
        decreases last + 1 - at,
    {
        if hay[at] == needle[0] && bytes_at(hay, at, needle) {
            return true;
        }
        proof {
            if hay@[at as int] != needle@[0] {
                assert(hay@.subrange(at as int, at + needle@.len())[0] == hay@[at as int]);
            }
        }
        at = at + 1;
    }
    false
}

fn site_differs(site: &'static Site, report: &Report, data: &[u8]) -> (res: bool)
    requires
        report.wf(),
    ensures
        res == differs_from_stock(site@, report@, data@),
{
    if site.stock.len() == 0 {
        return false;
    }
    let resolved = match report.resolved(site.name) {
        Some(r) => r,
        None => {
            return false;
        },
    };
    let mut k: usize = 0;
    while k < resolved.offsets.len()
        invariant
            k <= resolved.offsets@.len(),
            site@.stock.len() > 0,
            site.stock@ == site@.stock,
            resolve::found(report@, site@.name) == Some(resolved@),
            forall|j: int|
                0 <= j < k ==> !((#[trigger] resolved@.offsets[j]) + site@.stock.len()
                    <= data@.len() && !holds_at(data@, resolved@.offsets[j], site@.stock)),
        decreases resolved.offsets@.len() - k,
    {
        let off: usize = resolved.offsets[k];
        assert(resolved@.offsets[k as int] == off);
        if data.len() >= site.stock.len() && off <= data.len() - site.stock.len() && !bytes_at(
            data,
            off,
            site.stock,
        ) {
            return true;
        }
        k = k + 1;
    }
    false
}

/// Classify a module.
///
/// The injected filters are recognised directly. Beyond that, several sites
/// wildcard the very byte they patch, so they resolve on a patched binary too
/// and their current value can be compared against what a stock build holds.
/// That distinguishes "some tool has been here" from "this is a build whose
/// code has moved", which need different answers.
pub fn classify(data: &[u8], report: &Report) -> (res: State)
    requires
        report.wf(),
    ensures
        res == state_of(data@, report@),
{
    if contains(data, shellcode::hp_cutoff_marker().as_slice()) || contains(
        data,
        shellcode::dc_reject_marker().as_slice(),
    ) {
        return State::Stereocord;
    }
    let list = sites::sites();
    let ghost cat = sites::catalogue();
    let mut i: usize = 0;
    while i < list.len()
        invariant
            i <= list@.len(),
            report.wf(),
            cat == sites::catalogue(),
            sites::models(list@) == cat,
            !carries_filter(data@),
            forall|j: int|
                0 <= j < i ==> !differs_from_stock(#[trigger] cat[j], report@, data@),
        decreases list@.len() - i,
    {
        let site: &'static Site = list[i];
        assert(cat[i as int] == sites::models(list@)[i as int]);
        if site_differs(site, report, data) {
            return State::Foreign;
        }
        i = i + 1;
    }
    assert(list@.len() == cat.len()) by {
        assert(sites::models(list@).len() == cat.len());
    }
    State::Stock
}

// ---------------------------------------------------------------------------
// Laws
// ---------------------------------------------------------------------------

/// A plan that passes the check lies inside the file, and every edit of it lands
/// on bytes that its site vouches for: nothing unexpected is ever overwritten.
pub proof fn law_checked_plans_fit(edits: Seq<EditModel>, data: Seq<u8>)
    requires
        forall|k: int| 0 <= k < edits.len() ==> 0 <= (#[trigger] edits[k]).offset,
        errors_below(edits, data, edits.len() as int).len() == 0,
    ensures
        in_range(edits, data.len() as int),
        forall|k: int|
            0 <= k < edits.len() ==> (known_site((#[trigger] edits[k]).site) matches Some(site)
                ==> site.expect_orig.len() == 0 || holds_one_of(
                data,
                edits[k].offset,
                site.expect_orig,
            )),
{
    assert forall|k: int| 0 <= k < edits.len() implies edit_error(#[trigger] edits[k], data) is None by {
        lemma_no_errors(edits, data, edits.len() as int, k);
    }
    assert forall|k: int| 0 <= k < edits.len() implies 0 <= (#[trigger] edits[k]).offset && edits[k].offset
        + edits[k].bytes.len() <= data.len() by {
        assert(edit_error(edits[k], data) is None);
    }
    assert forall|k: int| 0 <= k < edits.len() implies (known_site(
        (#[trigger] edits[k]).site,
    ) matches Some(site) ==> site.expect_orig.len() == 0 || holds_one_of(
        data,
        edits[k].offset,
        site.expect_orig,
    )) by {
        assert(edit_error(edits[k], data) is None);
    }
}

proof fn lemma_no_errors(edits: Seq<EditModel>, data: Seq<u8>, n: int, k: int)
    requires
        0 <= k < n <= edits.len(),
        errors_below(edits, data, n).len() == 0,
    ensures
        edit_error(edits[k], data) is None,
    decreases n,
{
    if k < n - 1 {
        lemma_no_errors(edits, data, n - 1, k);
    }
}

/// Patching never changes the length of a file.
pub proof fn law_patching_keeps_the_length(edits: Seq<EditModel>, data: Seq<u8>, n: int)
    ensures
        applied_below(edits, data, n).len() == data.len(),
    decreases n,
{
    if n > 0 {
        law_patching_keeps_the_length(edits, data, n - 1);
    }
}

/// Edit `k` covers the byte at `i`.
pub open spec fn covers(edits: Seq<EditModel>, k: int, i: int) -> bool {
    0 <= k < edits.len() && edits[k].offset <= i < edits[k].offset + edits[k].bytes.len()
}

/// A byte that no edit covers stays as it was.
pub proof fn law_bytes_outside_the_edits_are_untouched(
    edits: Seq<EditModel>,
    data: Seq<u8>,
    i: int,
)
    requires
        0 <= i < data.len(),
        forall|k: int| !#[trigger] covers(edits, k, i),
    ensures
        applied(edits, data)[i] == data[i],
{
    lemma_untouched(edits, data, 0, edits.len() as int, i);
}

proof fn lemma_untouched(edits: Seq<EditModel>, data: Seq<u8>, from: int, n: int, i: int)
    requires
        0 <= i < data.len(),
        0 <= from <= n <= edits.len(),
        forall|k: int| from <= k < n ==> !#[trigger] covers(edits, k, i),
    ensures
        applied_below(edits, data, n)[i] == applied_below(edits, data, from)[i],
    decreases n,
{
    if from < n {
        lemma_untouched(edits, data, from, n - 1, i);
        law_patching_keeps_the_length(edits, data, n - 1);
        assert(!covers(edits, n - 1, i));
    }
}

/// No two edits cover the same byte.
pub open spec fn disjoint(edits: Seq<EditModel>) -> bool {
    forall|j: int, k: int, i: int|
        #[trigger] covers(edits, j, i) && #[trigger] covers(edits, k, i) ==> j == k
}

/// After edits that do not overlap, the bytes of each are in the file.
pub proof fn lemma_edit_is_there(edits: Seq<EditModel>, data: Seq<u8>, k: int)
    requires
        in_range(edits, data.len() as int),
        disjoint(edits),
        0 <= k < edits.len(),
    ensures
        holds_at(applied(edits, data), edits[k].offset, edits[k].bytes),
{
    let out = applied(edits, data);
    let at = edits[k].offset;
    let b = edits[k].bytes;
    law_patching_keeps_the_length(edits, data, edits.len() as int);
    let there = out.subrange(at, at + b.len());
    assert forall|m: int| 0 <= m < b.len() implies #[trigger] there[m] == b[m] by {
        let i = at + m;
        assert(there[m] == out[i]);
        assert(covers(edits, k, i));
        assert forall|j: int| k + 1 <= j < edits.len() implies !#[trigger] covers(edits, j, i) by {
            assert(covers(edits, k, i));
        }
        lemma_untouched(edits, data, k + 1, edits.len() as int, i);
        law_patching_keeps_the_length(edits, data, k);
    }
    assert(there =~= b);
}

/// What was written reads back: after a plan whose edits do not overlap, the
/// verification finds nothing amiss.
pub proof fn law_written_edits_verify(edits: Seq<EditModel>, data: Seq<u8>)
    requires
        in_range(edits, data.len() as int),
        disjoint(edits),
    ensures
        unwritten_below(edits, applied(edits, data), edits.len() as int).len() == 0,
{
    lemma_all_written(edits, data, edits.len() as int);
}

proof fn lemma_all_written(edits: Seq<EditModel>, data: Seq<u8>, n: int)
    requires
        in_range(edits, data.len() as int),
        disjoint(edits),
        n <= edits.len(),
    ensures
        unwritten_below(edits, applied(edits, data), n).len() == 0,
    decreases n,
{
    if n > 0 {
        lemma_all_written(edits, data, n - 1);
        lemma_edit_is_there(edits, data, n - 1);
    }
}

/// The verification reports nothing only if every edit is in the file.
pub proof fn law_verified_means_written(edits: Seq<EditModel>, data: Seq<u8>, k: int)
    requires
        unwritten_below(edits, data, edits.len() as int).len() == 0,
        0 <= k < edits.len(),
    ensures
        holds_at(data, edits[k].offset, edits[k].bytes),
{
    lemma_written_below(edits, data, edits.len() as int, k);
}

proof fn lemma_written_below(edits: Seq<EditModel>, data: Seq<u8>, n: int, k: int)
    requires
        unwritten_below(edits, data, n).len() == 0,
        0 <= k < n <= edits.len(),
    ensures
        holds_at(data, edits[k].offset, edits[k].bytes),
    decreases n,
{
    if k < n - 1 {
        lemma_written_below(edits, data, n - 1, k);
    }
}

/// Patching twice is patching once.
pub proof fn law_patching_twice_is_patching_once(edits: Seq<EditModel>, data: Seq<u8>)
    ensures
        applied(edits, applied(edits, data)) == applied(edits, data),
{
    let once = applied(edits, data);
    let twice = applied(edits, once);
    law_patching_keeps_the_length(edits, data, edits.len() as int);
    law_patching_keeps_the_length(edits, once, edits.len() as int);
    assert forall|i: int| 0 <= i < data.len() implies once[i] == twice[i] by {
        lemma_same_after(edits, data, once, edits.len() as int, i);
        if forall|k: int| !#[trigger] covers(edits, k, i) {
            law_bytes_outside_the_edits_are_untouched(edits, once, i);
        }
    }
    assert(once =~= twice);
}

/// A byte that some edit covers ends up the same whatever was there before.
proof fn lemma_same_after(edits: Seq<EditModel>, a: Seq<u8>, b: Seq<u8>, n: int, i: int)
    requires
        a.len() == b.len(),
        0 <= i < a.len(),
        0 <= n <= edits.len(),
    ensures
        (exists|k: int| 0 <= k < n && #[trigger] covers(edits, k, i)) ==> applied_below(
            edits,
            a,
            n,
        )[i] == applied_below(edits, b, n)[i],
    decreases n,
{
    if n > 0 {
        lemma_same_after(edits, a, b, n - 1, i);
        law_patching_keeps_the_length(edits, a, n - 1);
        law_patching_keeps_the_length(edits, b, n - 1);
        if covers(edits, n - 1, i) {
        } else {
            if exists|k: int| 0 <= k < n && #[trigger] covers(edits, k, i) {
                let k = choose|k: int| 0 <= k < n && #[trigger] covers(edits, k, i);
                assert(k < n - 1);
            }
        }
    }
}

/// A module patched with either injected filter is recognised as this tool's own
/// work, whatever the gain and whatever else was resolved in it.
pub proof fn law_injected_filters_are_recognised(
    edits: Seq<EditModel>,
    data: Seq<u8>,
    k: int,
    gain: int,
    report: Seq<(Seq<char>, OutcomeModel)>,
)
    requires
        in_range(edits, data.len() as int),
        disjoint(edits),
        0 <= k < edits.len(),
        edits[k].bytes == shellcode::hp_cutoff_code(gain) || edits[k].bytes
            == shellcode::dc_reject_code(gain),
    ensures
        state_of(applied(edits, data), report) == State::Stereocord,
{
    let out = applied(edits, data);
    let at = edits[k].offset;
    let code = edits[k].bytes;
    lemma_edit_is_there(edits, data, k);
    shellcode::law_markers_are_a_prefix_of_the_code_they_identify(gain);
    let marker = if code == shellcode::hp_cutoff_code(gain) {
        shellcode::marker_code(shellcode::RCX)
    } else {
        shellcode::marker_code(shellcode::RDX)
    };
    assert(code.take(marker.len() as int) == marker);
    assert(marker.len() == 20);
    assert(code.len() == shellcode::CODE_LEN);
    assert(out.subrange(at, at + marker.len()) =~= out.subrange(at, at + code.len()).take(
        marker.len() as int,
    ));
    assert(holds_at(out, at, marker));
    assert(contains_bytes(out, marker));
}

/// Only the selected groups are patched.
pub proof fn law_only_selected_groups_are_patched(
    report: Seq<(Seq<char>, OutcomeModel)>,
    cfg: ConfigModel,
    data: Seq<u8>,
)
    ensures
        forall|k: int|
            0 <= k < plan_for(report, cfg, data).len() ==> cfg.groups.contains(
                (#[trigger] plan_for(report, cfg, data)[k]).group,
            ),
{
    lemma_groups_below(
        sites::catalogue(),
        report,
        cfg,
        data,
        sites::catalogue().len() as int,
    );
}

proof fn lemma_groups_below(
    cat: Seq<SiteModel>,
    report: Seq<(Seq<char>, OutcomeModel)>,
    cfg: ConfigModel,
    data: Seq<u8>,
    n: int,
)
    ensures
        forall|k: int|
            0 <= k < edits_below(cat, report, cfg, data, n).len() ==> cfg.groups.contains(
                (#[trigger] edits_below(cat, report, cfg, data, n)[k]).group,
            ),
    decreases n,
{
    if n > 0 {
        lemma_groups_below(cat, report, cfg, data, n - 1);
        let before = edits_below(cat, report, cfg, data, n - 1);
        let mine = edits_of_site(cat[n - 1], report, cfg, data);
        let all = edits_below(cat, report, cfg, data, n);
        if let Some(r) = resolve::found(report, cat[n - 1].name) {
            lemma_site_edit_groups(cat[n - 1], r.offsets, cfg, data, r.offsets.len() as int);
        }
        assert forall|k: int| 0 <= k < all.len() implies cfg.groups.contains(
            (#[trigger] all[k]).group,
        ) by {
            if k < before.len() {
                assert(all[k] == before[k]);
            } else {
                assert(all[k] == mine[k - before.len()]);
            }
        }
    }
}

proof fn lemma_site_edit_groups(
    site: SiteModel,
    offsets: Seq<int>,
    cfg: ConfigModel,
    data: Seq<u8>,
    n: int,
)
    ensures
        forall|k: int|
            0 <= k < site_edits(site, offsets, cfg, data, n).len() ==> (#[trigger] site_edits(
                site,
                offsets,
                cfg,
                data,
                n,
            )[k]).group == site.group,
    decreases n,
{
    if n > 0 {
        lemma_site_edit_groups(site, offsets, cfg, data, n - 1);
        let before = site_edits(site, offsets, cfg, data, n - 1);
        let all = site_edits(site, offsets, cfg, data, n);
        assert forall|k: int| 0 <= k < all.len() implies (#[trigger] all[k]).group
            == site.group by {
            if k < before.len() {
                assert(all[k] == before[k]);
            }
        }
    }
}

/// A pinned argument is exactly as long as the prologue that it replaces.
pub proof fn law_pinned_arguments_fit_the_prologue(value: int)
    ensures
        pinned_argument(value).len() == sites::signatures::CTL_PROLOGUE@.len(),
{
}

/// The edit that a site calls for at `offset`.
pub open spec fn edit_for(site: SiteModel, cfg: ConfigModel, offset: int) -> EditModel {
    EditModel {
        site: site.name,
        group: site.group,
        what: site.what,
        offset,
        bytes: action_bytes(site.action, cfg),
    }
}

proof fn lemma_site_edit_is_planned(
    site: SiteModel,
    offsets: Seq<int>,
    cfg: ConfigModel,
    data: Seq<u8>,
    n: int,
    k: int,
)
    requires
        0 <= k < n,
        action_place(site.action, data, offsets[k]) is Some,
    ensures
        site_edits(site, offsets, cfg, data, n).contains(
            edit_for(site, cfg, action_place(site.action, data, offsets[k])->0),
        ),
    decreases n,
{
    let wanted = edit_for(site, cfg, action_place(site.action, data, offsets[k])->0);
    let all = site_edits(site, offsets, cfg, data, n);
    if k == n - 1 {
        assert(all[all.len() - 1] == wanted);
    } else {
        lemma_site_edit_is_planned(site, offsets, cfg, data, n - 1, k);
        let before = site_edits(site, offsets, cfg, data, n - 1);
        let j = choose|j: int| 0 <= j < before.len() && before[j] == wanted;
        assert(all[j] == wanted);
    }
}

/// Every place that a site of a selected group was found at is in the plan.
pub proof fn law_selected_sites_are_planned(
    report: Seq<(Seq<char>, OutcomeModel)>,
    cfg: ConfigModel,
    data: Seq<u8>,
    i: int,
    k: int,
)
    requires
        0 <= i < sites::catalogue().len(),
        cfg.groups.contains(sites::catalogue()[i].group),
        resolve::found(report, sites::catalogue()[i].name) matches Some(r) && 0 <= k
            < r.offsets.len() && action_place(
            sites::catalogue()[i].action,
            data,
            r.offsets[k],
        ) is Some,
    ensures
        ({
            let site = sites::catalogue()[i];
            let off = resolve::found(report, site.name)->0.offsets[k];
            plan_for(report, cfg, data).contains(
                edit_for(site, cfg, action_place(site.action, data, off)->0),
            )
        }),
{
    let cat = sites::catalogue();
    let site = cat[i];
    let r = resolve::found(report, site.name)->0;
    lemma_site_edit_is_planned(site, r.offsets, cfg, data, r.offsets.len() as int, k);
    lemma_planned_below(
        cat,
        report,
        cfg,
        data,
        cat.len() as int,
        i,
        edit_for(site, cfg, action_place(site.action, data, r.offsets[k])->0),
    );
}

proof fn lemma_planned_below(
    cat: Seq<SiteModel>,
    report: Seq<(Seq<char>, OutcomeModel)>,
    cfg: ConfigModel,
    data: Seq<u8>,
    n: int,
    i: int,
    edit: EditModel,
)
    requires
        0 <= i < n,
        edits_of_site(cat[i], report, cfg, data).contains(edit),
    ensures
        edits_below(cat, report, cfg, data, n).contains(edit),
    decreases n,
{
    let before = edits_below(cat, report, cfg, data, n - 1);
    let mine = edits_of_site(cat[n - 1], report, cfg, data);
    let all = edits_below(cat, report, cfg, data, n);
    if i == n - 1 {
        let j = choose|j: int| 0 <= j < mine.len() && mine[j] == edit;
        assert(all[before.len() + j] == edit);
    } else {
        lemma_planned_below(cat, report, cfg, data, n - 1, i, edit);
        let j = choose|j: int| 0 <= j < before.len() && before[j] == edit;
        assert(all[j] == edit);
    }
}

pub proof fn lemma_marker_bytes()
    ensures
        sites::signatures::HP_CUTOFF_MARKER@ == shellcode::marker_code(shellcode::RCX),
        sites::signatures::DC_REJECT_MARKER@ == shellcode::marker_code(shellcode::RDX),
{
    assert(0x80u8 | 1u8 == 0x81u8) by (bit_vector);
    assert(0x80u8 | 2u8 == 0x82u8) by (bit_vector);
    assert(sites::signatures::HP_CUTOFF_MARKER@ =~= shellcode::marker_code(shellcode::RCX));
    assert(sites::signatures::DC_REJECT_MARKER@ =~= shellcode::marker_code(shellcode::RDX));
}

/// A site that declares the bytes it expects declares its own patched form among
/// them, whatever it was patched with.
pub proof fn law_every_site_expects_its_patched_form(i: int, cfg: ConfigModel)
    requires
        0 <= i < sites::catalogue().len(),
        sites::catalogue()[i].expect_orig.len() > 0,
    ensures
        holds_one_of(
            action_bytes(sites::catalogue()[i].action, cfg),
            0,
            sites::catalogue()[i].expect_orig,
        ),
{
    reveal(sites::site_model);
    let site = sites::catalogue()[i];
    let written = action_bytes(site.action, cfg);
    let form = site.expect_orig[site.expect_orig.len() - 1];
    lemma_marker_bytes();
    shellcode::law_markers_are_a_prefix_of_the_code_they_identify(cfg.gain);
    match site.action {
        ActionModel::BitrateSetter | ActionModel::CtlArg(_) => {
            assert(form == sites::signatures::PINNED@);
        },
        ActionModel::ShellcodeHpCutoff => {
            assert(form == sites::signatures::HP_CUTOFF_MARKER@);
        },
        ActionModel::ShellcodeDcReject => {
            assert(form == sites::signatures::DC_REJECT_MARKER@);
        },
        _ => {},
    }
    assert(written.subrange(0, form.len() as int) =~= form);
    assert(holds_at(written, 0, form));
}

/// An edit is welcome where its site is already patched, be it with the same
/// settings or with others.
pub proof fn law_patched_sites_pass_the_check(
    edit: EditModel,
    data: Seq<u8>,
    i: int,
    cfg: ConfigModel,
)
    requires
        0 <= i < sites::catalogue().len(),
        edit.site == sites::catalogue()[i].name,
        holds_at(data, edit.offset, action_bytes(sites::catalogue()[i].action, cfg)),
        edit.offset + edit.bytes.len() <= data.len(),
    ensures
        edit_error(edit, data) is None,
{
    let site = sites::catalogue()[i];
    sites::law_site_names_are_unique();
    assert(known_site(edit.site) == Some(site)) by {
        assert(sites::catalogue()[i].name == edit.site);
        resolve::lemma_site_named(sites::catalogue(), i);
    }
    if site.expect_orig.len() > 0 {
        law_every_site_expects_its_patched_form(i, cfg);
        let written = action_bytes(site.action, cfg);
        let k = choose|k: int|
            0 <= k < site.expect_orig.len() && holds_at(written, 0, #[trigger] site.expect_orig[k]);
        let form = site.expect_orig[k];
        assert(data.subrange(edit.offset, edit.offset + form.len()) =~= data.subrange(
            edit.offset,
            edit.offset + written.len(),
        ).subrange(0, form.len() as int));
        assert(holds_at(data, edit.offset, form));
    }
}

/// A patched file passes the check of the very plan it was patched with: patching
/// it again is not refused.
pub proof fn law_patched_files_pass_the_check(
    report: Seq<(Seq<char>, OutcomeModel)>,
    cfg: ConfigModel,
    stock: Seq<u8>,
)
    requires
        in_range(plan_for(report, cfg, stock), stock.len() as int),
        disjoint(plan_for(report, cfg, stock)),
    ensures
        ({
            let plan = plan_for(report, cfg, stock);
            errors_below(plan, applied(plan, stock), plan.len() as int).len() == 0
        }),
{
    let cat = sites::catalogue();
    let plan = plan_for(report, cfg, stock);
    let patched = applied(plan, stock);
    law_patching_keeps_the_length(plan, stock, plan.len() as int);
    assert forall|k: int| 0 <= k < plan.len() implies edit_error(#[trigger] plan[k], patched) is None by {
        lemma_edits_are_of_sites(cat, report, cfg, stock, cat.len() as int, k);
        let i = choose|i: int|
            0 <= i < cat.len() && plan[k] == edit_for(#[trigger] cat[i], cfg, plan[k].offset);
        lemma_edit_is_there(plan, stock, k);
        law_patched_sites_pass_the_check(plan[k], patched, i, cfg);
    }
    lemma_none_amiss(plan, patched, plan.len() as int);
}

proof fn lemma_none_amiss(edits: Seq<EditModel>, data: Seq<u8>, n: int)
    requires
        n <= edits.len(),
        forall|k: int| 0 <= k < edits.len() ==> edit_error(#[trigger] edits[k], data) is None,
    ensures
        errors_below(edits, data, n).len() == 0,
    decreases n,
{
    if n > 0 {
        lemma_none_amiss(edits, data, n - 1);
    }
}

/// Every edit of a plan is that of a site of the catalogue.
proof fn lemma_edits_are_of_sites(
    cat: Seq<SiteModel>,
    report: Seq<(Seq<char>, OutcomeModel)>,
    cfg: ConfigModel,
    data: Seq<u8>,
    n: int,
    k: int,
)
    requires
        n <= cat.len(),
        0 <= k < edits_below(cat, report, cfg, data, n).len(),
    ensures
        ({
            let edit = edits_below(cat, report, cfg, data, n)[k];
            exists|i: int| 0 <= i < n && edit == edit_for(#[trigger] cat[i], cfg, edit.offset)
        }),
    decreases n,
{
    if n > 0 {
        let before = edits_below(cat, report, cfg, data, n - 1);
        let mine = edits_of_site(cat[n - 1], report, cfg, data);
        let edit = edits_below(cat, report, cfg, data, n)[k];
        if k < before.len() {
            lemma_edits_are_of_sites(cat, report, cfg, data, n - 1, k);
            let i = choose|i: int|
                0 <= i < n - 1 && before[k] == edit_for(#[trigger] cat[i], cfg, before[k].offset);
            assert(edit == edit_for(cat[i], cfg, edit.offset));
        } else {
            let r = resolve::found(report, cat[n - 1].name)->0;
            lemma_edits_of_one_site(
                cat[n - 1],
                r.offsets,
                cfg,
                data,
                r.offsets.len() as int,
                k - before.len(),
            );
            assert(edit == mine[k - before.len()]);
            assert(edit == edit_for(cat[n - 1], cfg, edit.offset));
        }
    }
}

proof fn lemma_edits_of_one_site(
    site: SiteModel,
    offsets: Seq<int>,
    cfg: ConfigModel,
    data: Seq<u8>,
    n: int,
    k: int,
)
    requires
        0 <= k < site_edits(site, offsets, cfg, data, n).len(),
    ensures
        ({
            let edit = site_edits(site, offsets, cfg, data, n)[k];
            edit == edit_for(site, cfg, edit.offset)
        }),
    decreases n,
{
    if n > 0 && k < site_edits(site, offsets, cfg, data, n - 1).len() {
        lemma_edits_of_one_site(site, offsets, cfg, data, n - 1, k);
    }
}

} // verus!

//! The catalogue of patch sites, and how to find each one in an arbitrary
//! build of `discord_voice.node`.
//!
//! Every site is located by scanning for the instructions around it, so the same
//! catalogue keeps working across builds and the tool patches the module the user
//! actually has. Where a code sequence was rewritten between builds a site simply
//! lists both encodings.

pub mod bitrate;
pub mod capture;
pub mod encoder;
pub mod filters;
pub mod groups;
pub mod promises;
pub mod shapes;
pub mod signatures;
pub mod stereo;

pub use crate::sites::groups::{default_groups, group, groups, Group};

use crate::sig;
use crate::sig::Pattern;
use crate::text;
use crate::text::str_eq;
use vstd::prelude::*;

verus! {

/// What a site does once located.
#[derive(Clone, Copy)]
pub enum Action {
    /// Overwrite with fixed bytes.
    Bytes(&'static [u8]),
    /// Overwrite with the little-endian encoding of the configured bitrate.
    BitrateImm32,
    /// Overwrite with `push rbp; mov edx, <bitrate>`, forcing the argument of
    /// every `opus_encoder_ctl(OPUS_SET_BITRATE)` call in the module.
    BitrateSetter,
    /// The same six-byte prologue rewrite as [`Action::BitrateSetter`], but with
    /// a constant instead of the configured bitrate. Every `WebRtcOpus_Set*`
    /// wrapper is the same shape, `push rbp; mov rbp,rsp; mov edx,esi` in front
    /// of one `opus_encoder_ctl(inst, <request>, edx)`, so pinning `edx` pins
    /// that setting for every caller in the module.
    CtlArg(i32),
    /// Overwrite with the injected filter replacement.
    ShellcodeHpCutoff,
    /// Overwrite with the injected filter replacement.
    ShellcodeDcReject,
    /// The resolved offset holds the disp32 of a RIP-relative operand; follow
    /// it and write the float with these bits at the target instead of at the
    /// offset itself.
    RipRelF32(u32),
}

/// How many matches a site expects, and how to pick if there are several.
#[derive(Clone, Copy)]
pub enum Expect {
    /// Exactly one match.
    One,
    /// Exactly `n` matches, all of which get patched. Used where the same
    /// construct is emitted at more than one call site and all of them matter.
    All(usize),
    /// Several matches are normal; keep the one that falls within `window`
    /// bytes after the (already resolved) named site. Both ambiguous sites sit
    /// inside the same function as their anchor, so proximity disambiguates
    /// them without needing a disassembler.
    NearestAfter { anchor: &'static str, window: usize },
}

/// Why a site can be legitimately absent from a build, and what covers it.
///
/// Reported instead of a bare MISSING. Without this, a build that simply does
/// not need a patch looks identical to one whose code has moved, which
/// overstates how badly the catalogue has aged.
#[derive(Clone, Copy)]
pub struct Absent {
    /// When this other site is applied, the missing one is unnecessary.
    /// `None` means the site is never needed for stereo on any build.
    pub covered_by: Option<&'static str>,
    pub note: &'static str,
}

#[derive(Clone, Copy)]
pub struct Site {
    pub name: &'static str,
    pub group: &'static str,
    pub what: &'static str,
    /// Whether stereo actually works without this site. The quality patches
    /// (bitrate, framing, CELT, filters) are worth having but a client missing
    /// them still sends two channels; the sites marked critical are the ones
    /// that decide mono versus stereo. A build that moved only non-critical
    /// code can still be patched usefully, which matters because Discord keeps
    /// shipping new builds.
    pub critical: bool,
    /// Set when absence is not a failure. See [`Absent`].
    pub absent_ok: Option<Absent>,
    pub expect: Expect,
    /// The function this site lives in, by symbol name; alternatives are tried
    /// in order. When one resolves, the patterns below are searched only inside
    /// that function, which removes almost all ambiguity. An empty list, or a
    /// stripped binary, falls back to scanning the whole file.
    pub symbols: &'static [&'static str],
    /// True when the patch goes at the function's entry point. With a symbol
    /// that needs no searching at all; the patterns then serve only as a
    /// fallback for a stripped binary.
    pub entry: bool,
    /// Alternative encodings, tried in order; the first that matches wins.
    ///
    /// Empty means symbol-only. The capture-processing bypasses use that: they
    /// replace whole function bodies that are large, heavily inlined and
    /// different in every build, so any prologue signature specific enough to
    /// be safe would also be too brittle to be worth carrying. Every build seen
    /// so far ships a full `.symtab`; on one that does not, these report
    /// MISSING and, being non-critical, the rest of the patch still applies.
    pub patterns: &'static [(&'static str, usize)],
    pub action: Action,
    /// The bytes a stock build has here, where that is unambiguous. Used to
    /// tell a stock module apart from one some tool has already patched:
    /// several sites wildcard exactly this value, so they resolve either way
    /// and can be read as sentinels. Empty where the stock value varies
    /// between builds.
    pub stock: &'static [u8],
    /// Bytes expected at the resolved offset before patching, those of a module
    /// that is already patched included. Purely a
    /// sanity check: a site that resolves but holds unexpected bytes means the
    /// signature found the wrong place, and the run is aborted rather than
    /// writing into it.
    pub expect_orig: &'static [&'static [u8]],
}

// ---------------------------------------------------------------------------
// The model of a site
// ---------------------------------------------------------------------------

#[verifier::ext_equal]
pub enum ActionModel {
    Bytes(Seq<u8>),
    BitrateImm32,
    BitrateSetter,
    CtlArg(i32),
    ShellcodeHpCutoff,
    ShellcodeDcReject,
    RipRelF32(u32),
}

#[verifier::ext_equal]
pub enum ExpectModel {
    One,
    All(int),
    NearestAfter { anchor: Seq<char>, window: int },
}

#[verifier::ext_equal]
pub struct AbsentModel {
    pub covered_by: Option<Seq<char>>,
    pub note: Seq<char>,
}

#[verifier::ext_equal]
pub struct SiteModel {
    pub name: Seq<char>,
    pub group: Seq<char>,
    pub what: Seq<char>,
    pub critical: bool,
    pub absent_ok: Option<AbsentModel>,
    pub expect: ExpectModel,
    pub symbols: Seq<Seq<char>>,
    pub entry: bool,
    pub patterns: Seq<(Seq<char>, int)>,
    pub action: ActionModel,
    pub stock: Seq<u8>,
    pub expect_orig: Seq<Seq<u8>>,
}

impl View for Action {
    type V = ActionModel;

    open spec fn view(&self) -> ActionModel {
        match *self {
            Action::Bytes(b) => ActionModel::Bytes(b@),
            Action::BitrateImm32 => ActionModel::BitrateImm32,
            Action::BitrateSetter => ActionModel::BitrateSetter,
            Action::CtlArg(v) => ActionModel::CtlArg(v),
            Action::ShellcodeHpCutoff => ActionModel::ShellcodeHpCutoff,
            Action::ShellcodeDcReject => ActionModel::ShellcodeDcReject,
            Action::RipRelF32(bits) => ActionModel::RipRelF32(bits),
        }
    }
}

impl View for Expect {
    type V = ExpectModel;

    open spec fn view(&self) -> ExpectModel {
        match *self {
            Expect::One => ExpectModel::One,
            Expect::All(n) => ExpectModel::All(n as int),
            Expect::NearestAfter { anchor, window } => ExpectModel::NearestAfter {
                anchor: anchor@,
                window: window as int,
            },
        }
    }
}

impl View for Absent {
    type V = AbsentModel;

    open spec fn view(&self) -> AbsentModel {
        AbsentModel {
            covered_by: match self.covered_by {
                Some(name) => Some(name@),
                None => None,
            },
            note: self.note@,
        }
    }
}

/// The signatures of a site with their deltas.
pub open spec fn pattern_views(patterns: Seq<(&'static str, usize)>) -> Seq<(Seq<char>, int)> {
    patterns.map_values(|p: (&'static str, usize)| (p.0@, p.1 as int))
}

/// The contents of each slice of a list.
pub open spec fn slice_views(list: Seq<&'static [u8]>) -> Seq<Seq<u8>> {
    list.map_values(|b: &'static [u8]| b@)
}

impl View for Site {
    type V = SiteModel;

    open spec fn view(&self) -> SiteModel {
        SiteModel {
            name: self.name@,
            group: self.group@,
            what: self.what@,
            critical: self.critical,
            absent_ok: match self.absent_ok {
                Some(absent) => Some(absent@),
                None => None,
            },
            expect: self.expect@,
            symbols: text::str_views(self.symbols@),
            entry: self.entry,
            patterns: pattern_views(self.patterns@),
            action: self.action@,
            stock: self.stock@,
            expect_orig: slice_views(self.expect_orig@),
        }
    }
}

/// Every signature of the site can be read, and its delta points inside it.
pub open spec fn patterns_valid(site: SiteModel) -> bool {
    forall|i: int|
        0 <= i < site.patterns.len() ==> sig::valid(
            (#[trigger] site.patterns[i]).0,
            site.patterns[i].1,
        )
}

/// Every symbol name of the site is ASCII.
pub open spec fn symbols_plain(site: SiteModel) -> bool {
    forall|k: int|
        0 <= k < site.symbols.len() ==> vstd::utf8::is_ascii_chars(#[trigger] site.symbols[k])
}

// ---------------------------------------------------------------------------
// The catalogue
// ---------------------------------------------------------------------------

pub const SITE_COUNT: usize = 37;

/// The site at one place of the catalogue.
#[verifier::opaque]
pub open spec fn site_model(i: int) -> SiteModel {
    if i == 0 {
        stereo::commit_audio_codec_stereo_check_model()
    } else if i == 1 {
        stereo::create_audio_frame_channels_model()
    } else if i == 2 {
        stereo::mono_downmix_bypass_model()
    } else if i == 3 {
        stereo::channel_downmix_entry_model()
    } else if i == 4 {
        stereo::opus_config_channels_model()
    } else if i == 5 {
        stereo::multi_channel_config_channels_model()
    } else if i == 6 {
        stereo::channel_controller_force_stereo_model()
    } else if i == 7 {
        stereo::select_sample_rate_48k_model()
    } else if i == 8 {
        bitrate::opus_config_bitrate_model()
    } else if i == 9 {
        bitrate::multi_channel_config_bitrate_model()
    } else if i == 10 {
        bitrate::web_rtc_opus_set_bit_rate_model()
    } else if i == 11 {
        bitrate::opus_config_application_model()
    } else if i == 12 {
        bitrate::opus_config_is_ok_model()
    } else if i == 13 {
        capture::gain_controller2_bypass_model()
    } else if i == 14 {
        capture::agc_pre_analysis_bypass_model()
    } else if i == 15 {
        capture::agc_digital_setup_bypass_model()
    } else if i == 16 {
        capture::mono_agc_process_bypass_model()
    } else if i == 17 {
        capture::mono_agc_clipping_bypass_model()
    } else if i == 18 {
        capture::mono_agc_update_gain_bypass_model()
    } else if i == 19 {
        capture::input_volume_analyze_bypass_model()
    } else if i == 20 {
        capture::adaptive_digital_gain_bypass_model()
    } else if i == 21 {
        capture::noise_suppressor_process_bypass_model()
    } else if i == 22 {
        capture::noise_suppressor_analyze_bypass_model()
    } else if i == 23 {
        capture::echo_canceller_bypass_model()
    } else if i == 24 {
        encoder::web_rtc_opus_packet_loss_zero_model()
    } else if i == 25 {
        encoder::web_rtc_opus_complexity_max_model()
    } else if i == 26 {
        encoder::web_rtc_opus_bandwidth_fullband_model()
    } else if i == 27 {
        encoder::web_rtc_opus_fec_off_model()
    } else if i == 28 {
        encoder::web_rtc_opus_dtx_off_model()
    } else if i == 29 {
        encoder::frame_length_pin_model()
    } else if i == 30 {
        encoder::web_rtc_opus_cbr_always_model()
    } else if i == 31 {
        filters::celt_force_model()
    } else if i == 32 {
        filters::celt_default_mode_model()
    } else if i == 33 {
        filters::spl_high_pass_entry_model()
    } else if i == 34 {
        filters::hp_cutoff_inject_model()
    } else if i == 35 {
        filters::dc_reject_coefficient_model()
    } else {
        filters::dc_reject_inject_model()
    }
}

/// Every site, in the order in which they are reported and applied.
pub open spec fn catalogue() -> Seq<SiteModel> {
    Seq::new(SITE_COUNT as nat, |i: int| site_model(i))
}

/// The models of a list of sites.
pub open spec fn models(list: Seq<&'static Site>) -> Seq<SiteModel> {
    list.map_values(|s: &'static Site| s@)
}

fn site_at(i: usize) -> (res: &'static Site)
    requires
        i < SITE_COUNT,
    ensures
        res@ == site_model(i as int),
{
    proof {
        reveal(site_model);
    }
    if i == 0 {
        stereo::commit_audio_codec_stereo_check()
    } else if i == 1 {
        stereo::create_audio_frame_channels()
    } else if i == 2 {
        stereo::mono_downmix_bypass()
    } else if i == 3 {
        stereo::channel_downmix_entry()
    } else if i == 4 {
        stereo::opus_config_channels()
    } else if i == 5 {
        stereo::multi_channel_config_channels()
    } else if i == 6 {
        stereo::channel_controller_force_stereo()
    } else if i == 7 {
        stereo::select_sample_rate_48k()
    } else if i == 8 {
        bitrate::opus_config_bitrate()
    } else if i == 9 {
        bitrate::multi_channel_config_bitrate()
    } else if i == 10 {
        bitrate::web_rtc_opus_set_bit_rate()
    } else if i == 11 {
        bitrate::opus_config_application()
    } else if i == 12 {
        bitrate::opus_config_is_ok()
    } else if i == 13 {
        capture::gain_controller2_bypass()
    } else if i == 14 {
        capture::agc_pre_analysis_bypass()
    } else if i == 15 {
        capture::agc_digital_setup_bypass()
    } else if i == 16 {
        capture::mono_agc_process_bypass()
    } else if i == 17 {
        capture::mono_agc_clipping_bypass()
    } else if i == 18 {
        capture::mono_agc_update_gain_bypass()
    } else if i == 19 {
        capture::input_volume_analyze_bypass()
    } else if i == 20 {
        capture::adaptive_digital_gain_bypass()
    } else if i == 21 {
        capture::noise_suppressor_process_bypass()
    } else if i == 22 {
        capture::noise_suppressor_analyze_bypass()
    } else if i == 23 {
        capture::echo_canceller_bypass()
    } else if i == 24 {
        encoder::web_rtc_opus_packet_loss_zero()
    } else if i == 25 {
        encoder::web_rtc_opus_complexity_max()
    } else if i == 26 {
        encoder::web_rtc_opus_bandwidth_fullband()
    } else if i == 27 {
        encoder::web_rtc_opus_fec_off()
    } else if i == 28 {
        encoder::web_rtc_opus_dtx_off()
    } else if i == 29 {
        encoder::frame_length_pin()
    } else if i == 30 {
        encoder::web_rtc_opus_cbr_always()
    } else if i == 31 {
        filters::celt_force()
    } else if i == 32 {
        filters::celt_default_mode()
    } else if i == 33 {
        filters::spl_high_pass_entry()
    } else if i == 34 {
        filters::hp_cutoff_inject()
    } else if i == 35 {
        filters::dc_reject_coefficient()
    } else {
        filters::dc_reject_inject()
    }
}

/// Every site of the catalogue.
pub fn sites() -> (res: Vec<&'static Site>)
    ensures
        models(res@) == catalogue(),
{
    let mut out: Vec<&'static Site> = Vec::new();
    let mut i: usize = 0;
    while i < SITE_COUNT
        invariant
            i <= SITE_COUNT,
            models(out@) == catalogue().take(i as int),
        decreases SITE_COUNT - i,
    {
        let site = site_at(i);
        assert(models(out@.push(site)) =~= models(out@).push(site@));
        assert(catalogue().take(i + 1) =~= catalogue().take(i as int).push(catalogue()[i as int]));
        out.push(site);
        i = i + 1;
    }
    assert(catalogue().take(i as int) =~= catalogue());
    out
}

/// The site of that name.
pub fn find(name: &str) -> (res: Option<&'static Site>)
    ensures
        res matches Some(site) ==> catalogue().contains(site@) && site@.name == name@,
        res is None ==> forall|i: int|
            0 <= i < catalogue().len() ==> (#[trigger] catalogue()[i]).name != name@,
{
    let mut i: usize = 0;
    while i < SITE_COUNT
        invariant
            i <= SITE_COUNT,
            forall|j: int| 0 <= j < i ==> (#[trigger] catalogue()[j]).name != name@,
        decreases SITE_COUNT - i,
    {
        let site = site_at(i);
        assert(catalogue()[i as int] == site@);
        if str_eq(site.name, name) {
            return Some(site);
        }
        i = i + 1;
    }
    None
}

/// The patterns of a site, ready to search with.
pub open spec fn compiled(site: SiteModel, patterns: Seq<Pattern>) -> bool {
    &&& patterns.len() == site.patterns.len()
    &&& forall|i: int|
        0 <= i < patterns.len() ==> {
            let p = #[trigger] patterns[i];
            &&& p.wf()
            &&& p.toks@ == sig::tokens(site.patterns[i].0)
            &&& p.delta == site.patterns[i].1
            &&& p.source@ == site.patterns[i].0
        }
}

pub fn compile_patterns(site: &Site) -> (res: Vec<Pattern>)
    requires
        patterns_valid(site@),
    ensures
        compiled(site@, res@),
{
    let mut out: Vec<Pattern> = Vec::new();
    let mut i: usize = 0;
    while i < site.patterns.len()
        invariant
            i <= site.patterns@.len(),
            i == out@.len(),
            patterns_valid(site@),
            forall|k: int|
                0 <= k < i ==> {
                    let p = #[trigger] out@[k];
                    &&& p.wf()
                    &&& p.toks@ == sig::tokens(site@.patterns[k].0)
                    &&& p.delta == site@.patterns[k].1
                    &&& p.source@ == site@.patterns[k].0
                },
        decreases site.patterns@.len() - i,
    {
        let (src, delta): (&'static str, usize) = site.patterns[i];
        assert(site@.patterns[i as int] == (src@, delta as int));
        out.push(Pattern::parse(src, delta));
        i = i + 1;
    }
    out
}

// ---------------------------------------------------------------------------
// Laws of the catalogue
// ---------------------------------------------------------------------------

/// No two sites have the same name.
pub open spec fn names_unique(cat: Seq<SiteModel>) -> bool {
    forall|i: int, j: int|
        0 <= i < j < cat.len() ==> (#[trigger] cat[i]).name != (#[trigger] cat[j]).name
}

/// The catalogue has a site of that name that is found without another's help.
pub open spec fn names_free_site(cat: Seq<SiteModel>, name: Seq<char>) -> bool {
    exists|j: int|
        0 <= j < cat.len() && (#[trigger] cat[j]).name == name && !(cat[j].expect is NearestAfter)
}

/// What resolving relies on: unique names, readable signatures, plain symbol
/// names, and anchors that are sites of the catalogue and not themselves anchored.
pub open spec fn well_formed(cat: Seq<SiteModel>) -> bool {
    &&& names_unique(cat)
    &&& forall|i: int| 0 <= i < cat.len() ==> patterns_valid(#[trigger] cat[i])
    &&& forall|i: int| 0 <= i < cat.len() ==> symbols_plain(#[trigger] cat[i])
    &&& forall|i: int|
        0 <= i < cat.len() ==> ((#[trigger] cat[i]).expect matches ExpectModel::NearestAfter {
            anchor,
            ..
        } ==> names_free_site(cat, anchor))
}

/// A number that tells the site names apart.
spec fn name_key(name: Seq<char>) -> int {
    name.len() * 65536 + name[name.len() - 5] as int * 256 + name[name.len() - 9] as int
}

/// The place of the site whose name has that number.
spec fn place(key: int) -> int {
    if key == 1852261 {
        0
    } else if key == 1666655 {
        1
    } else if key == 1210729 {
        2
    } else if key == 1328493 {
        3
    } else if key == 1273439 {
        4
    } else if key == 1797727 {
        5
    } else if key == 1930354 {
        6
    } else if key == 1336677 {
        7
    } else if key == 1209447 {
        8
    } else if key == 1733735 {
        9
    } else if key == 1406053 {
        10
    } else if key == 1466736 {
        11
    } else if key == 1007470 {
        12
    } else if key == 1472882 {
        13
    } else if key == 1407337 {
        14
    } else if key == 1472885 {
        15
    } else if key == 1407347 {
        16
    } else if key == 1472878 {
        17
    } else if key == 1603945 {
        18
    } else if key == 1669498 {
        19
    } else if key == 1735017 {
        20
    } else if key == 1931635 {
        21
    } else if key == 1931642 {
        22
    } else if key == 1341797 {
        23
    } else if key == 1728332 {
        24
    } else if key == 1669477 {
        25
    } else if key == 1928287 {
        26
    } else if key == 1205107 {
        27
    } else if key == 1210483 {
        28
    } else if key == 1009765 {
        29
    } else if key == 1404002 {
        30
    } else if key == 673349 {
        31
    } else if key == 1078374 {
        32
    } else if key == 1131873 {
        33
    } else if key == 1011302 {
        34
    } else if key == 1336165 {
        35
    } else if key == 1011299 {
        36
    } else {
        -1
    }
}

proof fn lemma_places(i: int)
    requires
        0 <= i < SITE_COUNT,
    ensures
        place(name_key(site_model(i).name)) == i,
{
    reveal(site_model);
    reveal_strlit("CommitAudioCodec_StereoCheck");
    reveal_strlit("CreateAudioFrame_Channels");
    reveal_strlit("MonoDownmix_Bypass");
    reveal_strlit("ChannelDownmix_Entry");
    reveal_strlit("OpusConfig_Channels");
    reveal_strlit("MultiChannelConfig_Channels");
    reveal_strlit("ChannelController_ForceStereo");
    reveal_strlit("SelectSampleRate_48k");
    reveal_strlit("OpusConfig_Bitrate");
    reveal_strlit("MultiChannelConfig_Bitrate");
    reveal_strlit("WebRtcOpus_SetBitRate");
    reveal_strlit("OpusConfig_Application");
    reveal_strlit("OpusConfig_IsOk");
    reveal_strlit("GainController2_Bypass");
    reveal_strlit("AgcPreAnalysis_Bypass");
    reveal_strlit("AgcDigitalSetup_Bypass");
    reveal_strlit("MonoAgcProcess_Bypass");
    reveal_strlit("MonoAgcClipping_Bypass");
    reveal_strlit("MonoAgcUpdateGain_Bypass");
    reveal_strlit("InputVolumeAnalyze_Bypass");
    reveal_strlit("AdaptiveDigitalGain_Bypass");
    reveal_strlit("NoiseSuppressorProcess_Bypass");
    reveal_strlit("NoiseSuppressorAnalyze_Bypass");
    reveal_strlit("EchoCanceller_Bypass");
    reveal_strlit("WebRtcOpus_PacketLoss_Zero");
    reveal_strlit("WebRtcOpus_Complexity_Max");
    reveal_strlit("WebRtcOpus_Bandwidth_Fullband");
    reveal_strlit("WebRtcOpus_Fec_Off");
    reveal_strlit("WebRtcOpus_Dtx_Off");
    reveal_strlit("FrameLength_Pin");
    reveal_strlit("WebRtcOpus_Cbr_Always");
    reveal_strlit("CELT_Force");
    reveal_strlit("CELT_DefaultMode");
    reveal_strlit("SplHighPass_Entry");
    reveal_strlit("HpCutoff_Inject");
    reveal_strlit("DcReject_Coefficient");
    reveal_strlit("DcReject_Inject");
}

/// Site names are unique.
pub proof fn law_site_names_are_unique()
    ensures
        names_unique(catalogue()),
{
    assert forall|i: int, j: int| 0 <= i < j < catalogue().len() implies (#[trigger] catalogue()[i]).name
        != (#[trigger] catalogue()[j]).name by {
        lemma_places(i);
        lemma_places(j);
    }
}

/// Every signature of the catalogue can be read, every delta is in range, and
/// every symbol name is ASCII.
pub proof fn law_patterns_compile_and_deltas_are_in_range()
    ensures
        forall|i: int| 0 <= i < catalogue().len() ==> patterns_valid(#[trigger] catalogue()[i]),
        forall|i: int| 0 <= i < catalogue().len() ==> symbols_plain(#[trigger] catalogue()[i]),
{
    reveal(site_model);
    stereo::lemma_commit_audio_codec_stereo_check_reads();
    stereo::lemma_create_audio_frame_channels_reads();
    stereo::lemma_mono_downmix_bypass_reads();
    stereo::lemma_channel_downmix_entry_reads();
    stereo::lemma_opus_config_channels_reads();
    stereo::lemma_multi_channel_config_channels_reads();
    stereo::lemma_channel_controller_force_stereo_reads();
    stereo::lemma_select_sample_rate_48k_reads();
    bitrate::lemma_opus_config_bitrate_reads();
    bitrate::lemma_multi_channel_config_bitrate_reads();
    bitrate::lemma_web_rtc_opus_set_bit_rate_reads();
    bitrate::lemma_opus_config_application_reads();
    bitrate::lemma_opus_config_is_ok_reads();
    capture::lemma_gain_controller2_bypass_reads();
    capture::lemma_agc_pre_analysis_bypass_reads();
    capture::lemma_agc_digital_setup_bypass_reads();
    capture::lemma_mono_agc_process_bypass_reads();
    capture::lemma_mono_agc_clipping_bypass_reads();
    capture::lemma_mono_agc_update_gain_bypass_reads();
    capture::lemma_input_volume_analyze_bypass_reads();
    capture::lemma_adaptive_digital_gain_bypass_reads();
    capture::lemma_noise_suppressor_process_bypass_reads();
    capture::lemma_noise_suppressor_analyze_bypass_reads();
    capture::lemma_echo_canceller_bypass_reads();
    encoder::lemma_web_rtc_opus_packet_loss_zero_reads();
    encoder::lemma_web_rtc_opus_complexity_max_reads();
    encoder::lemma_web_rtc_opus_bandwidth_fullband_reads();
    encoder::lemma_web_rtc_opus_fec_off_reads();
    encoder::lemma_web_rtc_opus_dtx_off_reads();
    encoder::lemma_frame_length_pin_reads();
    encoder::lemma_web_rtc_opus_cbr_always_reads();
    filters::lemma_celt_force_reads();
    filters::lemma_celt_default_mode_reads();
    filters::lemma_spl_high_pass_entry_reads();
    filters::lemma_hp_cutoff_inject_reads();
    filters::lemma_dc_reject_coefficient_reads();
    filters::lemma_dc_reject_inject_reads();
}

/// Every anchor is a site of the catalogue that is not itself anchored, and every
/// site named as covering another is a site of the catalogue.
pub proof fn law_anchors_refer_to_real_sites()
    ensures
        forall|i: int|
            0 <= i < catalogue().len() ==> ((
            #[trigger] catalogue()[i]).expect matches ExpectModel::NearestAfter { anchor, .. }
                ==> names_free_site(catalogue(), anchor)),
        forall|i: int|
            0 <= i < catalogue().len() ==> ((#[trigger] catalogue()[i]).absent_ok matches Some(
                absent,
            ) ==> (absent.covered_by matches Some(other) ==> exists|j: int|
                0 <= j < catalogue().len() && (#[trigger] catalogue()[j]).name == other)),
{
    reveal(site_model);
    let cat = catalogue();
    assert(cat[7].name == "SelectSampleRate_48k"@);
    assert(cat[31].name == "CELT_Force"@);
    assert(cat[11].name == "OpusConfig_Application"@);
    assert(cat[35].name == "DcReject_Coefficient"@);
    assert(cat[36].name == "DcReject_Inject"@);
}

/// The catalogue is fit to be resolved.
pub proof fn lemma_catalogue_well_formed()
    ensures
        well_formed(catalogue()),
{
    law_site_names_are_unique();
    law_patterns_compile_and_deltas_are_in_range();
    law_anchors_refer_to_real_sites();
}

/// Every site belongs to a declared group.
pub proof fn law_every_site_belongs_to_a_declared_group()
    ensures
        forall|i: int|
            0 <= i < catalogue().len() ==> groups::declared((#[trigger] catalogue()[i]).group),
{
    reveal(site_model);
    reveal(groups::group_model);
    let all = groups::group_catalogue();
    assert(all[0].name == "stereo"@);
    assert(all[1].name == "samplerate"@);
    assert(all[2].name == "bitrate"@);
    assert(all[3].name == "opus"@);
    assert(all[4].name == "celt"@);
    assert(all[5].name == "encoder"@);
    assert(all[6].name == "filter"@);
    assert(all[7].name == "gain"@);
    assert(all[8].name == "denoise"@);
    assert(all[9].name == "echo"@);
    assert(all[10].name == "cbr"@);
}

/// Every group has at least one site.
pub proof fn law_every_group_has_at_least_one_site()
    ensures
        forall|g: int|
            0 <= g < groups::group_catalogue().len() ==> exists|i: int|
                0 <= i < catalogue().len() && (#[trigger] catalogue()[i]).group == (
                #[trigger] groups::group_catalogue()[g]).name,
{
    reveal(site_model);
    reveal(groups::group_model);
    let cat = catalogue();
    assert(cat[0].group == "stereo"@);
    assert(cat[7].group == "samplerate"@);
    assert(cat[8].group == "bitrate"@);
    assert(cat[11].group == "opus"@);
    assert(cat[13].group == "gain"@);
    assert(cat[21].group == "denoise"@);
    assert(cat[23].group == "echo"@);
    assert(cat[24].group == "encoder"@);
    assert(cat[30].group == "cbr"@);
    assert(cat[31].group == "celt"@);
    assert(cat[33].group == "filter"@);
}

} // verus!

//! Encoder settings pinned at the wrapper that every caller goes through.
//!
//! Every `WebRtcOpus_*` wrapper is a few instructions around a single
//! `opus_encoder_ctl`, and each is called from several places. Pinning the value
//! at the wrapper covers all of them at once. The request constant in the
//! signature (`BE <req> 0F 00 00`) is what tells the otherwise identical wrappers
//! apart.

use crate::sig;
use crate::sites;
use crate::text;
use crate::sites::signatures;
use crate::sites::signatures::{CTL_PROLOGUE, PINNED, RET, SYM_FRAME_LENGTH_DECISION};
use crate::sites::{
    Absent, AbsentModel, Action, ActionModel, Expect, ExpectModel, Site, SiteModel,
};
use vstd::prelude::*;

verus! {

pub const SIG_WEB_RTC_OPUS_PACKET_LOSS_ZERO: &'static str =
    "?? ?? ?? ?? ?? ?? 48 8B 07 48 85 C0 74 ?? 48 89 C7 BE AE 0F 00 00 31 C0 E8";

proof fn lemma_sig_web_rtc_opus_packet_loss_zero()
    ensures
        sig::reads_as(SIG_WEB_RTC_OPUS_PACKET_LOSS_ZERO@, 25),
{
    reveal_strlit(
        "?? ?? ?? ?? ?? ?? 48 8B 07 48 85 C0 74 ?? 48 89 C7 BE AE 0F 00 00 31 C0 E8",
    );
    assert(sig::regular(SIG_WEB_RTC_OPUS_PACKET_LOSS_ZERO@, 25)) by {
        reveal_with_fuel(sig::regular_from, 26);
    }
    sig::lemma_regular(SIG_WEB_RTC_OPUS_PACKET_LOSS_ZERO@, 25);
}

/// `WebRtcOpus_PacketLoss_Zero`: packet-loss hint pinned to 0%.
///
/// OPUS_SET_PACKET_LOSS_PERC (4014). WebRTC feeds the measured uplink loss
/// fraction in here; libopus answers by trading audio bits for error robustness
/// — in CELT that is wider spreading and a more conservative allocation, so the
/// effect is audible even with no SILK and no inband FEC. Pinning it to 0 keeps
/// the whole budget on signal.
pub open spec fn web_rtc_opus_packet_loss_zero_model() -> SiteModel {
    SiteModel {
        name: "WebRtcOpus_PacketLoss_Zero"@,
        group: "encoder"@,
        what: "packet-loss hint pinned to 0%"@,
        critical: false,
        absent_ok: None,
        expect: ExpectModel::One,
        symbols: seq!["WebRtcOpus_SetPacketLossRate"@],
        entry: false,
        patterns: seq![(SIG_WEB_RTC_OPUS_PACKET_LOSS_ZERO@, 0int)],
        action: ActionModel::CtlArg(0),
        stock: CTL_PROLOGUE@,
        expect_orig: seq![CTL_PROLOGUE@, PINNED@],
    }
}

pub fn web_rtc_opus_packet_loss_zero() -> (res: &'static Site)
    ensures
        res@ == web_rtc_opus_packet_loss_zero_model(),
{
    let site: &'static Site = &Site {
        name: "WebRtcOpus_PacketLoss_Zero",
        group: "encoder",
        what: "packet-loss hint pinned to 0%",
        critical: false,
        absent_ok: None,
        expect: Expect::One,
        symbols: &["WebRtcOpus_SetPacketLossRate"],
        entry: false,
        patterns: &[(SIG_WEB_RTC_OPUS_PACKET_LOSS_ZERO, 0)],
        action: Action::CtlArg(0),
        stock: &CTL_PROLOGUE,
        expect_orig: &[&CTL_PROLOGUE, &PINNED],
    };
    assert(site@ =~~= web_rtc_opus_packet_loss_zero_model());
    site
}

pub proof fn lemma_web_rtc_opus_packet_loss_zero_reads()
    ensures
        sites::patterns_valid(web_rtc_opus_packet_loss_zero_model()),
        sites::symbols_plain(web_rtc_opus_packet_loss_zero_model()),
{
    lemma_sig_web_rtc_opus_packet_loss_zero();
    reveal_strlit("WebRtcOpus_SetPacketLossRate");
    assert(text::ascii_from("WebRtcOpus_SetPacketLossRate"@, 0)) by {
        reveal_with_fuel(text::ascii_from, 16);
    }
    text::lemma_ascii("WebRtcOpus_SetPacketLossRate"@);
}

pub const SIG_WEB_RTC_OPUS_COMPLEXITY_MAX: &'static str =
    "?? ?? ?? ?? ?? ?? 48 8B 07 48 85 C0 74 ?? 48 89 C7 BE AA 0F 00 00 31 C0 E8";

proof fn lemma_sig_web_rtc_opus_complexity_max()
    ensures
        sig::reads_as(SIG_WEB_RTC_OPUS_COMPLEXITY_MAX@, 25),
{
    reveal_strlit(
        "?? ?? ?? ?? ?? ?? 48 8B 07 48 85 C0 74 ?? 48 89 C7 BE AA 0F 00 00 31 C0 E8",
    );
    assert(sig::regular(SIG_WEB_RTC_OPUS_COMPLEXITY_MAX@, 25)) by {
        reveal_with_fuel(sig::regular_from, 26);
    }
    sig::lemma_regular(SIG_WEB_RTC_OPUS_COMPLEXITY_MAX@, 25);
}

/// `WebRtcOpus_Complexity_Max`: encoder complexity pinned to 10.
///
/// OPUS_SET_COMPLEXITY (4010). Discord ships 9; 10 is the maximum and costs
/// only encoder CPU.
pub open spec fn web_rtc_opus_complexity_max_model() -> SiteModel {
    SiteModel {
        name: "WebRtcOpus_Complexity_Max"@,
        group: "encoder"@,
        what: "encoder complexity pinned to 10"@,
        critical: false,
        absent_ok: None,
        expect: ExpectModel::One,
        symbols: seq!["WebRtcOpus_SetComplexity"@],
        entry: false,
        patterns: seq![(SIG_WEB_RTC_OPUS_COMPLEXITY_MAX@, 0int)],
        action: ActionModel::CtlArg(10),
        stock: CTL_PROLOGUE@,
        expect_orig: seq![CTL_PROLOGUE@, PINNED@],
    }
}

pub fn web_rtc_opus_complexity_max() -> (res: &'static Site)
    ensures
        res@ == web_rtc_opus_complexity_max_model(),
{
    let site: &'static Site = &Site {
        name: "WebRtcOpus_Complexity_Max",
        group: "encoder",
        what: "encoder complexity pinned to 10",
        critical: false,
        absent_ok: None,
        expect: Expect::One,
        symbols: &["WebRtcOpus_SetComplexity"],
        entry: false,
        patterns: &[(SIG_WEB_RTC_OPUS_COMPLEXITY_MAX, 0)],
        action: Action::CtlArg(10),
        stock: &CTL_PROLOGUE,
        expect_orig: &[&CTL_PROLOGUE, &PINNED],
    };
    assert(site@ =~~= web_rtc_opus_complexity_max_model());
    site
}

pub proof fn lemma_web_rtc_opus_complexity_max_reads()
    ensures
        sites::patterns_valid(web_rtc_opus_complexity_max_model()),
        sites::symbols_plain(web_rtc_opus_complexity_max_model()),
{
    lemma_sig_web_rtc_opus_complexity_max();
    reveal_strlit("WebRtcOpus_SetComplexity");
    assert(text::ascii_from("WebRtcOpus_SetComplexity"@, 0)) by {
        reveal_with_fuel(text::ascii_from, 14);
    }
    text::lemma_ascii("WebRtcOpus_SetComplexity"@);
}

pub const SIG_WEB_RTC_OPUS_BANDWIDTH_FULLBAND: &'static str =
    "?? ?? ?? ?? ?? ?? 48 8B 07 48 85 C0 74 ?? 48 89 C7 BE A8 0F 00 00 31 C0 E8";

proof fn lemma_sig_web_rtc_opus_bandwidth_fullband()
    ensures
        sig::reads_as(SIG_WEB_RTC_OPUS_BANDWIDTH_FULLBAND@, 25),
{
    reveal_strlit(
        "?? ?? ?? ?? ?? ?? 48 8B 07 48 85 C0 74 ?? 48 89 C7 BE A8 0F 00 00 31 C0 E8",
    );
    assert(sig::regular(SIG_WEB_RTC_OPUS_BANDWIDTH_FULLBAND@, 25)) by {
        reveal_with_fuel(sig::regular_from, 26);
    }
    sig::lemma_regular(SIG_WEB_RTC_OPUS_BANDWIDTH_FULLBAND@, 25);
}

/// `WebRtcOpus_Bandwidth_Fullband`: coded bandwidth pinned to fullband.
///
/// OPUS_SET_BANDWIDTH (4008) with OPUS_BANDWIDTH_FULLBAND (1105), the full 20
/// kHz. Anything narrower is a low-pass by another name.
pub open spec fn web_rtc_opus_bandwidth_fullband_model() -> SiteModel {
    SiteModel {
        name: "WebRtcOpus_Bandwidth_Fullband"@,
        group: "encoder"@,
        what: "coded bandwidth pinned to fullband"@,
        critical: false,
        absent_ok: None,
        expect: ExpectModel::One,
        symbols: seq!["WebRtcOpus_SetBandwidth"@],
        entry: false,
        patterns: seq![(SIG_WEB_RTC_OPUS_BANDWIDTH_FULLBAND@, 0int)],
        action: ActionModel::CtlArg(1105),
        stock: CTL_PROLOGUE@,
        expect_orig: seq![CTL_PROLOGUE@, PINNED@],
    }
}

pub fn web_rtc_opus_bandwidth_fullband() -> (res: &'static Site)
    ensures
        res@ == web_rtc_opus_bandwidth_fullband_model(),
{
    let site: &'static Site = &Site {
        name: "WebRtcOpus_Bandwidth_Fullband",
        group: "encoder",
        what: "coded bandwidth pinned to fullband",
        critical: false,
        absent_ok: None,
        expect: Expect::One,
        symbols: &["WebRtcOpus_SetBandwidth"],
        entry: false,
        patterns: &[(SIG_WEB_RTC_OPUS_BANDWIDTH_FULLBAND, 0)],
        action: Action::CtlArg(1105),
        stock: &CTL_PROLOGUE,
        expect_orig: &[&CTL_PROLOGUE, &PINNED],
    };
    assert(site@ =~~= web_rtc_opus_bandwidth_fullband_model());
    site
}

pub proof fn lemma_web_rtc_opus_bandwidth_fullband_reads()
    ensures
        sites::patterns_valid(web_rtc_opus_bandwidth_fullband_model()),
        sites::symbols_plain(web_rtc_opus_bandwidth_fullband_model()),
{
    lemma_sig_web_rtc_opus_bandwidth_fullband();
    reveal_strlit("WebRtcOpus_SetBandwidth");
    assert(text::ascii_from("WebRtcOpus_SetBandwidth"@, 0)) by {
        reveal_with_fuel(text::ascii_from, 13);
    }
    text::lemma_ascii("WebRtcOpus_SetBandwidth"@);
}

pub const SIG_WEB_RTC_OPUS_FEC_OFF: &'static str =
    "BE AC 0F 00 00 BA ?? 00 00 00 31 C0 E8";

proof fn lemma_sig_web_rtc_opus_fec_off()
    ensures
        sig::reads_as(SIG_WEB_RTC_OPUS_FEC_OFF@, 13),
{
    reveal_strlit(
        "BE AC 0F 00 00 BA ?? 00 00 00 31 C0 E8",
    );
    assert(sig::regular(SIG_WEB_RTC_OPUS_FEC_OFF@, 13)) by {
        reveal_with_fuel(sig::regular_from, 14);
    }
    sig::lemma_regular(SIG_WEB_RTC_OPUS_FEC_OFF@, 13);
}

/// `WebRtcOpus_Fec_Off`: inband FEC never enabled.
///
/// OPUS_SET_INBAND_FEC (4012). The wrapper has no `mov edx,esi` to overwrite —
/// it hardcodes 1 in each of its two arms — so the edit is that immediate
/// instead of the prologue. FEC spends payload on redundancy that only pays off
/// under loss; with CELT forced there is no SILK LBRR for it to carry anyway,
/// so this is mostly belt and braces for a build where the CELT sites did not
/// apply.
pub open spec fn web_rtc_opus_fec_off_model() -> SiteModel {
    SiteModel {
        name: "WebRtcOpus_Fec_Off"@,
        group: "encoder"@,
        what: "inband FEC never enabled"@,
        critical: false,
        absent_ok: None,
        expect: ExpectModel::All(2),
        symbols: seq!["WebRtcOpus_EnableFec"@],
        entry: false,
        patterns: seq![(SIG_WEB_RTC_OPUS_FEC_OFF@, 6int)],
        action: ActionModel::Bytes(seq![0x00u8, 0x00u8, 0x00u8, 0x00u8]),
        stock: seq![0x01u8, 0x00u8, 0x00u8, 0x00u8],
        expect_orig: seq![seq![0x01u8, 0x00u8, 0x00u8, 0x00u8], seq![0x00u8, 0x00u8, 0x00u8, 0x00u8]],
    }
}

pub fn web_rtc_opus_fec_off() -> (res: &'static Site)
    ensures
        res@ == web_rtc_opus_fec_off_model(),
{
    let site: &'static Site = &Site {
        name: "WebRtcOpus_Fec_Off",
        group: "encoder",
        what: "inband FEC never enabled",
        critical: false,
        absent_ok: None,
        expect: Expect::All(2),
        symbols: &["WebRtcOpus_EnableFec"],
        entry: false,
        patterns: &[(SIG_WEB_RTC_OPUS_FEC_OFF, 6)],
        action: Action::Bytes(&[0x00, 0x00, 0x00, 0x00]),
        stock: &[0x01, 0x00, 0x00, 0x00],
        expect_orig: &[&[0x01, 0x00, 0x00, 0x00], &[0x00, 0x00, 0x00, 0x00]],
    };
    assert(site@ =~~= web_rtc_opus_fec_off_model());
    site
}

pub proof fn lemma_web_rtc_opus_fec_off_reads()
    ensures
        sites::patterns_valid(web_rtc_opus_fec_off_model()),
        sites::symbols_plain(web_rtc_opus_fec_off_model()),
{
    lemma_sig_web_rtc_opus_fec_off();
    reveal_strlit("WebRtcOpus_EnableFec");
    assert(text::ascii_from("WebRtcOpus_EnableFec"@, 0)) by {
        reveal_with_fuel(text::ascii_from, 12);
    }
    text::lemma_ascii("WebRtcOpus_EnableFec"@);
}

pub const SIG_WEB_RTC_OPUS_DTX_OFF: &'static str =
    "BE B0 0F 00 00 BA ?? 00 00 00 31 C0 E8";

proof fn lemma_sig_web_rtc_opus_dtx_off()
    ensures
        sig::reads_as(SIG_WEB_RTC_OPUS_DTX_OFF@, 13),
{
    reveal_strlit(
        "BE B0 0F 00 00 BA ?? 00 00 00 31 C0 E8",
    );
    assert(sig::regular(SIG_WEB_RTC_OPUS_DTX_OFF@, 13)) by {
        reveal_with_fuel(sig::regular_from, 14);
    }
    sig::lemma_regular(SIG_WEB_RTC_OPUS_DTX_OFF@, 13);
}

/// `WebRtcOpus_Dtx_Off`: DTX never enabled.
///
/// OPUS_SET_DTX (4016), same two-armed shape as the FEC wrapper. Discontinuous
/// transmission stops sending during what it judges to be silence, which on
/// music is a gate that chews reverb tails and fades.
pub open spec fn web_rtc_opus_dtx_off_model() -> SiteModel {
    SiteModel {
        name: "WebRtcOpus_Dtx_Off"@,
        group: "encoder"@,
        what: "DTX never enabled"@,
        critical: false,
        absent_ok: None,
        expect: ExpectModel::All(2),
        symbols: seq!["WebRtcOpus_EnableDtx"@],
        entry: false,
        patterns: seq![(SIG_WEB_RTC_OPUS_DTX_OFF@, 6int)],
        action: ActionModel::Bytes(seq![0x00u8, 0x00u8, 0x00u8, 0x00u8]),
        stock: seq![0x01u8, 0x00u8, 0x00u8, 0x00u8],
        expect_orig: seq![seq![0x01u8, 0x00u8, 0x00u8, 0x00u8], seq![0x00u8, 0x00u8, 0x00u8, 0x00u8]],
    }
}

pub fn web_rtc_opus_dtx_off() -> (res: &'static Site)
    ensures
        res@ == web_rtc_opus_dtx_off_model(),
{
    let site: &'static Site = &Site {
        name: "WebRtcOpus_Dtx_Off",
        group: "encoder",
        what: "DTX never enabled",
        critical: false,
        absent_ok: None,
        expect: Expect::All(2),
        symbols: &["WebRtcOpus_EnableDtx"],
        entry: false,
        patterns: &[(SIG_WEB_RTC_OPUS_DTX_OFF, 6)],
        action: Action::Bytes(&[0x00, 0x00, 0x00, 0x00]),
        stock: &[0x01, 0x00, 0x00, 0x00],
        expect_orig: &[&[0x01, 0x00, 0x00, 0x00], &[0x00, 0x00, 0x00, 0x00]],
    };
    assert(site@ =~~= web_rtc_opus_dtx_off_model());
    site
}

pub proof fn lemma_web_rtc_opus_dtx_off_reads()
    ensures
        sites::patterns_valid(web_rtc_opus_dtx_off_model()),
        sites::symbols_plain(web_rtc_opus_dtx_off_model()),
{
    lemma_sig_web_rtc_opus_dtx_off();
    reveal_strlit("WebRtcOpus_EnableDtx");
    assert(text::ascii_from("WebRtcOpus_EnableDtx"@, 0)) by {
        reveal_with_fuel(text::ascii_from, 12);
    }
    text::lemma_ascii("WebRtcOpus_EnableDtx"@);
}

pub const NOTE_FRAME_LENGTH_PIN: &'static str =
    "no FrameLengthController in this build, so the network adaptor has no frame-length arm and the encoder keeps its configured 20 ms";

/// `FrameLength_Pin`: network adaptor cannot change the frame length mid-call.
///
/// The frame-length arm of the same audio network adaptor that
/// `ChannelController_ForceStereo` deals with. Left alone it walks the encoder
/// between 20 ms and 60 ms frames as the uplink estimate moves.
///
/// Here a bare `ret` is enough, and is safer than editing the decision:
/// `MakeDecision` returns void and its only effect is writing `frame_length_ms`
/// into the runtime config. Never writing it leaves the optional disengaged,
/// `ApplyAudioNetworkAdaptor` skips `SetFrameLength` entirely, and the encoder
/// keeps the 20 ms it was constructed with.
pub open spec fn frame_length_pin_model() -> SiteModel {
    SiteModel {
        name: "FrameLength_Pin"@,
        group: "encoder"@,
        what: "network adaptor cannot change the frame length mid-call"@,
        critical: false,
        absent_ok: Some(AbsentModel { covered_by: None, note: NOTE_FRAME_LENGTH_PIN@ }),
        expect: ExpectModel::One,
        symbols: seq![SYM_FRAME_LENGTH_DECISION@],
        entry: true,
        patterns: seq![],
        action: ActionModel::Bytes(RET@),
        stock: seq![],
        expect_orig: seq![],
    }
}

pub fn frame_length_pin() -> (res: &'static Site)
    ensures
        res@ == frame_length_pin_model(),
{
    let site: &'static Site = &Site {
        name: "FrameLength_Pin",
        group: "encoder",
        what: "network adaptor cannot change the frame length mid-call",
        critical: false,
        absent_ok: Some(Absent { covered_by: None, note: NOTE_FRAME_LENGTH_PIN }),
        expect: Expect::One,
        symbols: &[SYM_FRAME_LENGTH_DECISION],
        entry: true,
        patterns: &[],
        action: Action::Bytes(&RET),
        stock: &[],
        expect_orig: &[],
    };
    assert(site@ =~~= frame_length_pin_model());
    site
}

pub proof fn lemma_frame_length_pin_reads()
    ensures
        sites::patterns_valid(frame_length_pin_model()),
        sites::symbols_plain(frame_length_pin_model()),
{
    signatures::lemma_sym_frame_length_decision();
}

pub const SIG_WEB_RTC_OPUS_CBR_ALWAYS: &'static str =
    "BE A6 0F 00 00 BA ?? 00 00 00 31 C0 E8";

proof fn lemma_sig_web_rtc_opus_cbr_always()
    ensures
        sig::reads_as(SIG_WEB_RTC_OPUS_CBR_ALWAYS@, 13),
{
    reveal_strlit(
        "BE A6 0F 00 00 BA ?? 00 00 00 31 C0 E8",
    );
    assert(sig::regular(SIG_WEB_RTC_OPUS_CBR_ALWAYS@, 13)) by {
        reveal_with_fuel(sig::regular_from, 14);
    }
    sig::lemma_regular(SIG_WEB_RTC_OPUS_CBR_ALWAYS@, 13);
}

/// `WebRtcOpus_Cbr_Always`: constant bitrate cannot be turned back off.
///
/// OPUS_SET_VBR (4006), inverted: `WebRtcOpus_EnableCbr` already passes 0 (VBR
/// off), so the only thing that can undo it is `WebRtcOpus_DisableCbr` passing
/// 1. Turning that immediate into 0 makes both wrappers agree on constant
/// bitrate.
///
/// Off by default, and the one group here that is not about leaving the signal
/// alone: variable bitrate at a high ceiling already spends what a passage
/// needs and no more, so constant bitrate mostly buys a steadier packet size at
/// the cost of sending full rate through quiet material. Worth having when
/// something downstream wants a predictable rate; not worth having by default.
pub open spec fn web_rtc_opus_cbr_always_model() -> SiteModel {
    SiteModel {
        name: "WebRtcOpus_Cbr_Always"@,
        group: "cbr"@,
        what: "constant bitrate cannot be turned back off"@,
        critical: false,
        absent_ok: None,
        expect: ExpectModel::All(2),
        symbols: seq!["WebRtcOpus_DisableCbr"@],
        entry: false,
        patterns: seq![(SIG_WEB_RTC_OPUS_CBR_ALWAYS@, 6int)],
        action: ActionModel::Bytes(seq![0x00u8, 0x00u8, 0x00u8, 0x00u8]),
        stock: seq![0x01u8, 0x00u8, 0x00u8, 0x00u8],
        expect_orig: seq![seq![0x01u8, 0x00u8, 0x00u8, 0x00u8], seq![0x00u8, 0x00u8, 0x00u8, 0x00u8]],
    }
}

pub fn web_rtc_opus_cbr_always() -> (res: &'static Site)
    ensures
        res@ == web_rtc_opus_cbr_always_model(),
{
    let site: &'static Site = &Site {
        name: "WebRtcOpus_Cbr_Always",
        group: "cbr",
        what: "constant bitrate cannot be turned back off",
        critical: false,
        absent_ok: None,
        expect: Expect::All(2),
        symbols: &["WebRtcOpus_DisableCbr"],
        entry: false,
        patterns: &[(SIG_WEB_RTC_OPUS_CBR_ALWAYS, 6)],
        action: Action::Bytes(&[0x00, 0x00, 0x00, 0x00]),
        stock: &[0x01, 0x00, 0x00, 0x00],
        expect_orig: &[&[0x01, 0x00, 0x00, 0x00], &[0x00, 0x00, 0x00, 0x00]],
    };
    assert(site@ =~~= web_rtc_opus_cbr_always_model());
    site
}

pub proof fn lemma_web_rtc_opus_cbr_always_reads()
    ensures
        sites::patterns_valid(web_rtc_opus_cbr_always_model()),
        sites::symbols_plain(web_rtc_opus_cbr_always_model()),
{
    lemma_sig_web_rtc_opus_cbr_always();
    reveal_strlit("WebRtcOpus_DisableCbr");
    assert(text::ascii_from("WebRtcOpus_DisableCbr"@, 0)) by {
        reveal_with_fuel(text::ascii_from, 12);
    }
    text::lemma_ascii("WebRtcOpus_DisableCbr"@);
}

} // verus!

//! The default bitrate, the central bitrate lock, and what the Opus configuration
//! accepts.

use crate::sig;
use crate::sites;
use crate::text;
use crate::sites::signatures;
use crate::sites::signatures::{
    MULTICHANNEL_CTOR, OPUS_CONFIG_CTOR, OPUS_CONFIG_CTOR_INLINED, PINNED, RETURN_TRUE,
    SYM_MULTICHANNEL_CTOR, SYM_OPUS_CONFIG_CTOR, SYM_OPUS_CONFIG_ISOK,
};
use crate::sites::{
    Absent, AbsentModel, Action, ActionModel, Expect, ExpectModel, Site, SiteModel,
};
use vstd::prelude::*;

verus! {

/// `OpusConfig_Bitrate`: AudioEncoderOpusConfig default bitrate.
pub open spec fn opus_config_bitrate_model() -> SiteModel {
    SiteModel {
        name: "OpusConfig_Bitrate"@,
        group: "bitrate"@,
        what: "AudioEncoderOpusConfig default bitrate"@,
        critical: false,
        absent_ok: None,
        expect: ExpectModel::One,
        symbols: seq![SYM_OPUS_CONFIG_CTOR@],
        entry: false,
        patterns: seq![(OPUS_CONFIG_CTOR@, 31int), (OPUS_CONFIG_CTOR_INLINED@, 34int)],
        action: ActionModel::BitrateImm32,
        stock: seq![0x00u8, 0x7Du8, 0x00u8, 0x00u8],
        expect_orig: seq![],
    }
}

pub fn opus_config_bitrate() -> (res: &'static Site)
    ensures
        res@ == opus_config_bitrate_model(),
{
    let site: &'static Site = &Site {
        name: "OpusConfig_Bitrate",
        group: "bitrate",
        what: "AudioEncoderOpusConfig default bitrate",
        critical: false,
        absent_ok: None,
        expect: Expect::One,
        symbols: &[SYM_OPUS_CONFIG_CTOR],
        entry: false,
        patterns: &[(OPUS_CONFIG_CTOR, 31), (OPUS_CONFIG_CTOR_INLINED, 34)],
        action: Action::BitrateImm32,
        stock: &[0x00, 0x7D, 0x00, 0x00],
        expect_orig: &[],
    };
    assert(site@ =~~= opus_config_bitrate_model());
    site
}

pub proof fn lemma_opus_config_bitrate_reads()
    ensures
        sites::patterns_valid(opus_config_bitrate_model()),
        sites::symbols_plain(opus_config_bitrate_model()),
{
    signatures::lemma_opus_config_ctor();
    signatures::lemma_opus_config_ctor_inlined();
    signatures::lemma_sym_opus_config_ctor();
}

pub const NOTE_MULTI_CHANNEL_CONFIG_BITRATE: &'static str =
    "multi-channel (surround) Opus config, not used for stereo voice";

/// `MultiChannelConfig_Bitrate`: AudioEncoderMultiChannelOpusConfig default
/// bitrate.
pub open spec fn multi_channel_config_bitrate_model() -> SiteModel {
    SiteModel {
        name: "MultiChannelConfig_Bitrate"@,
        group: "bitrate"@,
        what: "AudioEncoderMultiChannelOpusConfig default bitrate"@,
        critical: false,
        absent_ok: Some(AbsentModel { covered_by: None, note: NOTE_MULTI_CHANNEL_CONFIG_BITRATE@ }),
        expect: ExpectModel::One,
        symbols: seq![SYM_MULTICHANNEL_CTOR@],
        entry: false,
        patterns: seq![(MULTICHANNEL_CTOR@, 24int)],
        action: ActionModel::BitrateImm32,
        stock: seq![0x00u8, 0x7Du8, 0x00u8, 0x00u8],
        expect_orig: seq![],
    }
}

pub fn multi_channel_config_bitrate() -> (res: &'static Site)
    ensures
        res@ == multi_channel_config_bitrate_model(),
{
    let site: &'static Site = &Site {
        name: "MultiChannelConfig_Bitrate",
        group: "bitrate",
        what: "AudioEncoderMultiChannelOpusConfig default bitrate",
        critical: false,
        absent_ok: Some(Absent { covered_by: None, note: NOTE_MULTI_CHANNEL_CONFIG_BITRATE }),
        expect: Expect::One,
        symbols: &[SYM_MULTICHANNEL_CTOR],
        entry: false,
        patterns: &[(MULTICHANNEL_CTOR, 24)],
        action: Action::BitrateImm32,
        stock: &[0x00, 0x7D, 0x00, 0x00],
        expect_orig: &[],
    };
    assert(site@ =~~= multi_channel_config_bitrate_model());
    site
}

pub proof fn lemma_multi_channel_config_bitrate_reads()
    ensures
        sites::patterns_valid(multi_channel_config_bitrate_model()),
        sites::symbols_plain(multi_channel_config_bitrate_model()),
{
    signatures::lemma_multichannel_ctor();
    signatures::lemma_sym_multichannel_ctor();
}

pub const SIG_WEB_RTC_OPUS_SET_BIT_RATE: &'static str =
    "?? ?? ?? ?? ?? ?? 48 8B 07 48 85 C0 74 ?? 48 89 C7 BE A2 0F 00 00 31 C0 E8";

proof fn lemma_sig_web_rtc_opus_set_bit_rate()
    ensures
        sig::reads_as(SIG_WEB_RTC_OPUS_SET_BIT_RATE@, 25),
{
    reveal_strlit(
        "?? ?? ?? ?? ?? ?? 48 8B 07 48 85 C0 74 ?? 48 89 C7 BE A2 0F 00 00 31 C0 E8",
    );
    assert(sig::regular(SIG_WEB_RTC_OPUS_SET_BIT_RATE@, 25)) by {
        reveal_with_fuel(sig::regular_from, 26);
    }
    sig::lemma_regular(SIG_WEB_RTC_OPUS_SET_BIT_RATE@, 25);
}

/// `WebRtcOpus_SetBitRate`: central OPUS_SET_BITRATE lock.
///
/// Every bitrate change in the module funnels through this one wrapper around
/// `opus_encoder_ctl(OPUS_SET_BITRATE)`. Overwriting the value argument here
/// covers every caller at once. Anchored on the request constant 4002 so it
/// still resolves after the prologue has been overwritten.
pub open spec fn web_rtc_opus_set_bit_rate_model() -> SiteModel {
    SiteModel {
        name: "WebRtcOpus_SetBitRate"@,
        group: "bitrate"@,
        what: "central OPUS_SET_BITRATE lock"@,
        critical: false,
        absent_ok: None,
        expect: ExpectModel::One,
        symbols: seq!["WebRtcOpus_SetBitRate"@],
        entry: false,
        patterns: seq![(SIG_WEB_RTC_OPUS_SET_BIT_RATE@, 0int)],
        action: ActionModel::BitrateSetter,
        stock: seq![0x55u8, 0x48u8, 0x89u8, 0xE5u8, 0x89u8, 0xF2u8],
        expect_orig: seq![seq![0x55u8, 0x48u8, 0x89u8, 0xE5u8, 0x89u8, 0xF2u8], PINNED@],
    }
}

pub fn web_rtc_opus_set_bit_rate() -> (res: &'static Site)
    ensures
        res@ == web_rtc_opus_set_bit_rate_model(),
{
    let site: &'static Site = &Site {
        name: "WebRtcOpus_SetBitRate",
        group: "bitrate",
        what: "central OPUS_SET_BITRATE lock",
        critical: false,
        absent_ok: None,
        expect: Expect::One,
        symbols: &["WebRtcOpus_SetBitRate"],
        entry: false,
        patterns: &[(SIG_WEB_RTC_OPUS_SET_BIT_RATE, 0)],
        action: Action::BitrateSetter,
        stock: &[0x55, 0x48, 0x89, 0xE5, 0x89, 0xF2],
        expect_orig: &[&[0x55, 0x48, 0x89, 0xE5, 0x89, 0xF2], &PINNED],
    };
    assert(site@ =~~= web_rtc_opus_set_bit_rate_model());
    site
}

pub proof fn lemma_web_rtc_opus_set_bit_rate_reads()
    ensures
        sites::patterns_valid(web_rtc_opus_set_bit_rate_model()),
        sites::symbols_plain(web_rtc_opus_set_bit_rate_model()),
{
    lemma_sig_web_rtc_opus_set_bit_rate();
    reveal_strlit("WebRtcOpus_SetBitRate");
    assert(text::ascii_from("WebRtcOpus_SetBitRate"@, 0)) by {
        reveal_with_fuel(text::ascii_from, 12);
    }
    text::lemma_ascii("WebRtcOpus_SetBitRate"@);
}

/// `OpusConfig_Application`: OPUS_APPLICATION_AUDIO instead of VOIP.
///
/// `application` is the int at offset 0x10 of AudioEncoderOpusConfig, written
/// as the low half of the same `movabs` that carries the default bitrate in its
/// high half. `WebRtcOpus_EncoderCreate` maps 0 to OPUS_APPLICATION_VOIP (2048)
/// and 1 to OPUS_APPLICATION_AUDIO (2049).
///
/// Not the byte at 0x18, which is four bytes further along and looks like a
/// mode flag but is the engaged flag of the `std::optional<int> bitrate_bps`
/// that starts at 0x14 — stock 1, so writing 1 there changes nothing and leaves
/// the encoder in VOIP mode. The field order is frame_size_ms(0x00),
/// sample_rate_hz(0x04), num_channels(0x08), application(0x10), bitrate
/// value(0x14), bitrate engaged(0x18); `IsOk` reading `cmpb $1, 0x18(%rdi)` as
/// its "has a bitrate" test is the cheapest confirmation of that layout.
pub open spec fn opus_config_application_model() -> SiteModel {
    SiteModel {
        name: "OpusConfig_Application"@,
        group: "opus"@,
        what: "OPUS_APPLICATION_AUDIO instead of VOIP"@,
        critical: false,
        absent_ok: None,
        expect: ExpectModel::One,
        symbols: seq![SYM_OPUS_CONFIG_CTOR@],
        entry: false,
        patterns: seq![(OPUS_CONFIG_CTOR@, 27int), (OPUS_CONFIG_CTOR_INLINED@, 30int)],
        action: ActionModel::Bytes(seq![0x01u8]),
        stock: seq![0x00u8],
        expect_orig: seq![seq![0x00u8], seq![0x01u8]],
    }
}

pub fn opus_config_application() -> (res: &'static Site)
    ensures
        res@ == opus_config_application_model(),
{
    let site: &'static Site = &Site {
        name: "OpusConfig_Application",
        group: "opus",
        what: "OPUS_APPLICATION_AUDIO instead of VOIP",
        critical: false,
        absent_ok: None,
        expect: Expect::One,
        symbols: &[SYM_OPUS_CONFIG_CTOR],
        entry: false,
        patterns: &[(OPUS_CONFIG_CTOR, 27), (OPUS_CONFIG_CTOR_INLINED, 30)],
        action: Action::Bytes(&[0x01]),
        stock: &[0x00],
        expect_orig: &[&[0x00], &[0x01]],
    };
    assert(site@ =~~= opus_config_application_model());
    site
}

pub proof fn lemma_opus_config_application_reads()
    ensures
        sites::patterns_valid(opus_config_application_model()),
        sites::symbols_plain(opus_config_application_model()),
{
    signatures::lemma_opus_config_ctor();
    signatures::lemma_opus_config_ctor_inlined();
    signatures::lemma_sym_opus_config_ctor();
}

pub const SIG_OPUS_CONFIG_IS_OK: &'static str =
    "55 48 89 E5 8B 0F 31 C0 85 C9 7E ?? BA CD CC CC CC 48 89 CE 48 0F AF F2";

proof fn lemma_sig_opus_config_is_ok()
    ensures
        sig::reads_as(SIG_OPUS_CONFIG_IS_OK@, 24),
{
    reveal_strlit(
        "55 48 89 E5 8B 0F 31 C0 85 C9 7E ?? BA CD CC CC CC 48 89 CE 48 0F AF F2",
    );
    assert(sig::regular(SIG_OPUS_CONFIG_IS_OK@, 24)) by {
        reveal_with_fuel(sig::regular_from, 25);
    }
    sig::lemma_regular(SIG_OPUS_CONFIG_IS_OK@, 24);
}

/// `OpusConfig_IsOk`: config validation always accepts.
///
/// Otherwise the 248 kbps / 2 channel / 10 ms combination is rejected before it
/// reaches the encoder.
pub open spec fn opus_config_is_ok_model() -> SiteModel {
    SiteModel {
        name: "OpusConfig_IsOk"@,
        group: "opus"@,
        what: "config validation always accepts"@,
        critical: true,
        absent_ok: None,
        expect: ExpectModel::One,
        symbols: seq![SYM_OPUS_CONFIG_ISOK@],
        entry: true,
        patterns: seq![(SIG_OPUS_CONFIG_IS_OK@, 0int)],
        action: ActionModel::Bytes(RETURN_TRUE@),
        stock: seq![],
        expect_orig: seq![seq![0x55u8, 0x48u8, 0x89u8, 0xE5u8, 0x8Bu8, 0x0Fu8, 0x31u8, 0xC0u8], RETURN_TRUE@],
    }
}

pub fn opus_config_is_ok() -> (res: &'static Site)
    ensures
        res@ == opus_config_is_ok_model(),
{
    let site: &'static Site = &Site {
        name: "OpusConfig_IsOk",
        group: "opus",
        what: "config validation always accepts",
        critical: true,
        absent_ok: None,
        expect: Expect::One,
        symbols: &[SYM_OPUS_CONFIG_ISOK],
        entry: true,
        patterns: &[(SIG_OPUS_CONFIG_IS_OK, 0)],
        action: Action::Bytes(&RETURN_TRUE),
        stock: &[],
        expect_orig: &[&[0x55, 0x48, 0x89, 0xE5, 0x8B, 0x0F, 0x31, 0xC0], &RETURN_TRUE],
    };
    assert(site@ =~~= opus_config_is_ok_model());
    site
}

pub proof fn lemma_opus_config_is_ok_reads()
    ensures
        sites::patterns_valid(opus_config_is_ok_model()),
        sites::symbols_plain(opus_config_is_ok_model()),
{
    lemma_sig_opus_config_is_ok();
    signatures::lemma_sym_opus_config_isok();
}

} // verus!

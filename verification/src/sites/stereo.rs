//! What decides mono versus stereo, and the capture sample rate.

use crate::sig;
use crate::sites;
use crate::text;
use crate::sites::signatures;
use crate::sites::signatures::{
    FORCE_TWO_CHANNELS, MULTICHANNEL_CTOR, NOP12_JMP, NOP2, OPUS_CONFIG_CTOR,
    OPUS_CONFIG_CTOR_INLINED, RET, SR_48K, SYM_CAPTURED_AUDIO_PROCESS,
    SYM_CHANNEL_MAKE_DECISION, SYM_CREATE_AUDIO_FRAME, SYM_MULTICHANNEL_CTOR,
    SYM_OPUS_CONFIG_CTOR,
};
use crate::sites::{
    Absent, AbsentModel, Action, ActionModel, Expect, ExpectModel, Site, SiteModel,
};
use vstd::prelude::*;

verus! {

pub const SIG_COMMIT_AUDIO_CODEC_STEREO_CHECK: &'static str =
    "83 BB F0 00 00 00 ?? 48 8D 05 ?? ?? ?? ?? 48 8D 15 ?? ?? ?? ?? 48 0F 43 D0";

proof fn lemma_sig_commit_audio_codec_stereo_check()
    ensures
        sig::reads_as(SIG_COMMIT_AUDIO_CODEC_STEREO_CHECK@, 25),
{
    reveal_strlit(
        "83 BB F0 00 00 00 ?? 48 8D 05 ?? ?? ?? ?? 48 8D 15 ?? ?? ?? ?? 48 0F 43 D0",
    );
    assert(sig::regular(SIG_COMMIT_AUDIO_CODEC_STEREO_CHECK@, 25)) by {
        reveal_with_fuel(sig::regular_from, 26);
    }
    sig::lemma_regular(SIG_COMMIT_AUDIO_CODEC_STEREO_CHECK@, 25);
}

/// `CommitAudioCodec_StereoCheck`: SDP fmtp stereo=1 (both codec commit paths).
///
/// `cmp dword [rbx+0xF0], 2` selects between the strings "1" and "0" via
/// `cmovae`. Comparing against 0 instead makes the branch always taken, so the
/// offer always advertises stereo.
pub open spec fn commit_audio_codec_stereo_check_model() -> SiteModel {
    SiteModel {
        name: "CommitAudioCodec_StereoCheck"@,
        group: "stereo"@,
        what: "SDP fmtp stereo=1 (both codec commit paths)"@,
        critical: true,
        absent_ok: None,
        expect: ExpectModel::All(2),
        symbols: seq![],
        entry: false,
        patterns: seq![(SIG_COMMIT_AUDIO_CODEC_STEREO_CHECK@, 6int)],
        action: ActionModel::Bytes(seq![0x00u8]),
        stock: seq![0x02u8],
        expect_orig: seq![seq![0x02u8], seq![0x00u8]],
    }
}

pub fn commit_audio_codec_stereo_check() -> (res: &'static Site)
    ensures
        res@ == commit_audio_codec_stereo_check_model(),
{
    let site: &'static Site = &Site {
        name: "CommitAudioCodec_StereoCheck",
        group: "stereo",
        what: "SDP fmtp stereo=1 (both codec commit paths)",
        critical: true,
        absent_ok: None,
        expect: Expect::All(2),
        symbols: &[],
        entry: false,
        patterns: &[(SIG_COMMIT_AUDIO_CODEC_STEREO_CHECK, 6)],
        action: Action::Bytes(&[0x00]),
        stock: &[0x02],
        expect_orig: &[&[0x02], &[0x00]],
    };
    assert(site@ =~~= commit_audio_codec_stereo_check_model());
    site
}

pub proof fn lemma_commit_audio_codec_stereo_check_reads()
    ensures
        sites::patterns_valid(commit_audio_codec_stereo_check_model()),
        sites::symbols_plain(commit_audio_codec_stereo_check_model()),
{
    lemma_sig_commit_audio_codec_stereo_check();
}

pub const SIG_CREATE_AUDIO_FRAME_CHANNELS_A: &'static str =
    "49 39 C4 4C 0F 43 E0 4D 89 66 28";

proof fn lemma_sig_create_audio_frame_channels_a()
    ensures
        sig::reads_as(SIG_CREATE_AUDIO_FRAME_CHANNELS_A@, 11),
{
    reveal_strlit(
        "49 39 C4 4C 0F 43 E0 4D 89 66 28",
    );
    assert(sig::regular(SIG_CREATE_AUDIO_FRAME_CHANNELS_A@, 11)) by {
        reveal_with_fuel(sig::regular_from, 12);
    }
    sig::lemma_regular(SIG_CREATE_AUDIO_FRAME_CHANNELS_A@, 11);
}

pub const SIG_CREATE_AUDIO_FRAME_CHANNELS_B: &'static str =
    "49 39 D4 4C 0F 43 E2 C1 E9 02 69 C9 7B 14 00 00";

proof fn lemma_sig_create_audio_frame_channels_b()
    ensures
        sig::reads_as(SIG_CREATE_AUDIO_FRAME_CHANNELS_B@, 16),
{
    reveal_strlit(
        "49 39 D4 4C 0F 43 E2 C1 E9 02 69 C9 7B 14 00 00",
    );
    assert(sig::regular(SIG_CREATE_AUDIO_FRAME_CHANNELS_B@, 16)) by {
        reveal_with_fuel(sig::regular_from, 17);
    }
    sig::lemma_regular(SIG_CREATE_AUDIO_FRAME_CHANNELS_B@, 16);
}

/// `CreateAudioFrame_Channels`: capture frame channel count pinned to 2.
///
/// `cmp r12, rN` / `cmovae r12, rN` clamps the channel count down to whatever
/// the device reports. Replaced with `mov r12, 2`.
pub open spec fn create_audio_frame_channels_model() -> SiteModel {
    SiteModel {
        name: "CreateAudioFrame_Channels"@,
        group: "stereo"@,
        what: "capture frame channel count pinned to 2"@,
        critical: true,
        absent_ok: None,
        expect: ExpectModel::NearestAfter { anchor: "SelectSampleRate_48k"@, window: 0x60 },
        symbols: seq![SYM_CREATE_AUDIO_FRAME@],
        entry: false,
        patterns: seq![(SIG_CREATE_AUDIO_FRAME_CHANNELS_A@, 0int), (SIG_CREATE_AUDIO_FRAME_CHANNELS_B@, 0int)],
        action: ActionModel::Bytes(FORCE_TWO_CHANNELS@),
        stock: seq![],
        expect_orig: seq![seq![0x49u8, 0x39u8, 0xC4u8, 0x4Cu8, 0x0Fu8, 0x43u8, 0xE0u8], seq![0x49u8, 0x39u8, 0xD4u8, 0x4Cu8, 0x0Fu8, 0x43u8, 0xE2u8], FORCE_TWO_CHANNELS@],
    }
}

pub fn create_audio_frame_channels() -> (res: &'static Site)
    ensures
        res@ == create_audio_frame_channels_model(),
{
    let site: &'static Site = &Site {
        name: "CreateAudioFrame_Channels",
        group: "stereo",
        what: "capture frame channel count pinned to 2",
        critical: true,
        absent_ok: None,
        expect: Expect::NearestAfter { anchor: "SelectSampleRate_48k", window: 0x60 },
        symbols: &[SYM_CREATE_AUDIO_FRAME],
        entry: false,
        patterns: &[(SIG_CREATE_AUDIO_FRAME_CHANNELS_A, 0), (SIG_CREATE_AUDIO_FRAME_CHANNELS_B, 0)],
        action: Action::Bytes(&FORCE_TWO_CHANNELS),
        stock: &[],
        expect_orig: &[&[0x49, 0x39, 0xC4, 0x4C, 0x0F, 0x43, 0xE0], &[0x49, 0x39, 0xD4, 0x4C, 0x0F, 0x43, 0xE2], &FORCE_TWO_CHANNELS],
    };
    assert(site@ =~~= create_audio_frame_channels_model());
    site
}

pub proof fn lemma_create_audio_frame_channels_reads()
    ensures
        sites::patterns_valid(create_audio_frame_channels_model()),
        sites::symbols_plain(create_audio_frame_channels_model()),
{
    lemma_sig_create_audio_frame_channels_a();
    lemma_sig_create_audio_frame_channels_b();
    signatures::lemma_sym_create_audio_frame();
}

pub const SIG_MONO_DOWNMIX_BYPASS_A: &'static str =
    "4C 89 F7 E8 ?? ?? ?? ?? 84 C0 74 0D 83 BB ?? ?? ?? ?? 09 0F 8F";

proof fn lemma_sig_mono_downmix_bypass_a()
    ensures
        sig::reads_as(SIG_MONO_DOWNMIX_BYPASS_A@, 21),
{
    reveal_strlit(
        "4C 89 F7 E8 ?? ?? ?? ?? 84 C0 74 0D 83 BB ?? ?? ?? ?? 09 0F 8F",
    );
    assert(sig::regular(SIG_MONO_DOWNMIX_BYPASS_A@, 21)) by {
        reveal_with_fuel(sig::regular_from, 22);
    }
    sig::lemma_regular(SIG_MONO_DOWNMIX_BYPASS_A@, 21);
}

pub const SIG_MONO_DOWNMIX_BYPASS_B: &'static str =
    "4C 89 FF E8 ?? ?? ?? ?? 84 C0 74 0D 83 BB ?? ?? ?? ?? 09 0F 8F";

proof fn lemma_sig_mono_downmix_bypass_b()
    ensures
        sig::reads_as(SIG_MONO_DOWNMIX_BYPASS_B@, 21),
{
    reveal_strlit(
        "4C 89 FF E8 ?? ?? ?? ?? 84 C0 74 0D 83 BB ?? ?? ?? ?? 09 0F 8F",
    );
    assert(sig::regular(SIG_MONO_DOWNMIX_BYPASS_B@, 21)) by {
        reveal_with_fuel(sig::regular_from, 22);
    }
    sig::lemma_regular(SIG_MONO_DOWNMIX_BYPASS_B@, 21);
}

/// `MonoDownmix_Bypass`: skip the capture-side mono downmix.
///
/// `Process` guards two blocks with the same `muted() && type > 9` test; the
/// downmix is the second, told apart by its `je 0x0d` and near `jg` where the
/// first has `je 0x09` and a short one. Which register holds the frame pointer
/// moved from r14 to r15 in 1.0.157, so the call setup is carried in both
/// encodings. Only the leading opcodes are fixed; the `cmp` displacement moves
/// between builds, so the check is a prefix rather than the full run.
pub open spec fn mono_downmix_bypass_model() -> SiteModel {
    SiteModel {
        name: "MonoDownmix_Bypass"@,
        group: "stereo"@,
        what: "skip the capture-side mono downmix"@,
        critical: true,
        absent_ok: None,
        expect: ExpectModel::One,
        symbols: seq![SYM_CAPTURED_AUDIO_PROCESS@],
        entry: false,
        patterns: seq![(SIG_MONO_DOWNMIX_BYPASS_A@, 8int), (SIG_MONO_DOWNMIX_BYPASS_B@, 8int)],
        action: ActionModel::Bytes(NOP12_JMP@),
        stock: seq![],
        expect_orig: seq![seq![0x84u8, 0xC0u8, 0x74u8, 0x0Du8, 0x83u8, 0xBBu8], NOP12_JMP@],
    }
}

pub fn mono_downmix_bypass() -> (res: &'static Site)
    ensures
        res@ == mono_downmix_bypass_model(),
{
    let site: &'static Site = &Site {
        name: "MonoDownmix_Bypass",
        group: "stereo",
        what: "skip the capture-side mono downmix",
        critical: true,
        absent_ok: None,
        expect: Expect::One,
        symbols: &[SYM_CAPTURED_AUDIO_PROCESS],
        entry: false,
        patterns: &[(SIG_MONO_DOWNMIX_BYPASS_A, 8), (SIG_MONO_DOWNMIX_BYPASS_B, 8)],
        action: Action::Bytes(&NOP12_JMP),
        stock: &[],
        expect_orig: &[&[0x84, 0xC0, 0x74, 0x0D, 0x83, 0xBB], &NOP12_JMP],
    };
    assert(site@ =~~= mono_downmix_bypass_model());
    site
}

pub proof fn lemma_mono_downmix_bypass_reads()
    ensures
        sites::patterns_valid(mono_downmix_bypass_model()),
        sites::symbols_plain(mono_downmix_bypass_model()),
{
    lemma_sig_mono_downmix_bypass_a();
    lemma_sig_mono_downmix_bypass_b();
    signatures::lemma_sym_captured_audio_process();
}

pub const SIG_CHANNEL_DOWNMIX_ENTRY: &'static str =
    "55 48 89 E5 41 57 41 56 41 55 41 54 53 48 83 EC 28 64 48 8B 04 25 28 00 00 00 48 89 45 D0 0F 57";

proof fn lemma_sig_channel_downmix_entry()
    ensures
        sig::reads_as(SIG_CHANNEL_DOWNMIX_ENTRY@, 32),
{
    reveal_strlit(
        "55 48 89 E5 41 57 41 56 41 55 41 54 53 48 83 EC 28 64 48 8B 04 25 28 00 00 00 48 89 45 D0 0F 57",
    );
    assert(sig::regular(SIG_CHANNEL_DOWNMIX_ENTRY@, 32)) by {
        reveal_with_fuel(sig::regular_from, 33);
    }
    sig::lemma_regular(SIG_CHANNEL_DOWNMIX_ENTRY@, 32);
}

/// `ChannelDownmix_Entry`: channel downmix helper returns immediately.
pub open spec fn channel_downmix_entry_model() -> SiteModel {
    SiteModel {
        name: "ChannelDownmix_Entry"@,
        group: "stereo"@,
        what: "channel downmix helper returns immediately"@,
        critical: true,
        absent_ok: None,
        expect: ExpectModel::One,
        symbols: seq!["downmix_and_resample"@],
        entry: true,
        patterns: seq![(SIG_CHANNEL_DOWNMIX_ENTRY@, 0int)],
        action: ActionModel::Bytes(RET@),
        stock: seq![],
        expect_orig: seq![seq![0x55u8], RET@],
    }
}

pub fn channel_downmix_entry() -> (res: &'static Site)
    ensures
        res@ == channel_downmix_entry_model(),
{
    let site: &'static Site = &Site {
        name: "ChannelDownmix_Entry",
        group: "stereo",
        what: "channel downmix helper returns immediately",
        critical: true,
        absent_ok: None,
        expect: Expect::One,
        symbols: &["downmix_and_resample"],
        entry: true,
        patterns: &[(SIG_CHANNEL_DOWNMIX_ENTRY, 0)],
        action: Action::Bytes(&RET),
        stock: &[],
        expect_orig: &[&[0x55], &RET],
    };
    assert(site@ =~~= channel_downmix_entry_model());
    site
}

pub proof fn lemma_channel_downmix_entry_reads()
    ensures
        sites::patterns_valid(channel_downmix_entry_model()),
        sites::symbols_plain(channel_downmix_entry_model()),
{
    lemma_sig_channel_downmix_entry();
    reveal_strlit("downmix_and_resample");
    assert(text::ascii_from("downmix_and_resample"@, 0)) by {
        reveal_with_fuel(text::ascii_from, 12);
    }
    text::lemma_ascii("downmix_and_resample"@);
}

/// `OpusConfig_Channels`: AudioEncoderOpusConfig::num_channels = 2.
pub open spec fn opus_config_channels_model() -> SiteModel {
    SiteModel {
        name: "OpusConfig_Channels"@,
        group: "stereo"@,
        what: "AudioEncoderOpusConfig::num_channels = 2"@,
        critical: true,
        absent_ok: None,
        expect: ExpectModel::One,
        symbols: seq![SYM_OPUS_CONFIG_CTOR@],
        entry: false,
        patterns: seq![(OPUS_CONFIG_CTOR@, 21int), (OPUS_CONFIG_CTOR_INLINED@, 24int)],
        action: ActionModel::Bytes(seq![0x02u8]),
        stock: seq![0x01u8],
        expect_orig: seq![seq![0x01u8], seq![0x02u8]],
    }
}

pub fn opus_config_channels() -> (res: &'static Site)
    ensures
        res@ == opus_config_channels_model(),
{
    let site: &'static Site = &Site {
        name: "OpusConfig_Channels",
        group: "stereo",
        what: "AudioEncoderOpusConfig::num_channels = 2",
        critical: true,
        absent_ok: None,
        expect: Expect::One,
        symbols: &[SYM_OPUS_CONFIG_CTOR],
        entry: false,
        patterns: &[(OPUS_CONFIG_CTOR, 21), (OPUS_CONFIG_CTOR_INLINED, 24)],
        action: Action::Bytes(&[0x02]),
        stock: &[0x01],
        expect_orig: &[&[0x01], &[0x02]],
    };
    assert(site@ =~~= opus_config_channels_model());
    site
}

pub proof fn lemma_opus_config_channels_reads()
    ensures
        sites::patterns_valid(opus_config_channels_model()),
        sites::symbols_plain(opus_config_channels_model()),
{
    signatures::lemma_opus_config_ctor();
    signatures::lemma_opus_config_ctor_inlined();
    signatures::lemma_sym_opus_config_ctor();
}

pub const NOTE_MULTI_CHANNEL_CONFIG_CHANNELS: &'static str =
    "multi-channel (surround) Opus config, not used for stereo voice; newer builds derive the channel count from the SDP rather than from a constant, so there is no immediate to patch";

/// `MultiChannelConfig_Channels`:
/// AudioEncoderMultiChannelOpusConfig::num_channels = 2.
pub open spec fn multi_channel_config_channels_model() -> SiteModel {
    SiteModel {
        name: "MultiChannelConfig_Channels"@,
        group: "stereo"@,
        what: "AudioEncoderMultiChannelOpusConfig::num_channels = 2"@,
        critical: false,
        absent_ok: Some(AbsentModel { covered_by: None, note: NOTE_MULTI_CHANNEL_CONFIG_CHANNELS@ }),
        expect: ExpectModel::One,
        symbols: seq![SYM_MULTICHANNEL_CTOR@],
        entry: false,
        patterns: seq![(MULTICHANNEL_CTOR@, 14int)],
        action: ActionModel::Bytes(seq![0x02u8]),
        stock: seq![0x01u8],
        expect_orig: seq![seq![0x01u8], seq![0x02u8]],
    }
}

pub fn multi_channel_config_channels() -> (res: &'static Site)
    ensures
        res@ == multi_channel_config_channels_model(),
{
    let site: &'static Site = &Site {
        name: "MultiChannelConfig_Channels",
        group: "stereo",
        what: "AudioEncoderMultiChannelOpusConfig::num_channels = 2",
        critical: false,
        absent_ok: Some(Absent { covered_by: None, note: NOTE_MULTI_CHANNEL_CONFIG_CHANNELS }),
        expect: Expect::One,
        symbols: &[SYM_MULTICHANNEL_CTOR],
        entry: false,
        patterns: &[(MULTICHANNEL_CTOR, 14)],
        action: Action::Bytes(&[0x02]),
        stock: &[0x01],
        expect_orig: &[&[0x01], &[0x02]],
    };
    assert(site@ =~~= multi_channel_config_channels_model());
    site
}

pub proof fn lemma_multi_channel_config_channels_reads()
    ensures
        sites::patterns_valid(multi_channel_config_channels_model()),
        sites::symbols_plain(multi_channel_config_channels_model()),
{
    signatures::lemma_multichannel_ctor();
    signatures::lemma_sym_multichannel_ctor();
}

pub const SIG_CHANNEL_CONTROLLER_FORCE_STEREO: &'static str =
    "48 8B 47 20 80 7F 2C 01 75 45 48 83 F8 01 74 1A 48 83 F8 02 75 39 8B 57 28 B9 01 00 00 00 B8 02 00 00 00 3B 57 1C ?? ?? EB 25";

proof fn lemma_sig_channel_controller_force_stereo()
    ensures
        sig::reads_as(SIG_CHANNEL_CONTROLLER_FORCE_STEREO@, 42),
{
    reveal_strlit(
        "48 8B 47 20 80 7F 2C 01 75 45 48 83 F8 01 74 1A 48 83 F8 02 75 39 8B 57 28 B9 01 00 00 00 B8 02 00 00 00 3B 57 1C ?? ?? EB 25",
    );
    assert(sig::regular(SIG_CHANNEL_CONTROLLER_FORCE_STEREO@, 42)) by {
        reveal_with_fuel(sig::regular_from, 43);
    }
    sig::lemma_regular(SIG_CHANNEL_CONTROLLER_FORCE_STEREO@, 42);
}

pub const NOTE_CHANNEL_CONTROLLER_FORCE_STEREO: &'static str =
    "no ChannelController in this build; MakeDecision is virtual and so cannot be inlined away, and with neither the symbol nor the signature present the network adaptor has no channel arm to downgrade with";

/// `ChannelController_ForceStereo`: network adaptor cannot drop the encoder to
/// mono mid-call.
///
/// The one site here that acts during a call rather than before it.
///
/// When signalling supplies an `audio_network_adaptor_config` that names a
/// ChannelController, `ChannelController::MakeDecision` is polled with the
/// current uplink estimate. With two channels in flight it compares that
/// estimate against `channel_2_to_1_bandwidth_bps` and, when the estimate is at
/// or below it, commits one channel. The decision reaches the encoder as
/// `opus_encoder_ctl(OPUS_SET_FORCE_CHANNELS, 1)`, and libopus then folds the
/// two channels to (L+R)/2 internally. Nothing else in this catalogue covers
/// that: the offer still carries stereo=1 and the encoder still holds two
/// channels, the adaptor has simply stopped using the second one.
///
/// The edit is two `nop`s over the `jle` that commits the downgrade, leaving
/// the `jmp` beneath it to exit with the count unchanged at 2. Deliberately not
/// a pin of the written value: `OPUS_SET_FORCE_CHANNELS` rejects a count above
/// the encoder's own channel count, and its caller treats that rejection as a
/// fatal check. Removing only the downgrade leaves the upgrade path's `min(2,
/// num_encoder_channels)` clamp intact, so on a build where the encoder really
/// is mono this site changes nothing rather than aborting the client. Byte-
/// identical in every build seen so far, so the only wildcards are the two
/// bytes being patched — which lets the site resolve on an already-patched
/// module and act as a sentinel.
pub open spec fn channel_controller_force_stereo_model() -> SiteModel {
    SiteModel {
        name: "ChannelController_ForceStereo"@,
        group: "stereo"@,
        what: "network adaptor cannot drop the encoder to mono mid-call"@,
        critical: false,
        absent_ok: Some(AbsentModel { covered_by: None, note: NOTE_CHANNEL_CONTROLLER_FORCE_STEREO@ }),
        expect: ExpectModel::One,
        symbols: seq![SYM_CHANNEL_MAKE_DECISION@],
        entry: false,
        patterns: seq![(SIG_CHANNEL_CONTROLLER_FORCE_STEREO@, 38int)],
        action: ActionModel::Bytes(NOP2@),
        stock: seq![0x7Eu8, 0x20u8],
        expect_orig: seq![seq![0x7Eu8, 0x20u8], NOP2@],
    }
}

pub fn channel_controller_force_stereo() -> (res: &'static Site)
    ensures
        res@ == channel_controller_force_stereo_model(),
{
    let site: &'static Site = &Site {
        name: "ChannelController_ForceStereo",
        group: "stereo",
        what: "network adaptor cannot drop the encoder to mono mid-call",
        critical: false,
        absent_ok: Some(Absent { covered_by: None, note: NOTE_CHANNEL_CONTROLLER_FORCE_STEREO }),
        expect: Expect::One,
        symbols: &[SYM_CHANNEL_MAKE_DECISION],
        entry: false,
        patterns: &[(SIG_CHANNEL_CONTROLLER_FORCE_STEREO, 38)],
        action: Action::Bytes(&NOP2),
        stock: &[0x7E, 0x20],
        expect_orig: &[&[0x7E, 0x20], &NOP2],
    };
    assert(site@ =~~= channel_controller_force_stereo_model());
    site
}

pub proof fn lemma_channel_controller_force_stereo_reads()
    ensures
        sites::patterns_valid(channel_controller_force_stereo_model()),
        sites::symbols_plain(channel_controller_force_stereo_model()),
{
    lemma_sig_channel_controller_force_stereo();
    signatures::lemma_sym_channel_make_decision();
}

pub const SIG_SELECT_SAMPLE_RATE_48K_A: &'static str =
    "41 81 FF 01 7D 00 00 B8 80 BB 00 00 41 BD ?? ?? ?? ?? 44 0F 43 E8";

proof fn lemma_sig_select_sample_rate_48k_a()
    ensures
        sig::reads_as(SIG_SELECT_SAMPLE_RATE_48K_A@, 22),
{
    reveal_strlit(
        "41 81 FF 01 7D 00 00 B8 80 BB 00 00 41 BD ?? ?? ?? ?? 44 0F 43 E8",
    );
    assert(sig::regular(SIG_SELECT_SAMPLE_RATE_48K_A@, 22)) by {
        reveal_with_fuel(sig::regular_from, 23);
    }
    sig::lemma_regular(SIG_SELECT_SAMPLE_RATE_48K_A@, 22);
}

pub const SIG_SELECT_SAMPLE_RATE_48K_B: &'static str =
    "41 81 FF 01 7D 00 00 BA 80 BB 00 00 B9 ?? ?? ?? ?? 0F 43 CA";

proof fn lemma_sig_select_sample_rate_48k_b()
    ensures
        sig::reads_as(SIG_SELECT_SAMPLE_RATE_48K_B@, 20),
{
    reveal_strlit(
        "41 81 FF 01 7D 00 00 BA 80 BB 00 00 B9 ?? ?? ?? ?? 0F 43 CA",
    );
    assert(sig::regular(SIG_SELECT_SAMPLE_RATE_48K_B@, 20)) by {
        reveal_with_fuel(sig::regular_from, 21);
    }
    sig::lemma_regular(SIG_SELECT_SAMPLE_RATE_48K_B@, 20);
}

/// `SelectSampleRate_48k`: 48 kHz on both sides of the rate selection.
///
/// The selection is `>= 32001 ? 48000 : 32000`; raising the fallback to 48000
/// makes both arms agree. The two encodings differ only in which registers the
/// build happened to allocate.
pub open spec fn select_sample_rate_48k_model() -> SiteModel {
    SiteModel {
        name: "SelectSampleRate_48k"@,
        group: "samplerate"@,
        what: "48 kHz on both sides of the rate selection"@,
        critical: true,
        absent_ok: None,
        expect: ExpectModel::One,
        symbols: seq![SYM_CREATE_AUDIO_FRAME@],
        entry: false,
        patterns: seq![(SIG_SELECT_SAMPLE_RATE_48K_A@, 14int), (SIG_SELECT_SAMPLE_RATE_48K_B@, 13int)],
        action: ActionModel::Bytes(SR_48K@),
        stock: seq![0x00u8, 0x7Du8, 0x00u8, 0x00u8],
        expect_orig: seq![seq![0x00u8, 0x7Du8, 0x00u8, 0x00u8], SR_48K@],
    }
}

pub fn select_sample_rate_48k() -> (res: &'static Site)
    ensures
        res@ == select_sample_rate_48k_model(),
{
    let site: &'static Site = &Site {
        name: "SelectSampleRate_48k",
        group: "samplerate",
        what: "48 kHz on both sides of the rate selection",
        critical: true,
        absent_ok: None,
        expect: Expect::One,
        symbols: &[SYM_CREATE_AUDIO_FRAME],
        entry: false,
        patterns: &[(SIG_SELECT_SAMPLE_RATE_48K_A, 14), (SIG_SELECT_SAMPLE_RATE_48K_B, 13)],
        action: Action::Bytes(&SR_48K),
        stock: &[0x00, 0x7D, 0x00, 0x00],
        expect_orig: &[&[0x00, 0x7D, 0x00, 0x00], &SR_48K],
    };
    assert(site@ =~~= select_sample_rate_48k_model());
    site
}

pub proof fn lemma_select_sample_rate_48k_reads()
    ensures
        sites::patterns_valid(select_sample_rate_48k_model()),
        sites::symbols_plain(select_sample_rate_48k_model()),
{
    lemma_sig_select_sample_rate_48k_a();
    lemma_sig_select_sample_rate_48k_b();
    signatures::lemma_sym_create_audio_frame();
}

} // verus!

//! Symbol names, shared signatures and replacement bytes.
//!
//! Mangled names have been stable across the builds seen so far. The two Opus
//! config constructors are the exception: 1.0.155 inlines both, so those sites
//! carry a signature for the inlined form alongside the symbol.

use crate::sig;
use crate::text;
use vstd::prelude::*;

verus! {

pub const SYM_CREATE_AUDIO_FRAME: &'static str =
    "_ZN7discord5media20EngineAudioTransport25CreateAudioFrameToProcessERKNS0_15AudioStreamTypeEPKvRKmS8_S8_";

pub proof fn lemma_sym_create_audio_frame()
    ensures
        vstd::utf8::is_ascii_chars(SYM_CREATE_AUDIO_FRAME@),
{
    reveal_strlit(
        "_ZN7discord5media20EngineAudioTransport25CreateAudioFrameToProcessERKNS0_15AudioStreamTypeEPKvRKmS8_S8_",
    );
    assert(text::ascii_from(SYM_CREATE_AUDIO_FRAME@, 0)) by {
        reveal_with_fuel(text::ascii_from, 53);
    }
    text::lemma_ascii(SYM_CREATE_AUDIO_FRAME@);
}

pub const SYM_CAPTURED_AUDIO_PROCESS: &'static str =
    "_ZN7discord5media22CapturedAudioProcessor7ProcessENS0_15AudioStreamTypeEbjijbbRN6webrtc10AudioFrameE";

pub proof fn lemma_sym_captured_audio_process()
    ensures
        vstd::utf8::is_ascii_chars(SYM_CAPTURED_AUDIO_PROCESS@),
{
    reveal_strlit(
        "_ZN7discord5media22CapturedAudioProcessor7ProcessENS0_15AudioStreamTypeEbjijbbRN6webrtc10AudioFrameE",
    );
    assert(text::ascii_from(SYM_CAPTURED_AUDIO_PROCESS@, 0)) by {
        reveal_with_fuel(text::ascii_from, 52);
    }
    text::lemma_ascii(SYM_CAPTURED_AUDIO_PROCESS@);
}

pub const SYM_OPUS_CONFIG_CTOR: &'static str =
    "_ZN6webrtc22AudioEncoderOpusConfigC2Ev";

pub proof fn lemma_sym_opus_config_ctor()
    ensures
        vstd::utf8::is_ascii_chars(SYM_OPUS_CONFIG_CTOR@),
{
    reveal_strlit(
        "_ZN6webrtc22AudioEncoderOpusConfigC2Ev",
    );
    assert(text::ascii_from(SYM_OPUS_CONFIG_CTOR@, 0)) by {
        reveal_with_fuel(text::ascii_from, 21);
    }
    text::lemma_ascii(SYM_OPUS_CONFIG_CTOR@);
}

pub const SYM_MULTICHANNEL_CTOR: &'static str =
    "_ZN6webrtc34AudioEncoderMultiChannelOpusConfigC2Ev";

pub proof fn lemma_sym_multichannel_ctor()
    ensures
        vstd::utf8::is_ascii_chars(SYM_MULTICHANNEL_CTOR@),
{
    reveal_strlit(
        "_ZN6webrtc34AudioEncoderMultiChannelOpusConfigC2Ev",
    );
    assert(text::ascii_from(SYM_MULTICHANNEL_CTOR@, 0)) by {
        reveal_with_fuel(text::ascii_from, 27);
    }
    text::lemma_ascii(SYM_MULTICHANNEL_CTOR@);
}

pub const SYM_OPUS_CONFIG_ISOK: &'static str =
    "_ZNK6webrtc22AudioEncoderOpusConfig4IsOkEv";

pub proof fn lemma_sym_opus_config_isok()
    ensures
        vstd::utf8::is_ascii_chars(SYM_OPUS_CONFIG_ISOK@),
{
    reveal_strlit(
        "_ZNK6webrtc22AudioEncoderOpusConfig4IsOkEv",
    );
    assert(text::ascii_from(SYM_OPUS_CONFIG_ISOK@, 0)) by {
        reveal_with_fuel(text::ascii_from, 23);
    }
    text::lemma_ascii(SYM_OPUS_CONFIG_ISOK@);
}

pub const SYM_HIGHPASS_PROCESS: &'static str =
    "_ZN6webrtc14HighPassFilter7ProcessEPNS_11AudioBufferEb";

pub proof fn lemma_sym_highpass_process()
    ensures
        vstd::utf8::is_ascii_chars(SYM_HIGHPASS_PROCESS@),
{
    reveal_strlit(
        "_ZN6webrtc14HighPassFilter7ProcessEPNS_11AudioBufferEb",
    );
    assert(text::ascii_from(SYM_HIGHPASS_PROCESS@, 0)) by {
        reveal_with_fuel(text::ascii_from, 29);
    }
    text::lemma_ascii(SYM_HIGHPASS_PROCESS@);
}

pub const SYM_GAIN_CONTROLLER2: &'static str =
    "_ZN6webrtc15GainController27ProcessEbPNS_11AudioBufferE";

pub proof fn lemma_sym_gain_controller2()
    ensures
        vstd::utf8::is_ascii_chars(SYM_GAIN_CONTROLLER2@),
{
    reveal_strlit(
        "_ZN6webrtc15GainController27ProcessEbPNS_11AudioBufferE",
    );
    assert(text::ascii_from(SYM_GAIN_CONTROLLER2@, 0)) by {
        reveal_with_fuel(text::ascii_from, 29);
    }
    text::lemma_ascii(SYM_GAIN_CONTROLLER2@);
}

/// 1.0.153 took the analog level as a leading `optional<float>`. Same function,
/// still void, so the same `ret` applies.
pub const SYM_GAIN_CONTROLLER2_OLD: &'static str =
    "_ZN6webrtc15GainController27ProcessENSt4__Cr8optionalIfEEbPNS_11AudioBufferE";

pub proof fn lemma_sym_gain_controller2_old()
    ensures
        vstd::utf8::is_ascii_chars(SYM_GAIN_CONTROLLER2_OLD@),
{
    reveal_strlit(
        "_ZN6webrtc15GainController27ProcessENSt4__Cr8optionalIfEEbPNS_11AudioBufferE",
    );
    assert(text::ascii_from(SYM_GAIN_CONTROLLER2_OLD@, 0)) by {
        reveal_with_fuel(text::ascii_from, 40);
    }
    text::lemma_ascii(SYM_GAIN_CONTROLLER2_OLD@);
}

pub const SYM_AGC_PRE_PROCESS: &'static str =
    "_ZN6webrtc16AgcManagerDirect17AnalyzePreProcessERKNS_11AudioBufferE";

pub proof fn lemma_sym_agc_pre_process()
    ensures
        vstd::utf8::is_ascii_chars(SYM_AGC_PRE_PROCESS@),
{
    reveal_strlit(
        "_ZN6webrtc16AgcManagerDirect17AnalyzePreProcessERKNS_11AudioBufferE",
    );
    assert(text::ascii_from(SYM_AGC_PRE_PROCESS@, 0)) by {
        reveal_with_fuel(text::ascii_from, 35);
    }
    text::lemma_ascii(SYM_AGC_PRE_PROCESS@);
}

pub const SYM_AGC_DIGITAL_SETUP: &'static str =
    "_ZNK6webrtc16AgcManagerDirect23SetupDigitalGainControlERNS_11GainControlE";

pub proof fn lemma_sym_agc_digital_setup()
    ensures
        vstd::utf8::is_ascii_chars(SYM_AGC_DIGITAL_SETUP@),
{
    reveal_strlit(
        "_ZNK6webrtc16AgcManagerDirect23SetupDigitalGainControlERNS_11GainControlE",
    );
    assert(text::ascii_from(SYM_AGC_DIGITAL_SETUP@, 0)) by {
        reveal_with_fuel(text::ascii_from, 38);
    }
    text::lemma_ascii(SYM_AGC_DIGITAL_SETUP@);
}

pub const SYM_MONO_AGC_PROCESS: &'static str =
    "_ZN6webrtc7MonoAgc7ProcessENS_9ArrayViewIKsLln4711EEENSt4__Cr8optionalIiEE";

pub proof fn lemma_sym_mono_agc_process()
    ensures
        vstd::utf8::is_ascii_chars(SYM_MONO_AGC_PROCESS@),
{
    reveal_strlit(
        "_ZN6webrtc7MonoAgc7ProcessENS_9ArrayViewIKsLln4711EEENSt4__Cr8optionalIiEE",
    );
    assert(text::ascii_from(SYM_MONO_AGC_PROCESS@, 0)) by {
        reveal_with_fuel(text::ascii_from, 39);
    }
    text::lemma_ascii(SYM_MONO_AGC_PROCESS@);
}

/// Before `rtc::ArrayView` was folded into the `webrtc` namespace.
pub const SYM_MONO_AGC_PROCESS_OLD: &'static str =
    "_ZN6webrtc7MonoAgc7ProcessEN3rtc9ArrayViewIKsLln4711EEENSt4__Cr8optionalIiEE";

pub proof fn lemma_sym_mono_agc_process_old()
    ensures
        vstd::utf8::is_ascii_chars(SYM_MONO_AGC_PROCESS_OLD@),
{
    reveal_strlit(
        "_ZN6webrtc7MonoAgc7ProcessEN3rtc9ArrayViewIKsLln4711EEENSt4__Cr8optionalIiEE",
    );
    assert(text::ascii_from(SYM_MONO_AGC_PROCESS_OLD@, 0)) by {
        reveal_with_fuel(text::ascii_from, 40);
    }
    text::lemma_ascii(SYM_MONO_AGC_PROCESS_OLD@);
}

pub const SYM_MONO_AGC_CLIPPING: &'static str =
    "_ZN6webrtc7MonoAgc14HandleClippingEi";

pub proof fn lemma_sym_mono_agc_clipping()
    ensures
        vstd::utf8::is_ascii_chars(SYM_MONO_AGC_CLIPPING@),
{
    reveal_strlit(
        "_ZN6webrtc7MonoAgc14HandleClippingEi",
    );
    assert(text::ascii_from(SYM_MONO_AGC_CLIPPING@, 0)) by {
        reveal_with_fuel(text::ascii_from, 20);
    }
    text::lemma_ascii(SYM_MONO_AGC_CLIPPING@);
}

pub const SYM_MONO_AGC_UPDATE_GAIN: &'static str =
    "_ZN6webrtc7MonoAgc10UpdateGainEi";

pub proof fn lemma_sym_mono_agc_update_gain()
    ensures
        vstd::utf8::is_ascii_chars(SYM_MONO_AGC_UPDATE_GAIN@),
{
    reveal_strlit(
        "_ZN6webrtc7MonoAgc10UpdateGainEi",
    );
    assert(text::ascii_from(SYM_MONO_AGC_UPDATE_GAIN@, 0)) by {
        reveal_with_fuel(text::ascii_from, 18);
    }
    text::lemma_ascii(SYM_MONO_AGC_UPDATE_GAIN@);
}

pub const SYM_INPUT_VOLUME_ANALYZE: &'static str =
    "_ZN6webrtc21InputVolumeController17AnalyzeInputAudioEiRKNS_11AudioBufferE";

pub proof fn lemma_sym_input_volume_analyze()
    ensures
        vstd::utf8::is_ascii_chars(SYM_INPUT_VOLUME_ANALYZE@),
{
    reveal_strlit(
        "_ZN6webrtc21InputVolumeController17AnalyzeInputAudioEiRKNS_11AudioBufferE",
    );
    assert(text::ascii_from(SYM_INPUT_VOLUME_ANALYZE@, 0)) by {
        reveal_with_fuel(text::ascii_from, 38);
    }
    text::lemma_ascii(SYM_INPUT_VOLUME_ANALYZE@);
}

pub const SYM_ADAPTIVE_DIGITAL_GAIN: &'static str =
    "_ZN6webrtc29AdaptiveDigitalGainController7ProcessERKNS0_9FrameInfoENS_17DeinterleavedViewIfEE";

pub proof fn lemma_sym_adaptive_digital_gain()
    ensures
        vstd::utf8::is_ascii_chars(SYM_ADAPTIVE_DIGITAL_GAIN@),
{
    reveal_strlit(
        "_ZN6webrtc29AdaptiveDigitalGainController7ProcessERKNS0_9FrameInfoENS_17DeinterleavedViewIfEE",
    );
    assert(text::ascii_from(SYM_ADAPTIVE_DIGITAL_GAIN@, 0)) by {
        reveal_with_fuel(text::ascii_from, 48);
    }
    text::lemma_ascii(SYM_ADAPTIVE_DIGITAL_GAIN@);
}

pub const SYM_NS_PROCESS: &'static str =
    "_ZN6webrtc15NoiseSuppressor7ProcessEPNS_11AudioBufferE";

pub proof fn lemma_sym_ns_process()
    ensures
        vstd::utf8::is_ascii_chars(SYM_NS_PROCESS@),
{
    reveal_strlit(
        "_ZN6webrtc15NoiseSuppressor7ProcessEPNS_11AudioBufferE",
    );
    assert(text::ascii_from(SYM_NS_PROCESS@, 0)) by {
        reveal_with_fuel(text::ascii_from, 29);
    }
    text::lemma_ascii(SYM_NS_PROCESS@);
}

pub const SYM_NS_ANALYZE: &'static str =
    "_ZN6webrtc15NoiseSuppressor7AnalyzeERKNS_11AudioBufferE";

pub proof fn lemma_sym_ns_analyze()
    ensures
        vstd::utf8::is_ascii_chars(SYM_NS_ANALYZE@),
{
    reveal_strlit(
        "_ZN6webrtc15NoiseSuppressor7AnalyzeERKNS_11AudioBufferE",
    );
    assert(text::ascii_from(SYM_NS_ANALYZE@, 0)) by {
        reveal_with_fuel(text::ascii_from, 29);
    }
    text::lemma_ascii(SYM_NS_ANALYZE@);
}

pub const SYM_AEC3_PROCESS_CAPTURE: &'static str =
    "_ZN6webrtc14EchoCanceller314ProcessCaptureEPNS_11AudioBufferES2_b";

pub proof fn lemma_sym_aec3_process_capture()
    ensures
        vstd::utf8::is_ascii_chars(SYM_AEC3_PROCESS_CAPTURE@),
{
    reveal_strlit(
        "_ZN6webrtc14EchoCanceller314ProcessCaptureEPNS_11AudioBufferES2_b",
    );
    assert(text::ascii_from(SYM_AEC3_PROCESS_CAPTURE@, 0)) by {
        reveal_with_fuel(text::ascii_from, 34);
    }
    text::lemma_ascii(SYM_AEC3_PROCESS_CAPTURE@);
}

pub const SYM_FRAME_LENGTH_DECISION: &'static str =
    "_ZN6webrtc21FrameLengthController12MakeDecisionEPNS_25AudioEncoderRuntimeConfigE";

pub proof fn lemma_sym_frame_length_decision()
    ensures
        vstd::utf8::is_ascii_chars(SYM_FRAME_LENGTH_DECISION@),
{
    reveal_strlit(
        "_ZN6webrtc21FrameLengthController12MakeDecisionEPNS_25AudioEncoderRuntimeConfigE",
    );
    assert(text::ascii_from(SYM_FRAME_LENGTH_DECISION@, 0)) by {
        reveal_with_fuel(text::ascii_from, 42);
    }
    text::lemma_ascii(SYM_FRAME_LENGTH_DECISION@);
}

pub const SYM_CHANNEL_MAKE_DECISION: &'static str =
    "_ZN6webrtc17ChannelController12MakeDecisionEPNS_25AudioEncoderRuntimeConfigE";

pub proof fn lemma_sym_channel_make_decision()
    ensures
        vstd::utf8::is_ascii_chars(SYM_CHANNEL_MAKE_DECISION@),
{
    reveal_strlit(
        "_ZN6webrtc17ChannelController12MakeDecisionEPNS_25AudioEncoderRuntimeConfigE",
    );
    assert(text::ascii_from(SYM_CHANNEL_MAKE_DECISION@, 0)) by {
        reveal_with_fuel(text::ascii_from, 40);
    }
    text::lemma_ascii(SYM_CHANNEL_MAKE_DECISION@);
}

/// Shared by three sites: the `AudioEncoderOpusConfig` constructor stores
/// frame_ms, channels, bitrate and application as immediates in one run.
pub const OPUS_CONFIG_CTOR: &'static str =
    "55 48 89 E5 48 B8 ?? 00 00 00 80 BB 00 00 48 89 07 48 C7 47 08 ?? 00 00 00 48 B8 00 00 00 00 ?? ?? ?? 00 48 89 47 10 C6 47 18 ??";

pub proof fn lemma_opus_config_ctor()
    ensures
        sig::reads_as(OPUS_CONFIG_CTOR@, 43),
{
    reveal_strlit(
        "55 48 89 E5 48 B8 ?? 00 00 00 80 BB 00 00 48 89 07 48 C7 47 08 ?? 00 00 00 48 B8 00 00 00 00 ?? ?? ?? 00 48 89 47 10 C6 47 18 ??",
    );
    assert(sig::regular(OPUS_CONFIG_CTOR@, 43)) by {
        reveal_with_fuel(sig::regular_from, 44);
    }
    sig::lemma_regular(OPUS_CONFIG_CTOR@, 43);
}

/// 1.0.155 inlines the constructor into its caller's stack frame, so the same
/// stores appear as `mov [rbp-disp32], ...` rather than `mov [rdi+disp8], ...`.
/// Field order and values are unchanged.
pub const OPUS_CONFIG_CTOR_INLINED: &'static str =
    "48 B8 ?? 00 00 00 80 BB 00 00 48 89 85 ?? ?? ?? ?? 48 C7 85 ?? ?? ?? ?? ?? 00 00 00 48 B8 00 00 00 00 ?? ?? ?? 00 48 89 85 ?? ?? ?? ?? C6 85 ?? ?? ?? ?? ??";

pub proof fn lemma_opus_config_ctor_inlined()
    ensures
        sig::reads_as(OPUS_CONFIG_CTOR_INLINED@, 52),
{
    reveal_strlit(
        "48 B8 ?? 00 00 00 80 BB 00 00 48 89 85 ?? ?? ?? ?? 48 C7 85 ?? ?? ?? ?? ?? 00 00 00 48 B8 00 00 00 00 ?? ?? ?? 00 48 89 85 ?? ?? ?? ?? C6 85 ?? ?? ?? ?? ??",
    );
    assert(sig::regular(OPUS_CONFIG_CTOR_INLINED@, 52)) by {
        reveal_with_fuel(sig::regular_from, 53);
    }
    sig::lemma_regular(OPUS_CONFIG_CTOR_INLINED@, 52);
}

/// Same idea for the multichannel variant.
pub const MULTICHANNEL_CTOR: &'static str =
    "55 48 89 E5 C7 07 14 00 00 00 48 C7 47 08 ?? 00 00 00 48 B8 00 00 00 00 ?? ?? ?? 00 48 89 47 10 66 C7 47 18 00 00";

pub proof fn lemma_multichannel_ctor()
    ensures
        sig::reads_as(MULTICHANNEL_CTOR@, 38),
{
    reveal_strlit(
        "55 48 89 E5 C7 07 14 00 00 00 48 C7 47 08 ?? 00 00 00 48 B8 00 00 00 00 ?? ?? ?? 00 48 89 47 10 66 C7 47 18 00 00",
    );
    assert(sig::regular(MULTICHANNEL_CTOR@, 38)) by {
        reveal_with_fuel(sig::regular_from, 39);
    }
    sig::lemma_regular(MULTICHANNEL_CTOR@, 38);
}

/// `mov r12, 2`: same length as the `cmp`/`cmovae` pair it replaces.
pub const FORCE_TWO_CHANNELS: [u8; 7] = [0x49, 0xC7, 0xC4, 0x02, 0x00, 0x00, 0x00];

/// Twelve `nop`s, then the `E9` that turns the following `jg rel32` into an
/// unconditional `jmp rel32` over the mono downmix.
pub const NOP12_JMP: [u8; 13] = [0x90, 0x90, 0x90, 0x90, 0x90, 0x90, 0x90, 0x90, 0x90, 0x90, 0x90, 0x90, 0xE9];

/// Two `nop`s, used to delete a two-byte conditional jump and leave whatever
/// follows it to run.
pub const NOP2: [u8; 2] = [0x90, 0x90];

/// `mov rax, 1; ret`
pub const RETURN_TRUE: [u8; 8] = [0x48, 0xC7, 0xC0, 0x01, 0x00, 0x00, 0x00, 0xC3];

/// 48000, little endian.
pub const SR_48K: [u8; 4] = [0x80, 0xBB, 0x00, 0x00];

/// `MODE_CELT_ONLY`, little endian.
pub const CELT_ONLY: [u8; 4] = [0xEA, 0x03, 0x00, 0x00];

/// `ret`
pub const RET: [u8; 1] = [0xC3];

/// `push rbp; mov rbp,rsp; mov edx,esi`: the prologue every `WebRtcOpus_Set*`
/// wrapper shares, and what a pinned control argument or bitrate overwrites with
/// `push rbp; mov edx, <constant>`.
pub const CTL_PROLOGUE: [u8; 6] = [0x55, 0x48, 0x89, 0xE5, 0x89, 0xF2];

/// `push rbp; mov edx, ..`: how a pinned argument starts.
pub const PINNED: [u8; 2] = [0x55, 0xBA];

/// How the replacement of `hp_cutoff` starts.
pub const HP_CUTOFF_MARKER: [u8; 20] = [
    0xC7, 0x81, 0x10, 0x00, 0x00, 0x00, 0xEA, 0x03, 0x00, 0x00,
    0xC7, 0x81, 0x1C, 0xC9, 0xFF, 0xFF, 0xFF, 0xFF, 0xFF, 0xFF,
];

/// How the replacement of `dc_reject` starts.
pub const DC_REJECT_MARKER: [u8; 20] = [
    0xC7, 0x82, 0x10, 0x00, 0x00, 0x00, 0xEA, 0x03, 0x00, 0x00,
    0xC7, 0x82, 0x1C, 0xC9, 0xFF, 0xFF, 0xFF, 0xFF, 0xFF, 0xFF,
];

} // verus!

//! What the audio processing module does to the signal on the way in: levelling
//! it, gating it, and subtracting an echo estimate from it.
//!
//! Each of these is replaced with a bare `ret` at its entry. They all return void
//! and none of them is the only writer of anything downstream reads, so returning
//! early leaves the capture buffer exactly as it arrived. No original bytes are
//! expected because the prologues differ per build and the symbol is what located
//! them; the resolved address is a function entry by construction.

use crate::sites;
use crate::sites::signatures;
use crate::sites::signatures::{
    RET, SYM_ADAPTIVE_DIGITAL_GAIN, SYM_AEC3_PROCESS_CAPTURE, SYM_AGC_DIGITAL_SETUP,
    SYM_AGC_PRE_PROCESS, SYM_GAIN_CONTROLLER2, SYM_GAIN_CONTROLLER2_OLD,
    SYM_INPUT_VOLUME_ANALYZE, SYM_MONO_AGC_CLIPPING, SYM_MONO_AGC_PROCESS,
    SYM_MONO_AGC_PROCESS_OLD, SYM_MONO_AGC_UPDATE_GAIN, SYM_NS_ANALYZE, SYM_NS_PROCESS,
};
use crate::sites::{Action, ActionModel, Expect, ExpectModel, Site, SiteModel};
use vstd::prelude::*;

verus! {

/// `GainController2_Bypass`: AGC2 leaves the signal alone.
///
/// The current automatic gain control. Rides the level up and down, which on
/// music is audible pumping.
pub open spec fn gain_controller2_bypass_model() -> SiteModel {
    SiteModel {
        name: "GainController2_Bypass"@,
        group: "gain"@,
        what: "AGC2 leaves the signal alone"@,
        critical: false,
        absent_ok: None,
        expect: ExpectModel::One,
        symbols: seq![SYM_GAIN_CONTROLLER2@, SYM_GAIN_CONTROLLER2_OLD@],
        entry: true,
        patterns: seq![],
        action: ActionModel::Bytes(RET@),
        stock: seq![],
        expect_orig: seq![],
    }
}

pub fn gain_controller2_bypass() -> (res: &'static Site)
    ensures
        res@ == gain_controller2_bypass_model(),
{
    let site: &'static Site = &Site {
        name: "GainController2_Bypass",
        group: "gain",
        what: "AGC2 leaves the signal alone",
        critical: false,
        absent_ok: None,
        expect: Expect::One,
        symbols: &[SYM_GAIN_CONTROLLER2, SYM_GAIN_CONTROLLER2_OLD],
        entry: true,
        patterns: &[],
        action: Action::Bytes(&RET),
        stock: &[],
        expect_orig: &[],
    };
    assert(site@ =~~= gain_controller2_bypass_model());
    site
}

pub proof fn lemma_gain_controller2_bypass_reads()
    ensures
        sites::patterns_valid(gain_controller2_bypass_model()),
        sites::symbols_plain(gain_controller2_bypass_model()),
{
    signatures::lemma_sym_gain_controller2();
    signatures::lemma_sym_gain_controller2_old();
}

/// `AgcPreAnalysis_Bypass`: AGC pre-analysis does not run.
///
/// Watches for clipping and drives the input-volume recommendation.
pub open spec fn agc_pre_analysis_bypass_model() -> SiteModel {
    SiteModel {
        name: "AgcPreAnalysis_Bypass"@,
        group: "gain"@,
        what: "AGC pre-analysis does not run"@,
        critical: false,
        absent_ok: None,
        expect: ExpectModel::One,
        symbols: seq![SYM_AGC_PRE_PROCESS@],
        entry: true,
        patterns: seq![],
        action: ActionModel::Bytes(RET@),
        stock: seq![],
        expect_orig: seq![],
    }
}

pub fn agc_pre_analysis_bypass() -> (res: &'static Site)
    ensures
        res@ == agc_pre_analysis_bypass_model(),
{
    let site: &'static Site = &Site {
        name: "AgcPreAnalysis_Bypass",
        group: "gain",
        what: "AGC pre-analysis does not run",
        critical: false,
        absent_ok: None,
        expect: Expect::One,
        symbols: &[SYM_AGC_PRE_PROCESS],
        entry: true,
        patterns: &[],
        action: Action::Bytes(&RET),
        stock: &[],
        expect_orig: &[],
    };
    assert(site@ =~~= agc_pre_analysis_bypass_model());
    site
}

pub proof fn lemma_agc_pre_analysis_bypass_reads()
    ensures
        sites::patterns_valid(agc_pre_analysis_bypass_model()),
        sites::symbols_plain(agc_pre_analysis_bypass_model()),
{
    signatures::lemma_sym_agc_pre_process();
}

/// `AgcDigitalSetup_Bypass`: legacy AGC digital compression not configured.
///
/// Installs the legacy AGC1 digital compression curve.
pub open spec fn agc_digital_setup_bypass_model() -> SiteModel {
    SiteModel {
        name: "AgcDigitalSetup_Bypass"@,
        group: "gain"@,
        what: "legacy AGC digital compression not configured"@,
        critical: false,
        absent_ok: None,
        expect: ExpectModel::One,
        symbols: seq![SYM_AGC_DIGITAL_SETUP@],
        entry: true,
        patterns: seq![],
        action: ActionModel::Bytes(RET@),
        stock: seq![],
        expect_orig: seq![],
    }
}

pub fn agc_digital_setup_bypass() -> (res: &'static Site)
    ensures
        res@ == agc_digital_setup_bypass_model(),
{
    let site: &'static Site = &Site {
        name: "AgcDigitalSetup_Bypass",
        group: "gain",
        what: "legacy AGC digital compression not configured",
        critical: false,
        absent_ok: None,
        expect: Expect::One,
        symbols: &[SYM_AGC_DIGITAL_SETUP],
        entry: true,
        patterns: &[],
        action: Action::Bytes(&RET),
        stock: &[],
        expect_orig: &[],
    };
    assert(site@ =~~= agc_digital_setup_bypass_model());
    site
}

pub proof fn lemma_agc_digital_setup_bypass_reads()
    ensures
        sites::patterns_valid(agc_digital_setup_bypass_model()),
        sites::symbols_plain(agc_digital_setup_bypass_model()),
{
    signatures::lemma_sym_agc_digital_setup();
}

/// `MonoAgcProcess_Bypass`: per-channel AGC does not run.
///
/// AGC1's per-channel worker: the thing that actually decides a gain.
pub open spec fn mono_agc_process_bypass_model() -> SiteModel {
    SiteModel {
        name: "MonoAgcProcess_Bypass"@,
        group: "gain"@,
        what: "per-channel AGC does not run"@,
        critical: false,
        absent_ok: None,
        expect: ExpectModel::One,
        symbols: seq![SYM_MONO_AGC_PROCESS@, SYM_MONO_AGC_PROCESS_OLD@],
        entry: true,
        patterns: seq![],
        action: ActionModel::Bytes(RET@),
        stock: seq![],
        expect_orig: seq![],
    }
}

pub fn mono_agc_process_bypass() -> (res: &'static Site)
    ensures
        res@ == mono_agc_process_bypass_model(),
{
    let site: &'static Site = &Site {
        name: "MonoAgcProcess_Bypass",
        group: "gain",
        what: "per-channel AGC does not run",
        critical: false,
        absent_ok: None,
        expect: Expect::One,
        symbols: &[SYM_MONO_AGC_PROCESS, SYM_MONO_AGC_PROCESS_OLD],
        entry: true,
        patterns: &[],
        action: Action::Bytes(&RET),
        stock: &[],
        expect_orig: &[],
    };
    assert(site@ =~~= mono_agc_process_bypass_model());
    site
}

pub proof fn lemma_mono_agc_process_bypass_reads()
    ensures
        sites::patterns_valid(mono_agc_process_bypass_model()),
        sites::symbols_plain(mono_agc_process_bypass_model()),
{
    signatures::lemma_sym_mono_agc_process();
    signatures::lemma_sym_mono_agc_process_old();
}

/// `MonoAgcClipping_Bypass`: AGC does not react to clipping.
///
/// Reacts to clipping by yanking the level down and holding it there.
pub open spec fn mono_agc_clipping_bypass_model() -> SiteModel {
    SiteModel {
        name: "MonoAgcClipping_Bypass"@,
        group: "gain"@,
        what: "AGC does not react to clipping"@,
        critical: false,
        absent_ok: None,
        expect: ExpectModel::One,
        symbols: seq![SYM_MONO_AGC_CLIPPING@],
        entry: true,
        patterns: seq![],
        action: ActionModel::Bytes(RET@),
        stock: seq![],
        expect_orig: seq![],
    }
}

pub fn mono_agc_clipping_bypass() -> (res: &'static Site)
    ensures
        res@ == mono_agc_clipping_bypass_model(),
{
    let site: &'static Site = &Site {
        name: "MonoAgcClipping_Bypass",
        group: "gain",
        what: "AGC does not react to clipping",
        critical: false,
        absent_ok: None,
        expect: Expect::One,
        symbols: &[SYM_MONO_AGC_CLIPPING],
        entry: true,
        patterns: &[],
        action: Action::Bytes(&RET),
        stock: &[],
        expect_orig: &[],
    };
    assert(site@ =~~= mono_agc_clipping_bypass_model());
    site
}

pub proof fn lemma_mono_agc_clipping_bypass_reads()
    ensures
        sites::patterns_valid(mono_agc_clipping_bypass_model()),
        sites::symbols_plain(mono_agc_clipping_bypass_model()),
{
    signatures::lemma_sym_mono_agc_clipping();
}

/// `MonoAgcUpdateGain_Bypass`: AGC gain never updated.
///
/// The gain update itself, stubbed so a level already chosen cannot drift even
/// if something else calls in.
pub open spec fn mono_agc_update_gain_bypass_model() -> SiteModel {
    SiteModel {
        name: "MonoAgcUpdateGain_Bypass"@,
        group: "gain"@,
        what: "AGC gain never updated"@,
        critical: false,
        absent_ok: None,
        expect: ExpectModel::One,
        symbols: seq![SYM_MONO_AGC_UPDATE_GAIN@],
        entry: true,
        patterns: seq![],
        action: ActionModel::Bytes(RET@),
        stock: seq![],
        expect_orig: seq![],
    }
}

pub fn mono_agc_update_gain_bypass() -> (res: &'static Site)
    ensures
        res@ == mono_agc_update_gain_bypass_model(),
{
    let site: &'static Site = &Site {
        name: "MonoAgcUpdateGain_Bypass",
        group: "gain",
        what: "AGC gain never updated",
        critical: false,
        absent_ok: None,
        expect: Expect::One,
        symbols: &[SYM_MONO_AGC_UPDATE_GAIN],
        entry: true,
        patterns: &[],
        action: Action::Bytes(&RET),
        stock: &[],
        expect_orig: &[],
    };
    assert(site@ =~~= mono_agc_update_gain_bypass_model());
    site
}

pub proof fn lemma_mono_agc_update_gain_bypass_reads()
    ensures
        sites::patterns_valid(mono_agc_update_gain_bypass_model()),
        sites::symbols_plain(mono_agc_update_gain_bypass_model()),
{
    signatures::lemma_sym_mono_agc_update_gain();
}

/// `InputVolumeAnalyze_Bypass`: input volume not driven from the signal.
///
/// The newer input-volume controller, which moves the OS capture slider on your
/// behalf.
pub open spec fn input_volume_analyze_bypass_model() -> SiteModel {
    SiteModel {
        name: "InputVolumeAnalyze_Bypass"@,
        group: "gain"@,
        what: "input volume not driven from the signal"@,
        critical: false,
        absent_ok: None,
        expect: ExpectModel::One,
        symbols: seq![SYM_INPUT_VOLUME_ANALYZE@],
        entry: true,
        patterns: seq![],
        action: ActionModel::Bytes(RET@),
        stock: seq![],
        expect_orig: seq![],
    }
}

pub fn input_volume_analyze_bypass() -> (res: &'static Site)
    ensures
        res@ == input_volume_analyze_bypass_model(),
{
    let site: &'static Site = &Site {
        name: "InputVolumeAnalyze_Bypass",
        group: "gain",
        what: "input volume not driven from the signal",
        critical: false,
        absent_ok: None,
        expect: Expect::One,
        symbols: &[SYM_INPUT_VOLUME_ANALYZE],
        entry: true,
        patterns: &[],
        action: Action::Bytes(&RET),
        stock: &[],
        expect_orig: &[],
    };
    assert(site@ =~~= input_volume_analyze_bypass_model());
    site
}

pub proof fn lemma_input_volume_analyze_bypass_reads()
    ensures
        sites::patterns_valid(input_volume_analyze_bypass_model()),
        sites::symbols_plain(input_volume_analyze_bypass_model()),
{
    signatures::lemma_sym_input_volume_analyze();
}

/// `AdaptiveDigitalGain_Bypass`: adaptive digital gain does not run.
///
/// AGC2's adaptive digital stage.
pub open spec fn adaptive_digital_gain_bypass_model() -> SiteModel {
    SiteModel {
        name: "AdaptiveDigitalGain_Bypass"@,
        group: "gain"@,
        what: "adaptive digital gain does not run"@,
        critical: false,
        absent_ok: None,
        expect: ExpectModel::One,
        symbols: seq![SYM_ADAPTIVE_DIGITAL_GAIN@],
        entry: true,
        patterns: seq![],
        action: ActionModel::Bytes(RET@),
        stock: seq![],
        expect_orig: seq![],
    }
}

pub fn adaptive_digital_gain_bypass() -> (res: &'static Site)
    ensures
        res@ == adaptive_digital_gain_bypass_model(),
{
    let site: &'static Site = &Site {
        name: "AdaptiveDigitalGain_Bypass",
        group: "gain",
        what: "adaptive digital gain does not run",
        critical: false,
        absent_ok: None,
        expect: Expect::One,
        symbols: &[SYM_ADAPTIVE_DIGITAL_GAIN],
        entry: true,
        patterns: &[],
        action: Action::Bytes(&RET),
        stock: &[],
        expect_orig: &[],
    };
    assert(site@ =~~= adaptive_digital_gain_bypass_model());
    site
}

pub proof fn lemma_adaptive_digital_gain_bypass_reads()
    ensures
        sites::patterns_valid(adaptive_digital_gain_bypass_model()),
        sites::symbols_plain(adaptive_digital_gain_bypass_model()),
{
    signatures::lemma_sym_adaptive_digital_gain();
}

/// `NoiseSuppressorProcess_Bypass`: noise suppressor leaves the signal alone.
///
/// Spectral subtraction. Removes steady noise, and with it room tone, reverb
/// tails and the quiet end of anything else.
pub open spec fn noise_suppressor_process_bypass_model() -> SiteModel {
    SiteModel {
        name: "NoiseSuppressorProcess_Bypass"@,
        group: "denoise"@,
        what: "noise suppressor leaves the signal alone"@,
        critical: false,
        absent_ok: None,
        expect: ExpectModel::One,
        symbols: seq![SYM_NS_PROCESS@],
        entry: true,
        patterns: seq![],
        action: ActionModel::Bytes(RET@),
        stock: seq![],
        expect_orig: seq![],
    }
}

pub fn noise_suppressor_process_bypass() -> (res: &'static Site)
    ensures
        res@ == noise_suppressor_process_bypass_model(),
{
    let site: &'static Site = &Site {
        name: "NoiseSuppressorProcess_Bypass",
        group: "denoise",
        what: "noise suppressor leaves the signal alone",
        critical: false,
        absent_ok: None,
        expect: Expect::One,
        symbols: &[SYM_NS_PROCESS],
        entry: true,
        patterns: &[],
        action: Action::Bytes(&RET),
        stock: &[],
        expect_orig: &[],
    };
    assert(site@ =~~= noise_suppressor_process_bypass_model());
    site
}

pub proof fn lemma_noise_suppressor_process_bypass_reads()
    ensures
        sites::patterns_valid(noise_suppressor_process_bypass_model()),
        sites::symbols_plain(noise_suppressor_process_bypass_model()),
{
    signatures::lemma_sym_ns_process();
}

/// `NoiseSuppressorAnalyze_Bypass`: noise suppressor does not analyse.
///
/// The analysis half. Stubbed as well so the estimator is not left running for
/// a suppressor that never applies it.
pub open spec fn noise_suppressor_analyze_bypass_model() -> SiteModel {
    SiteModel {
        name: "NoiseSuppressorAnalyze_Bypass"@,
        group: "denoise"@,
        what: "noise suppressor does not analyse"@,
        critical: false,
        absent_ok: None,
        expect: ExpectModel::One,
        symbols: seq![SYM_NS_ANALYZE@],
        entry: true,
        patterns: seq![],
        action: ActionModel::Bytes(RET@),
        stock: seq![],
        expect_orig: seq![],
    }
}

pub fn noise_suppressor_analyze_bypass() -> (res: &'static Site)
    ensures
        res@ == noise_suppressor_analyze_bypass_model(),
{
    let site: &'static Site = &Site {
        name: "NoiseSuppressorAnalyze_Bypass",
        group: "denoise",
        what: "noise suppressor does not analyse",
        critical: false,
        absent_ok: None,
        expect: Expect::One,
        symbols: &[SYM_NS_ANALYZE],
        entry: true,
        patterns: &[],
        action: Action::Bytes(&RET),
        stock: &[],
        expect_orig: &[],
    };
    assert(site@ =~~= noise_suppressor_analyze_bypass_model());
    site
}

pub proof fn lemma_noise_suppressor_analyze_bypass_reads()
    ensures
        sites::patterns_valid(noise_suppressor_analyze_bypass_model()),
        sites::symbols_plain(noise_suppressor_analyze_bypass_model()),
{
    signatures::lemma_sym_ns_analyze();
}

/// `EchoCanceller_Bypass`: echo canceller leaves the signal alone.
///
/// AEC3's capture path. It subtracts an estimate of what your speakers are
/// playing out of what your microphone picked up, and it is a nonlinear,
/// adaptive estimate — on music it is the single most destructive thing in the
/// chain.
///
/// `ProcessCapture` is also what drains the render queue. Dropping it means the
/// queue fills, but `RenderWriter::Insert` handles a full queue by discarding
/// the frame — there is no check that aborts — so the cost is bounded and the
/// memory does not grow.
pub open spec fn echo_canceller_bypass_model() -> SiteModel {
    SiteModel {
        name: "EchoCanceller_Bypass"@,
        group: "echo"@,
        what: "echo canceller leaves the signal alone"@,
        critical: false,
        absent_ok: None,
        expect: ExpectModel::One,
        symbols: seq![SYM_AEC3_PROCESS_CAPTURE@],
        entry: true,
        patterns: seq![],
        action: ActionModel::Bytes(RET@),
        stock: seq![],
        expect_orig: seq![],
    }
}

pub fn echo_canceller_bypass() -> (res: &'static Site)
    ensures
        res@ == echo_canceller_bypass_model(),
{
    let site: &'static Site = &Site {
        name: "EchoCanceller_Bypass",
        group: "echo",
        what: "echo canceller leaves the signal alone",
        critical: false,
        absent_ok: None,
        expect: Expect::One,
        symbols: &[SYM_AEC3_PROCESS_CAPTURE],
        entry: true,
        patterns: &[],
        action: Action::Bytes(&RET),
        stock: &[],
        expect_orig: &[],
    };
    assert(site@ =~~= echo_canceller_bypass_model());
    site
}

pub proof fn lemma_echo_canceller_bypass_reads()
    ensures
        sites::patterns_valid(echo_canceller_bypass_model()),
        sites::symbols_plain(echo_canceller_bypass_model()),
{
    signatures::lemma_sym_aec3_process_capture();
}

} // verus!

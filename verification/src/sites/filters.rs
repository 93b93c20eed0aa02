//! The coding mode, and the filters in front of the encoder.

use crate::sig;
use crate::sites;
use crate::text;
use crate::sites::signatures;
use crate::sites::signatures::{
    CELT_ONLY, DC_REJECT_MARKER, HP_CUTOFF_MARKER, RET, SYM_HIGHPASS_PROCESS,
};
use crate::sites::{
    Absent, AbsentModel, Action, ActionModel, Expect, ExpectModel, Site, SiteModel,
};
use vstd::prelude::*;

verus! {

pub const SIG_CELT_FORCE: &'static str =
    "48 C7 83 ?? 00 00 00 ?? ?? ?? ?? 48 63 83 ?? 00 00 00 48 69 C8 1F 85 EB 51";

proof fn lemma_sig_celt_force()
    ensures
        sig::reads_as(SIG_CELT_FORCE@, 25),
{
    reveal_strlit(
        "48 C7 83 ?? 00 00 00 ?? ?? ?? ?? 48 63 83 ?? 00 00 00 48 69 C8 1F 85 EB 51",
    );
    assert(sig::regular(SIG_CELT_FORCE@, 25)) by {
        reveal_with_fuel(sig::regular_from, 26);
    }
    sig::lemma_regular(SIG_CELT_FORCE@, 25);
}

/// `CELT_Force`: user_forced_mode = MODE_CELT_ONLY.
///
/// `OPUS_AUTO` (-1000) would let the encoder drop into SILK or hybrid at low
/// rates, which is where the low-pass and mono folding come from. The
/// OpusEncoder struct shifted by 4 bytes between 1.0.153 and 1.0.155, so the
/// field displacements are wildcarded; the `imul rcx, rax, 0x51EB851F` that
/// follows is the real anchor.
pub open spec fn celt_force_model() -> SiteModel {
    SiteModel {
        name: "CELT_Force"@,
        group: "celt"@,
        what: "user_forced_mode = MODE_CELT_ONLY"@,
        critical: false,
        absent_ok: None,
        expect: ExpectModel::One,
        symbols: seq!["opus_encoder_init"@],
        entry: false,
        patterns: seq![(SIG_CELT_FORCE@, 7int)],
        action: ActionModel::Bytes(CELT_ONLY@),
        stock: seq![0x18u8, 0xFCu8, 0xFFu8, 0xFFu8],
        expect_orig: seq![seq![0x18u8, 0xFCu8, 0xFFu8, 0xFFu8], CELT_ONLY@],
    }
}

pub fn celt_force() -> (res: &'static Site)
    ensures
        res@ == celt_force_model(),
{
    let site: &'static Site = &Site {
        name: "CELT_Force",
        group: "celt",
        what: "user_forced_mode = MODE_CELT_ONLY",
        critical: false,
        absent_ok: None,
        expect: Expect::One,
        symbols: &["opus_encoder_init"],
        entry: false,
        patterns: &[(SIG_CELT_FORCE, 7)],
        action: Action::Bytes(&CELT_ONLY),
        stock: &[0x18, 0xFC, 0xFF, 0xFF],
        expect_orig: &[&[0x18, 0xFC, 0xFF, 0xFF], &CELT_ONLY],
    };
    assert(site@ =~~= celt_force_model());
    site
}

pub proof fn lemma_celt_force_reads()
    ensures
        sites::patterns_valid(celt_force_model()),
        sites::symbols_plain(celt_force_model()),
{
    lemma_sig_celt_force();
    reveal_strlit("opus_encoder_init");
    assert(text::ascii_from("opus_encoder_init"@, 0)) by {
        reveal_with_fuel(text::ascii_from, 10);
    }
    text::lemma_ascii("opus_encoder_init"@);
}

pub const SIG_CELT_DEFAULT_MODE: &'static str =
    "C7 83 ?? 37 00 00 01 00 00 00 C7 83 ?? 37 00 00 ?? ?? 00 00 C7 83 ?? 37 00 00 51 04 00 00";

proof fn lemma_sig_celt_default_mode()
    ensures
        sig::reads_as(SIG_CELT_DEFAULT_MODE@, 30),
{
    reveal_strlit(
        "C7 83 ?? 37 00 00 01 00 00 00 C7 83 ?? 37 00 00 ?? ?? 00 00 C7 83 ?? 37 00 00 51 04 00 00",
    );
    assert(sig::regular(SIG_CELT_DEFAULT_MODE@, 30)) by {
        reveal_with_fuel(sig::regular_from, 31);
    }
    sig::lemma_regular(SIG_CELT_DEFAULT_MODE@, 30);
}

/// `CELT_DefaultMode`: initial st->mode = MODE_CELT_ONLY.
pub open spec fn celt_default_mode_model() -> SiteModel {
    SiteModel {
        name: "CELT_DefaultMode"@,
        group: "celt"@,
        what: "initial st->mode = MODE_CELT_ONLY"@,
        critical: false,
        absent_ok: None,
        expect: ExpectModel::NearestAfter { anchor: "CELT_Force"@, window: 0x400 },
        symbols: seq!["opus_encoder_init"@],
        entry: false,
        patterns: seq![(SIG_CELT_DEFAULT_MODE@, 16int)],
        action: ActionModel::Bytes(CELT_ONLY@),
        stock: seq![0xE9u8, 0x03u8, 0x00u8, 0x00u8],
        expect_orig: seq![seq![0xE9u8, 0x03u8, 0x00u8, 0x00u8], CELT_ONLY@],
    }
}

pub fn celt_default_mode() -> (res: &'static Site)
    ensures
        res@ == celt_default_mode_model(),
{
    let site: &'static Site = &Site {
        name: "CELT_DefaultMode",
        group: "celt",
        what: "initial st->mode = MODE_CELT_ONLY",
        critical: false,
        absent_ok: None,
        expect: Expect::NearestAfter { anchor: "CELT_Force", window: 0x400 },
        symbols: &["opus_encoder_init"],
        entry: false,
        patterns: &[(SIG_CELT_DEFAULT_MODE, 16)],
        action: Action::Bytes(&CELT_ONLY),
        stock: &[0xE9, 0x03, 0x00, 0x00],
        expect_orig: &[&[0xE9, 0x03, 0x00, 0x00], &CELT_ONLY],
    };
    assert(site@ =~~= celt_default_mode_model());
    site
}

pub proof fn lemma_celt_default_mode_reads()
    ensures
        sites::patterns_valid(celt_default_mode_model()),
        sites::symbols_plain(celt_default_mode_model()),
{
    lemma_sig_celt_default_mode();
    reveal_strlit("opus_encoder_init");
    assert(text::ascii_from("opus_encoder_init"@, 0)) by {
        reveal_with_fuel(text::ascii_from, 10);
    }
    text::lemma_ascii("opus_encoder_init"@);
}

pub const SIG_SPL_HIGH_PASS_ENTRY: &'static str =
    "55 48 89 E5 41 57 41 56 53 50 48 89 F3 49 89 FE 48 8B 46 38 85 D2 74 ?? 48 85 C0";

proof fn lemma_sig_spl_high_pass_entry()
    ensures
        sig::reads_as(SIG_SPL_HIGH_PASS_ENTRY@, 27),
{
    reveal_strlit(
        "55 48 89 E5 41 57 41 56 53 50 48 89 F3 49 89 FE 48 8B 46 38 85 D2 74 ?? 48 85 C0",
    );
    assert(sig::regular(SIG_SPL_HIGH_PASS_ENTRY@, 27)) by {
        reveal_with_fuel(sig::regular_from, 28);
    }
    sig::lemma_regular(SIG_SPL_HIGH_PASS_ENTRY@, 27);
}

/// `SplHighPass_Entry`: WebRTC high-pass filter returns immediately.
pub open spec fn spl_high_pass_entry_model() -> SiteModel {
    SiteModel {
        name: "SplHighPass_Entry"@,
        group: "filter"@,
        what: "WebRTC high-pass filter returns immediately"@,
        critical: false,
        absent_ok: None,
        expect: ExpectModel::One,
        symbols: seq![SYM_HIGHPASS_PROCESS@],
        entry: true,
        patterns: seq![(SIG_SPL_HIGH_PASS_ENTRY@, 0int)],
        action: ActionModel::Bytes(RET@),
        stock: seq![],
        expect_orig: seq![seq![0x55u8], RET@],
    }
}

pub fn spl_high_pass_entry() -> (res: &'static Site)
    ensures
        res@ == spl_high_pass_entry_model(),
{
    let site: &'static Site = &Site {
        name: "SplHighPass_Entry",
        group: "filter",
        what: "WebRTC high-pass filter returns immediately",
        critical: false,
        absent_ok: None,
        expect: Expect::One,
        symbols: &[SYM_HIGHPASS_PROCESS],
        entry: true,
        patterns: &[(SIG_SPL_HIGH_PASS_ENTRY, 0)],
        action: Action::Bytes(&RET),
        stock: &[],
        expect_orig: &[&[0x55], &RET],
    };
    assert(site@ =~~= spl_high_pass_entry_model());
    site
}

pub proof fn lemma_spl_high_pass_entry_reads()
    ensures
        sites::patterns_valid(spl_high_pass_entry_model()),
        sites::symbols_plain(spl_high_pass_entry_model()),
{
    lemma_sig_spl_high_pass_entry();
    signatures::lemma_sym_highpass_process();
}

pub const SIG_HP_CUTOFF_INJECT: &'static str =
    "55 48 89 E5 49 89 D2 48 63 55 10 0F BF C6 69 C0 A7 09 00 00";

proof fn lemma_sig_hp_cutoff_inject()
    ensures
        sig::reads_as(SIG_HP_CUTOFF_INJECT@, 20),
{
    reveal_strlit(
        "55 48 89 E5 49 89 D2 48 63 55 10 0F BF C6 69 C0 A7 09 00 00",
    );
    assert(sig::regular(SIG_HP_CUTOFF_INJECT@, 20)) by {
        reveal_with_fuel(sig::regular_from, 21);
    }
    sig::lemma_regular(SIG_HP_CUTOFF_INJECT@, 20);
}

pub const NOTE_HP_CUTOFF_INJECT: &'static str =
    "libopus calls hp_cutoff only in VOIP mode; the application patch selects kAudio, so it is never reached";

/// `HpCutoff_Inject`: opus hp_cutoff replaced with a pass-through.
pub open spec fn hp_cutoff_inject_model() -> SiteModel {
    SiteModel {
        name: "HpCutoff_Inject"@,
        group: "filter"@,
        what: "opus hp_cutoff replaced with a pass-through"@,
        critical: false,
        absent_ok: Some(AbsentModel { covered_by: Some("OpusConfig_Application"@), note: NOTE_HP_CUTOFF_INJECT@ }),
        expect: ExpectModel::One,
        symbols: seq!["hp_cutoff"@],
        entry: true,
        patterns: seq![(SIG_HP_CUTOFF_INJECT@, 0int)],
        action: ActionModel::ShellcodeHpCutoff,
        stock: seq![],
        expect_orig: seq![seq![0x55u8, 0x48u8, 0x89u8, 0xE5u8], HP_CUTOFF_MARKER@],
    }
}

pub fn hp_cutoff_inject() -> (res: &'static Site)
    ensures
        res@ == hp_cutoff_inject_model(),
{
    let site: &'static Site = &Site {
        name: "HpCutoff_Inject",
        group: "filter",
        what: "opus hp_cutoff replaced with a pass-through",
        critical: false,
        absent_ok: Some(Absent { covered_by: Some("OpusConfig_Application"), note: NOTE_HP_CUTOFF_INJECT }),
        expect: Expect::One,
        symbols: &["hp_cutoff"],
        entry: true,
        patterns: &[(SIG_HP_CUTOFF_INJECT, 0)],
        action: Action::ShellcodeHpCutoff,
        stock: &[],
        expect_orig: &[&[0x55, 0x48, 0x89, 0xE5], &HP_CUTOFF_MARKER],
    };
    assert(site@ =~~= hp_cutoff_inject_model());
    site
}

pub proof fn lemma_hp_cutoff_inject_reads()
    ensures
        sites::patterns_valid(hp_cutoff_inject_model()),
        sites::symbols_plain(hp_cutoff_inject_model()),
{
    lemma_sig_hp_cutoff_inject();
    reveal_strlit("hp_cutoff");
    assert(text::ascii_from("hp_cutoff"@, 0)) by {
        reveal_with_fuel(text::ascii_from, 6);
    }
    text::lemma_ascii("hp_cutoff"@);
}

pub const SIG_DC_REJECT_COEFFICIENT: &'static str =
    "F3 0F 2A ?? F3 0F 10 0D ?? ?? ?? ?? F3 0F 5E C8 F3 0F 10 15 ?? ?? ?? ?? F3 0F 5C D1";

proof fn lemma_sig_dc_reject_coefficient()
    ensures
        sig::reads_as(SIG_DC_REJECT_COEFFICIENT@, 28),
{
    reveal_strlit(
        "F3 0F 2A ?? F3 0F 10 0D ?? ?? ?? ?? F3 0F 5E C8 F3 0F 10 15 ?? ?? ?? ?? F3 0F 5C D1",
    );
    assert(sig::regular(SIG_DC_REJECT_COEFFICIENT@, 28)) by {
        reveal_with_fuel(sig::regular_from, 29);
    }
    sig::lemma_regular(SIG_DC_REJECT_COEFFICIENT@, 28);
}

pub const NOTE_DC_REJECT_COEFFICIENT: &'static str =
    "dc_reject is a real function in this build and is replaced outright, so its coefficient does not need neutralising";

/// `DcReject_Coefficient`: opus dc_reject coefficient forced to 0 (pass-
/// through).
///
/// For builds that inline dc_reject, where there is no function left to
/// replace. libopus computes `coef = 6.3 * cutoff_Hz / Fs` and then `out = x -
/// m`, `m = coef*x + coef2*m` with `coef2 = 1 - coef`. Zeroing the numerator
/// gives coef = 0 and coef2 = 1, so `m` never leaves its initial zero and the
/// filter passes the signal through. One four-byte constant instead of a whole
/// injected function. Anchored on the coefficient computation itself: cvtsi2ss
/// of Fs, divide the constant by it, subtract from 1. The constant is 6.3*3 =
/// 18.9 stock, or 0.0 once patched.
pub open spec fn dc_reject_coefficient_model() -> SiteModel {
    SiteModel {
        name: "DcReject_Coefficient"@,
        group: "filter"@,
        what: "opus dc_reject coefficient forced to 0 (pass-through)"@,
        critical: false,
        absent_ok: Some(AbsentModel { covered_by: Some("DcReject_Inject"@), note: NOTE_DC_REJECT_COEFFICIENT@ }),
        expect: ExpectModel::One,
        symbols: seq!["opus_encode_frame_native"@],
        entry: false,
        patterns: seq![(SIG_DC_REJECT_COEFFICIENT@, 8int)],
        action: ActionModel::RipRelF32(0),
        stock: seq![],
        expect_orig: seq![seq![0x34u8, 0x33u8, 0x97u8, 0x41u8], seq![0x00u8, 0x00u8, 0x00u8, 0x00u8]],
    }
}

pub fn dc_reject_coefficient() -> (res: &'static Site)
    ensures
        res@ == dc_reject_coefficient_model(),
{
    let site: &'static Site = &Site {
        name: "DcReject_Coefficient",
        group: "filter",
        what: "opus dc_reject coefficient forced to 0 (pass-through)",
        critical: false,
        absent_ok: Some(Absent { covered_by: Some("DcReject_Inject"), note: NOTE_DC_REJECT_COEFFICIENT }),
        expect: Expect::One,
        symbols: &["opus_encode_frame_native"],
        entry: false,
        patterns: &[(SIG_DC_REJECT_COEFFICIENT, 8)],
        action: Action::RipRelF32(0),
        stock: &[],
        expect_orig: &[&[0x34, 0x33, 0x97, 0x41], &[0x00, 0x00, 0x00, 0x00]],
    };
    assert(site@ =~~= dc_reject_coefficient_model());
    site
}

pub proof fn lemma_dc_reject_coefficient_reads()
    ensures
        sites::patterns_valid(dc_reject_coefficient_model()),
        sites::symbols_plain(dc_reject_coefficient_model()),
{
    lemma_sig_dc_reject_coefficient();
    reveal_strlit("opus_encode_frame_native");
    assert(text::ascii_from("opus_encode_frame_native"@, 0)) by {
        reveal_with_fuel(text::ascii_from, 14);
    }
    text::lemma_ascii("opus_encode_frame_native"@);
}

pub const SIG_DC_REJECT_INJECT: &'static str =
    "55 48 89 E5 F3 41 0F 2A C1 F3 0F 10 0D ?? ?? ?? ?? F3 0F 5E C8 F3 0F 10 15";

proof fn lemma_sig_dc_reject_inject()
    ensures
        sig::reads_as(SIG_DC_REJECT_INJECT@, 25),
{
    reveal_strlit(
        "55 48 89 E5 F3 41 0F 2A C1 F3 0F 10 0D ?? ?? ?? ?? F3 0F 5E C8 F3 0F 10 15",
    );
    assert(sig::regular(SIG_DC_REJECT_INJECT@, 25)) by {
        reveal_with_fuel(sig::regular_from, 26);
    }
    sig::lemma_regular(SIG_DC_REJECT_INJECT@, 25);
}

pub const NOTE_DC_REJECT_INJECT: &'static str =
    "dc_reject is inlined in this build; its coefficient is zeroed instead, which makes it pass through";

/// `DcReject_Inject`: opus dc_reject replaced with a pass-through.
pub open spec fn dc_reject_inject_model() -> SiteModel {
    SiteModel {
        name: "DcReject_Inject"@,
        group: "filter"@,
        what: "opus dc_reject replaced with a pass-through"@,
        critical: false,
        absent_ok: Some(AbsentModel { covered_by: Some("DcReject_Coefficient"@), note: NOTE_DC_REJECT_INJECT@ }),
        expect: ExpectModel::One,
        symbols: seq!["dc_reject"@],
        entry: true,
        patterns: seq![(SIG_DC_REJECT_INJECT@, 0int)],
        action: ActionModel::ShellcodeDcReject,
        stock: seq![],
        expect_orig: seq![seq![0x55u8, 0x48u8, 0x89u8, 0xE5u8], DC_REJECT_MARKER@],
    }
}

pub fn dc_reject_inject() -> (res: &'static Site)
    ensures
        res@ == dc_reject_inject_model(),
{
    let site: &'static Site = &Site {
        name: "DcReject_Inject",
        group: "filter",
        what: "opus dc_reject replaced with a pass-through",
        critical: false,
        absent_ok: Some(Absent { covered_by: Some("DcReject_Coefficient"), note: NOTE_DC_REJECT_INJECT }),
        expect: Expect::One,
        symbols: &["dc_reject"],
        entry: true,
        patterns: &[(SIG_DC_REJECT_INJECT, 0)],
        action: Action::ShellcodeDcReject,
        stock: &[],
        expect_orig: &[&[0x55, 0x48, 0x89, 0xE5], &DC_REJECT_MARKER],
    };
    assert(site@ =~~= dc_reject_inject_model());
    site
}

pub proof fn lemma_dc_reject_inject_reads()
    ensures
        sites::patterns_valid(dc_reject_inject_model()),
        sites::symbols_plain(dc_reject_inject_model()),
{
    lemma_sig_dc_reject_inject();
    reveal_strlit("dc_reject");
    assert(text::ascii_from("dc_reject"@, 0)) by {
        reveal_with_fuel(text::ascii_from, 6);
    }
    text::lemma_ascii("dc_reject"@);
}

} // verus!

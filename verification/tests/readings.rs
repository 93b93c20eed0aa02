//! Reading a module: what single sites hold, and what the whole file is doing.

use stereocord::patch::{self, State};
use stereocord::resolve;
use stereocord::sites::{find, Site};
use stereocord::status::readout::{rows, Level};
use stereocord::status::{inspect, read_one, Baseline, SiteState};

fn site(name: &str) -> &'static Site {
    find(name).unwrap()
}

#[test]
fn a_stock_byte_reads_as_stock_and_a_patched_one_as_applied() {
    // CommitAudioCodec_StereoCheck writes 0x00 over a stock 0x02.
    let s = site("CommitAudioCodec_StereoCheck");
    assert_eq!(read_one(&[0x02], s, 0), SiteState::Stock);
    assert_eq!(read_one(&[0x00], s, 0), SiteState::Applied);
    assert_eq!(read_one(&[0x7F], s, 0), SiteState::Foreign);
}

#[test]
fn an_entry_stub_is_applied_only_when_it_is_a_ret() {
    let s = site("GainController2_Bypass");
    assert_eq!(read_one(&[0xC3], s, 0), SiteState::Applied);
    // A push rbp prologue is simply the untouched function.
    assert_eq!(read_one(&[0x55, 0x48, 0x89, 0xE5], s, 0), SiteState::Stock);
}

#[test]
fn a_ctl_lock_is_read_back_through_its_rewritten_prologue() {
    let s = site("WebRtcOpus_SetBitRate");
    let stock = [0x55, 0x48, 0x89, 0xE5, 0x89, 0xF2];
    assert_eq!(read_one(&stock, s, 0), SiteState::Stock);
    // push rbp ; mov edx, 248000
    let mut patched = vec![0x55, 0xBA];
    patched.extend_from_slice(&248_000u32.to_le_bytes());
    assert_eq!(read_one(&patched, s, 0), SiteState::Applied);
}

#[test]
fn reading_past_the_end_is_not_a_panic() {
    let s = site("WebRtcOpus_SetBitRate");
    assert_eq!(read_one(&[0x55], s, 0), SiteState::Foreign);
    assert_eq!(read_one(&[], s, 4096), SiteState::Foreign);
}

#[test]
fn every_row_says_something() {
    // Whatever the state, no row may be blank — the panel is the whole point and
    // an empty cell reads as a bug.
    let states: Vec<(&'static str, SiteState)> = Vec::new();
    let rows = rows(&states, None, false);
    assert!(!rows.is_empty());
    for r in &rows {
        assert!(!r.value.is_empty(), "{} has no value", r.label);
        assert!(!r.note.is_empty(), "{} has no note", r.label);
    }
}

#[test]
fn unreadable_sites_are_not_called_unpatched() {
    let states: Vec<(&'static str, SiteState)> = Vec::new();
    for r in rows(&states, None, false) {
        assert!(r.level != Level::Bad, "{} reads as {}", r.label, r.value);
    }
}

#[test]
fn an_empty_file_is_not_recognised() {
    let facts = inspect(&[], None);
    assert!(!facts.recognised());
    assert_eq!(facts.size, 0);
    assert_eq!(facts.md5, "d41d8cd98f00b204e9800998ecf8427e");
    assert!(facts.symbols.is_none());
    assert!(facts.state == State::Stock);
    assert!(facts.baseline == Baseline::SelfScan);
    assert_eq!(facts.site("CommitAudioCodec_StereoCheck"), SiteState::Unknown);
    assert_eq!(facts.bitrate_bps, None);
}

#[test]
fn a_backup_of_another_length_is_not_a_baseline() {
    let facts = inspect(&[0u8; 8], Some(&[0u8; 9]));
    assert!(facts.baseline == Baseline::SelfScan);
    let facts = inspect(&[0u8; 8], Some(&[1u8; 8]));
    assert!(facts.baseline == Baseline::Backup);
}

#[test]
fn injected_filters_are_recognised_wherever_they_stand() {
    let mut data = vec![0u8; 40];
    data.extend_from_slice(&stereocord::shellcode::hp_cutoff(0x3F80_0000));
    data.extend_from_slice(&[0u8; 9]);
    let report = resolve::resolve_all(&data, None);
    assert!(patch::classify(&data, &report) == State::Stereocord);
    assert!(patch::classify(&[0u8; 64], &resolve::resolve_all(&[0u8; 64], None)) == State::Stock);
}

#[test]
fn what_cannot_be_read_is_not_partly_done() {
    let row = |process: SiteState, analyze: SiteState| {
        let states = vec![
            ("NoiseSuppressorProcess_Bypass", process),
            ("NoiseSuppressorAnalyze_Bypass", analyze),
        ];
        let all = rows(&states, None, false);
        let found = all.iter().find(|r| r.label == "Noise removal").unwrap();
        found.value.clone()
    };
    assert_eq!(row(SiteState::Stock, SiteState::Unknown), "cannot tell");
    assert_eq!(row(SiteState::Applied, SiteState::Unknown), "cannot tell");
    assert_eq!(row(SiteState::Unknown, SiteState::Unknown), "cannot tell");
    assert_eq!(row(SiteState::Applied, SiteState::Stock), "partly off");
    assert_eq!(row(SiteState::Stock, SiteState::Stock), "on");
    assert_eq!(row(SiteState::Applied, SiteState::Applied), "off");
}

#[test]
fn every_kind_of_site_can_hold_neither() {
    let hp = site("HpCutoff_Inject");
    let code = stereocord::shellcode::hp_cutoff(patch::UNITY_GAIN);
    assert_eq!(read_one(&code, hp, 0), SiteState::Applied);
    assert_eq!(read_one(&[0x55, 0x48, 0x89, 0xE5], hp, 0), SiteState::Stock);
    assert_eq!(read_one(&[0x90; 32], hp, 0), SiteState::Foreign);
    assert_eq!(read_one(&[], hp, 8), SiteState::Foreign);
    let rate = site("OpusConfig_Bitrate");
    assert_eq!(read_one(&32_000u32.to_le_bytes(), rate, 0), SiteState::Stock);
    assert_eq!(read_one(&248_000u32.to_le_bytes(), rate, 0), SiteState::Applied);
    assert_eq!(read_one(&0x9090_9090u32.to_le_bytes(), rate, 0), SiteState::Foreign);
    let dc = site("DcReject_Coefficient");
    let constant = |f: f32| {
        let mut data = 0u32.to_le_bytes().to_vec();
        data.extend_from_slice(&f.to_le_bytes());
        data
    };
    assert_eq!(read_one(&constant(0.0), dc, 0), SiteState::Applied);
    assert_eq!(read_one(&constant(6.3 * 3.0), dc, 0), SiteState::Stock);
    assert_eq!(read_one(&constant(1.0), dc, 0), SiteState::Foreign);
    // Of this one only the first bytes are the same in every build.
    let downmix = site("MonoDownmix_Bypass");
    let mut stock = vec![0x84, 0xC0, 0x74, 0x0D, 0x83, 0xBB];
    stock.extend_from_slice(&[0x11; 10]);
    assert_eq!(read_one(&stock, downmix, 0), SiteState::Stock);
    assert_eq!(read_one(&[0x11; 16], downmix, 0), SiteState::Foreign);
}

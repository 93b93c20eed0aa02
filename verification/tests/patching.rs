//! Planning, checking, writing and reading back a patch.

use stereocord::apply::{
    self, backed_up, effects, loaded_note, patched, plan, prepare, report_gaps, restored_note, start,
    state_of_module, verified, verified_note, Note, Start,
};
use stereocord::patch::{
    self, build, check, verify, CheckError, Config, Edit, Plan, State, UNITY_GAIN,
};
use stereocord::resolve::{resolve_all, Outcome, Report, Resolved, Via};
use stereocord::shellcode;
use stereocord::sites::{find, sites};
use stereocord::status::{inspect, SiteState};

/// `cmp dword [rbx+0xF0], 2` and what follows it.
const STEREO_CHECK: [u8; 25] = [
    0x83, 0xBB, 0xF0, 0x00, 0x00, 0x00, 0x02, 0x48, 0x8D, 0x05, 0x11, 0x22, 0x33, 0x44, 0x48, 0x8D,
    0x15, 0x55, 0x66, 0x77, 0x11, 0x48, 0x0F, 0x43, 0xD0,
];

/// A file with the site that advertises stereo, twice.
fn module() -> Vec<u8> {
    let mut data = vec![0xCCu8; 16];
    data.extend_from_slice(&STEREO_CHECK);
    data.extend_from_slice(&[0xCC; 16]);
    data.extend_from_slice(&STEREO_CHECK);
    data.extend_from_slice(&[0xCC; 16]);
    data
}

fn only(group: &str) -> Config {
    Config { groups: vec![group.to_string()], ..Config::default() }
}

#[test]
fn a_site_is_found_as_often_as_it_should_be() {
    let data = module();
    let report = resolve_all(&data, None);
    let r = report.resolved("CommitAudioCodec_StereoCheck").unwrap();
    assert_eq!(r.offsets, vec![22, 63]);
    assert_eq!(r.variant, 0);
    assert!(matches!(r.via, Via::Scan));
    assert!(report.covered("CommitAudioCodec_StereoCheck"));
    assert!(!report.missing().contains(&"CommitAudioCodec_StereoCheck"));
}

#[test]
fn a_site_found_once_too_few_is_ambiguous() {
    let mut data = vec![0xCCu8; 4];
    data.extend_from_slice(&STEREO_CHECK);
    let report = resolve_all(&data, None);
    match report.outcome("CommitAudioCodec_StereoCheck") {
        Some(Outcome::Ambiguous { found, .. }) => assert_eq!(*found, 1),
        _ => panic!("one match is not two"),
    }
    assert!(report.resolved("CommitAudioCodec_StereoCheck").is_none());
    assert!(report.outcome("NoSuchSite").is_none());
}

#[test]
fn a_plan_patches_the_selected_group_and_nothing_else() {
    let data = module();
    let report = resolve_all(&data, None);
    let plan = build(&report, &only("stereo"), &data);
    let places: Vec<usize> = plan.edits.iter().map(|e| e.offset).collect();
    assert_eq!(places, vec![22, 63]);
    assert!(plan.edits.iter().all(|e| e.group == "stereo" && e.bytes == vec![0x00]));
    assert_eq!(plan.total_bytes(), 2);
    assert_eq!(plan.wide_total(), 2);
    assert!(build(&report, &only("gain"), &data).edits.is_empty());
}

#[test]
fn a_written_plan_verifies_and_touches_nothing_else() {
    let before = module();
    let report = resolve_all(&before, None);
    let plan = build(&report, &only("stereo"), &before);
    assert!(check(&plan, &before).is_empty());
    assert_eq!(verify(&plan, &before).len(), 2);
    let mut after = before.clone();
    patch::apply(&plan, &mut after);
    assert!(verify(&plan, &after).is_empty());
    assert_eq!(after.len(), before.len());
    for i in 0..before.len() {
        if i == 22 || i == 63 {
            assert_eq!(after[i], 0x00);
        } else {
            assert_eq!(after[i], before[i]);
        }
    }
    let once = after.clone();
    patch::apply(&plan, &mut after);
    assert_eq!(after, once);
}

#[test]
fn a_patch_reads_back() {
    let before = module();
    let report = resolve_all(&before, None);
    let plan = build(&report, &only("stereo"), &before);
    let mut after = before.clone();
    patch::apply(&plan, &mut after);
    let facts = inspect(&after, Some(&before));
    assert_eq!(facts.site("CommitAudioCodec_StereoCheck"), SiteState::Applied);
    assert_eq!(inspect(&before, None).site("CommitAudioCodec_StereoCheck"), SiteState::Stock);
    assert!(facts.group_roll("stereo").0 > 0);
    assert!(facts.recognised());
    assert!(facts.state == State::Foreign);
}

#[test]
fn unexpected_bytes_and_short_files_are_errors() {
    let edit = |offset| Edit {
        site: "CommitAudioCodec_StereoCheck",
        group: "stereo",
        what: "x",
        offset,
        bytes: vec![0x00],
    };
    let plan = Plan { edits: vec![edit(3)] };
    let errors = check(&plan, &[0xFF; 8]);
    assert_eq!(errors.len(), 1);
    assert!(errors[0].to_text().contains("CommitAudioCodec_StereoCheck"), "{}", errors[0].to_text());
    assert!(matches!(errors[0], CheckError::UnexpectedBytes { .. }));
    let errors = check(&Plan { edits: vec![edit(8)] }, &[0x02; 8]);
    assert!(matches!(errors[0], CheckError::OutOfRange { .. }));
    assert!(check(&plan, &[0x02; 8]).is_empty());
}

#[test]
fn a_module_missing_critical_sites_blocks_a_patch() {
    let prepared = prepare(module());
    assert!(prepared.blocked());
    assert!(!prepared.critical_missing.is_empty());
    assert!(prepared.missing.len() >= prepared.critical_missing.len());
    let notes = report_gaps(&prepared);
    assert!(notes.iter().any(|n| matches!(n, Note::Bad(_))));
    let said: Vec<&String> = notes.iter().map(|n| n.text()).collect();
    assert!(said.iter().any(|s| s.contains("decide whether audio is mono or stereo")));
}

#[test]
fn what_was_planned_is_what_is_said() {
    let prepared = prepare(module());
    let cfg = only("stereo");
    let plan = plan(&prepared, &cfg).unwrap();
    assert_eq!(effects(&plan, &prepared.report, &cfg, "1"), vec!["stereo"]);
    let empty = Plan { edits: Vec::new() };
    assert!(effects(&empty, &prepared.report, &cfg, "1").is_empty());
}

#[test]
fn a_refused_plan_names_what_it_found() {
    // The second copy of the site holds a byte that no build has.
    let mut data = module();
    data[63] = 0x7F;
    let prepared = prepare(data);
    let err = match apply::plan(&prepared, &only("stereo")) {
        Err(e) => e,
        Ok(_) => panic!("unexpected bytes"),
    };
    assert!(err.starts_with("signature matched unexpected bytes; nothing was written.\n"), "{err}");
    assert!(err.contains("CommitAudioCodec_StereoCheck"), "{err}");
}

#[test]
fn a_faithful_write_verifies_and_a_torn_one_does_not() {
    let prepared = prepare(module());
    let before = prepared.data.clone();
    let plan = plan(&prepared, &only("stereo")).unwrap();
    let kept = backed_up(true, "/b/x.node");
    let written = patched(&kept, prepared, &plan);
    let sum = verified(&plan, &written).unwrap();
    assert_eq!(sum, stereocord::md5::hex(&written));
    assert!(matches!(verified_note(&sum), Note::Good(_)));
    let err = verified(&plan, &before).unwrap_err();
    assert!(err.contains("CommitAudioCodec_StereoCheck"), "{err}");
}

#[test]
fn a_run_starts_from_a_stock_module() {
    assert!(state_of_module(&module()) == State::Stock);
    assert!(matches!(start(State::Stock, "/m", false, false), Start::Ready));
    assert!(matches!(loaded_note(&module()), Note::Info(_)));
    match start(State::Foreign, "/m", false, false) {
        Start::Refused(e) => assert!(!e.is_empty()),
        _ => panic!("a patched module without a backup cannot be started from"),
    }
    assert!(matches!(start(State::Foreign, "/m", true, true), Start::ReadBackup(_)));
    assert!(matches!(start(State::Stereocord, "/m", true, false), Start::Restore));
    assert!(!restored_note(State::Foreign, "/b").text().is_empty());
}

#[test]
fn the_default_configuration_is_the_recommended_one() {
    let cfg = Config::default();
    assert_eq!(cfg.bitrate_kbps, 248);
    assert_eq!(cfg.bitrate_bps(), 248_000);
    assert_eq!(cfg.gain, UNITY_GAIN);
    assert_eq!(cfg.gain, 1.0f32.to_bits());
    assert_eq!(cfg.groups, stereocord::sites::default_groups());
}

fn edit_at(site: &'static str, group: &'static str, bytes: Vec<u8>) -> Edit {
    Edit { site, group, what: "", offset: 0, bytes }
}

#[test]
fn patched_sites_pass_the_check() {
    // push rbp ; mov edx, 248000
    let locked = vec![0x55u8, 0xBA, 0xC0, 0xC8, 0x03, 0x00];
    let locks = [
        ("WebRtcOpus_SetBitRate", "bitrate"),
        ("WebRtcOpus_PacketLoss_Zero", "encoder"),
        ("WebRtcOpus_Complexity_Max", "encoder"),
        ("WebRtcOpus_Bandwidth_Fullband", "encoder"),
    ];
    for (site, group) in locks {
        let plan = Plan { edits: vec![edit_at(site, group, locked.clone())] };
        assert!(check(&plan, &locked).is_empty(), "{site}");
        let stock = [0x55, 0x48, 0x89, 0xE5, 0x89, 0xF2];
        assert!(check(&plan, &stock).is_empty(), "{site}");
        assert_eq!(check(&plan, &[0x90; 6]).len(), 1, "{site}");
    }
    let hp = shellcode::hp_cutoff(UNITY_GAIN);
    let dc = shellcode::dc_reject(UNITY_GAIN);
    for (site, own, other) in [("HpCutoff_Inject", &hp, &dc), ("DcReject_Inject", &dc, &hp)] {
        let plan = Plan { edits: vec![edit_at(site, "filter", own.clone())] };
        assert!(check(&plan, own).is_empty(), "{site}");
        // The other filter's code is not this one's.
        assert_eq!(check(&plan, other).len(), 1, "{site}");
    }
}

#[test]
fn a_patched_file_can_be_patched_again() {
    let prepared = prepare(module());
    let cfg = only("stereo");
    let plan = plan(&prepared, &cfg).unwrap();
    let written = patched(&backed_up(true, "/b/x.node"), prepared, &plan);
    assert!(check(&plan, &written).is_empty());
}

#[test]
fn every_declared_site_lists_its_patched_bytes_last() {
    for site in sites() {
        if let (stereocord::sites::Action::Bytes(b), Some(last)) = (site.action, site.expect_orig.last()) {
            assert_eq!(b, *last, "{}", site.name);
        }
    }
}

#[test]
fn a_filter_that_is_not_there_counts_only_where_it_is_covered() {
    let application = Resolved {
        site: find("OpusConfig_Application").unwrap(),
        offsets: vec![0],
        variant: 0,
        pattern: "",
        via: Via::Scan,
    };
    let report = Report {
        order: vec!["OpusConfig_Application", "HpCutoff_Inject"],
        outcomes: vec![Outcome::Found(application), Outcome::Missing],
    };
    assert!(report.excused("HpCutoff_Inject").is_some());
    let cfg = only("filter");
    let dc = || edit_at("DcReject_Coefficient", "filter", vec![0; 4]);
    let alone = Plan { edits: vec![dc()] };
    assert_eq!(
        effects(&alone, &report, &cfg, "1"),
        vec!["high-pass bypassed (opus filters still active)"],
    );
    let covered = Plan { edits: vec![edit_at("OpusConfig_Application", "opus", vec![1]), dc()] };
    assert_eq!(effects(&covered, &report, &cfg, "1"), vec!["audio mode", "filters bypassed"]);
}

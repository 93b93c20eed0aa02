//! The command line: arguments, selection, and what is printed.

use stereocord::cli::{
    command, newest_per_channel, parse_args, parse_groups, select, staged_updates, Args, Command, Gain,
    Parsed, Scope,
};
use stereocord::console::{
    backups_listing, confirmed, groups_listing, is_yes, note_lines, patch_one, patch_prompt,
    patch_summary, report_sites, restore_line, restore_step, restore_summary, running_gate,
    scan_listing, staged_patch_note, staged_scan_note, Entry, RestoreStep, Shown, Turn,
};
use stereocord::apply::{prepare, Note};
use stereocord::discovery::{Install, Version};
use stereocord::patch::Config;
use stereocord::status::inspect;
use stereocord::text;

fn install(channel: &str, version: &str, node: bool) -> Install {
    Install {
        channel: channel.to_string(),
        version: Version::parse(version),
        app_dir: format!("/a/{channel}/app-{version}"),
        node: if node { Some(format!("/m/{channel}/{version}.node")) } else { None },
        key: None,
    }
}

fn gain(s: &str) -> Option<Gain> {
    s.parse::<f32>().ok().map(|g| Gain {
        bits: g.to_bits(),
        in_range: (0.1..=10.0).contains(&g),
        shown: format!("{g}"),
    })
}

fn parse(args: &[&str]) -> Result<Parsed, String> {
    let list: Vec<String> = args.iter().map(|s| s.to_string()).collect();
    let gains: Vec<Option<Gain>> = list.iter().map(|s| gain(s)).collect();
    parse_args(&list, &gains)
}

fn run(args: &[&str]) -> Args {
    match parse(args) {
        Ok(Parsed::Run(a)) => a,
        _ => panic!("not a run"),
    }
}

fn error(args: &[&str]) -> String {
    match parse(args) {
        Err(e) => e,
        _ => panic!("not an error"),
    }
}

#[test]
fn no_arguments_open_the_interface_and_options_alone_scan() {
    assert_eq!(run(&[]).command, "tui");
    assert_eq!(run(&["-v"]).command, "scan");
    assert_eq!(run(&["patch", "-y"]).command, "patch");
}

#[test]
fn every_option_is_taken_in() {
    let a = run(&[
        "patch", "-c", "Canary", "-a", "-b", "320", "--gain", "2.5", "-n", "-f", "--allow-partial",
        "-y", "-v", "-g", "stereo, gain", "--node", "/x",
    ]);
    assert_eq!(a.client.as_deref(), Some("Canary"));
    assert!(a.all && a.dry_run && a.force && a.allow_partial && a.yes && a.verbose);
    assert_eq!(a.bitrate, 320);
    assert_eq!(a.gain.bits, 2.5f32.to_bits());
    assert_eq!(a.node.as_deref(), Some("/x"));
    assert!(matches!(a.scope(), Scope::Module(path) if path == "/x"));
    assert!(matches!(run(&["patch"]).scope(), Scope::Installs));
    assert_eq!(a.groups, Some(vec!["stereo".to_string(), "gain".to_string()]));
    let cfg = a.config();
    assert_eq!((cfg.bitrate_kbps, cfg.gain), (320, 2.5f32.to_bits()));
    assert_eq!(cfg.groups, vec!["stereo", "gain"]);
    assert_eq!(run(&["patch"]).config().groups, stereocord::sites::default_groups());
}

#[test]
fn help_and_version_win_at_once() {
    assert!(matches!(parse(&["--help", "--nonsense"]), Ok(Parsed::Help)));
    assert!(matches!(parse(&["-V"]), Ok(Parsed::Version)));
}

#[test]
fn bad_arguments_say_what_is_wrong() {
    assert_eq!(error(&["--bitrate"]), "--bitrate needs a value");
    assert_eq!(error(&["-b", "x\"y"]), "bad bitrate \"x\\\"y\"");
    assert_eq!(error(&["--gain", "loud"]), "bad gain \"loud\"");
    assert_eq!(error(&["--nope"]), "unknown option \"--nope\"");
    assert_eq!(error(&["scan", "again"]), "unexpected argument \"again\"");
    assert_eq!(error(&["-b", "7"]), "bitrate 7 kbps is outside 8-512");
    assert_eq!(error(&["-b", "513"]), "bitrate 513 kbps is outside 8-512");
    assert_eq!(error(&["--gain", "11"]), "gain 11 is outside 0.1-10.0");
    assert_eq!(error(&["-g", ","]), "--groups selected nothing");
}

#[test]
fn groups_are_named_or_all_of_them() {
    assert_eq!(parse_groups(" all ").unwrap().len(), 11);
    assert_eq!(parse_groups("stereo,,cbr").unwrap(), vec!["stereo", "cbr"]);
    let err = parse_groups("steroe").unwrap_err();
    assert!(err.starts_with("unknown group \"steroe\"; known groups are stereo, samplerate, "), "{err}");
}

#[test]
fn commands_are_known_by_name() {
    assert!(command("scan") == Ok(Command::Scan));
    assert!(command("shellcode") == Ok(Command::Shellcode));
    assert_eq!(
        command("scam").err().unwrap(),
        "unknown command \"scam\"\n\nTry 'stereocord --help'."
    );
}

#[test]
fn the_newest_of_each_channel_with_a_module_is_selected() {
    let list = vec![
        install("Discord", "1.0.3", false),
        install("Discord", "1.0.2", true),
        install("Discord", "1.0.1", true),
        install("Discord PTB", "1.0.1", true),
    ];
    assert_eq!(select(&list, &None, false).unwrap(), vec![1, 3]);
    assert_eq!(select(&list, &None, true).unwrap(), vec![0, 1, 2, 3]);
    assert_eq!(select(&list, &Some("ptb".to_string()), false).unwrap(), vec![3]);
    assert_eq!(
        select(&list, &Some("beta".to_string()), false).unwrap_err(),
        "no install matches \"beta\"; run 'stereocord scan' to see what is here"
    );
    assert_eq!(
        select(&Vec::new(), &None, false).unwrap_err(),
        "no Discord installation found under ~/.config"
    );
    let empty = vec![install("Discord", "1.0.3", false)];
    assert!(select(&empty, &None, false).unwrap_err().contains("empty voice module directory"));
    assert_eq!(newest_per_channel(&list), vec!["Discord 1.0.3", "Discord PTB 1.0.1"]);
}

#[test]
fn staged_updates_name_what_blocks_them() {
    let list = vec![
        install("Discord", "1.0.3", false),
        install("Discord", "1.0.2", true),
        install("Discord PTB", "1.0.1", false),
    ];
    assert_eq!(staged_updates(&list, &vec![false, false, false]), vec![(0, None)]);
    assert_eq!(
        staged_updates(&list, &vec![false, true, false]),
        vec![(0, Some("Discord 1.0.2".to_string()))]
    );
    assert!(staged_scan_note("D 2", &Some("D 1".to_string())).starts_with(
        "\nnote: D 2 is staged, but its voice module is missing and D 1 is\npatched. Discord ships"
    ));
    assert!(staged_scan_note("D 2", &None).starts_with("\nnote: D 2 has no voice module yet."));
    assert!(staged_patch_note("D 2", &Some("D 1".to_string())).contains("and D 1 is patched. Run\n"));
    assert!(staged_patch_note("D 2", &None).starts_with("note: D 2 is staged with no voice module"));
}

#[test]
fn the_listing_marks_what_will_be_launched() {
    let list = vec![install("Discord", "1.0.3", false), install("Discord", "1.0.2", true)];
    let shown = vec![
        Shown { size: None, path: "/a/modules".to_string() },
        Shown { size: Some(123), path: "/a/x.node".to_string() },
    ];
    let lines = scan_listing(&list, &shown);
    assert_eq!(lines[0], "Discord installs");
    assert_eq!(lines[1], format!("-> {:<26} {:>12}         /a/modules", "Discord 1.0.3", "(no module)"));
    assert_eq!(lines[2], format!("   {:<26} {:>12} bytes  /a/x.node", "Discord 1.0.2", 123));
    assert!(lines[3].starts_with("\n'->' marks"));
    assert_eq!(lines.len(), 4);
}

#[test]
fn a_module_report_ends_in_a_tally() {
    let facts = inspect(&[], None);
    let lines = report_sites(&facts, false);
    assert_eq!(lines[0], "  size 0 bytes, md5 d41d8cd98f00b204e9800998ecf8427e");
    assert_eq!(lines[1], "  symbols: none (stripped) - falling back to scanning");
    assert!(lines[2].starts_with("  status: unrecognised"));
    let last = lines.last().unwrap();
    assert!(last.starts_with("    0/37 sites located"), "{last}");
    let missing = lines.iter().filter(|l| l.starts_with("    MISSING ")).count();
    let excused = lines.iter().filter(|l| l.starts_with("    n/a     ")).count();
    assert_eq!(missing + excused, 37);
    assert!(last.ends_with(&format!(", {missing} missing")), "{last}");
}

#[test]
fn a_verbose_report_shows_where_a_site_was_found() {
    let check = [
        0x83u8, 0xBB, 0xF0, 0x00, 0x00, 0x00, 0x02, 0x48, 0x8D, 0x05, 1, 2, 3, 4, 0x48, 0x8D, 0x15, 5,
        6, 7, 8, 0x48, 0x0F, 0x43, 0xD0,
    ];
    let mut data = vec![0xCCu8; 16];
    data.extend_from_slice(&check);
    data.extend_from_slice(&check);
    let facts = inspect(&data, None);
    let lines = report_sites(&facts, true);
    let wanted = format!(
        "    ok      {:<30} {:<10} {:<20} ",
        "CommitAudioCodec_StereoCheck", "stereo", "0x16, 0x2F"
    );
    assert!(lines.iter().any(|l| l.starts_with(&wanted)), "{lines:?}");
    assert!(!report_sites(&facts, false).iter().any(|l| l.starts_with("    ok")));
}

#[test]
fn a_running_client_stops_a_run_unless_forced() {
    let gate = running_gate(&vec![12, 7], false);
    assert!(!gate.go);
    assert!(gate.lines[0].starts_with("  Discord is running (pid 12, 7). The running client"));
    let gate = running_gate(&vec![12], true);
    assert!(gate.go);
    assert_eq!(gate.lines, vec!["  warning: Discord is running (pid 12); --force given"]);
    let gate = running_gate(&Vec::new(), false);
    assert!(gate.go && gate.lines.is_empty());
}

#[test]
fn patching_stops_where_it_must() {
    let cfg = Config::default();
    let prepared = prepare(vec![0xCC; 64]);
    match patch_one(&prepared, &cfg, "1", false, false, false, false) {
        Turn::Stop { lines } => assert_eq!(
            lines.last().unwrap(),
            "  Refusing to patch. Pass --allow-partial to apply the rest anyway."
        ),
        _ => panic!("critical sites are missing"),
    }
    match patch_one(&prepared, &cfg, "1", true, false, false, false) {
        Turn::Stop { lines } => {
            assert_eq!(lines.last().unwrap(), "  nothing to change for the groups selected")
        }
        _ => panic!("there is nothing to change"),
    }
    let none = Config { groups: Vec::new(), ..Config::default() };
    match patch_one(&prepared, &none, "1", true, false, false, false) {
        Turn::Stop { lines } => assert_eq!(
            &lines[lines.len() - 2..],
            &[
                "  --allow-partial given; applying the sites that did resolve",
                "  no groups selected; nothing to do"
            ]
        ),
        _ => panic!("no group is selected"),
    }
}

#[test]
fn a_plan_is_shown_before_it_is_written() {
    let check = [
        0x83u8, 0xBB, 0xF0, 0x00, 0x00, 0x00, 0x02, 0x48, 0x8D, 0x05, 1, 2, 3, 4, 0x48, 0x8D, 0x15, 5,
        6, 7, 8, 0x48, 0x0F, 0x43, 0xD0,
    ];
    let mut data = check.to_vec();
    data.extend_from_slice(&check);
    let prepared = prepare(data);
    let cfg = Config { groups: vec!["stereo".to_string()], ..Config::default() };
    match patch_one(&prepared, &cfg, "1", true, true, false, true) {
        Turn::Write { lines, plan, ask } => {
            assert!(!ask);
            assert_eq!(plan.edits.len(), 2);
            let n = lines.len();
            assert_eq!(lines[n - 3], "  2 edits, 2 bytes: stereo");
            assert_eq!(
                lines[n - 2],
                format!(
                    "    0x{:08X} {:<10} {:<30} {:<40} 00",
                    6,
                    "stereo",
                    "CommitAudioCodec_StereoCheck",
                    "SDP fmtp stereo=1 (both codec commit paths)"
                )
            );
        }
        _ => panic!("there is something to write"),
    }
    match patch_one(&prepared, &cfg, "1", true, false, true, false) {
        Turn::Stop { lines } => assert_eq!(lines.last().unwrap(), "  dry run; nothing written"),
        _ => panic!("a dry run writes nothing"),
    }
}

#[test]
fn only_a_yes_is_a_yes() {
    assert!(confirmed(" YES\n"));
    assert!(confirmed("y"));
    assert!(!confirmed("yep"));
    assert!(!confirmed(""));
    assert!(is_yes("yes") && !is_yes("YES"));
    assert_eq!(patch_prompt("/x"), "  Patch /x? [y/N] ");
}

#[test]
fn the_end_of_a_run_says_what_was_done() {
    assert_eq!(
        patch_summary(2, false)[0],
        "Patched 2 install(s). Start Discord and re-join a voice channel."
    );
    assert!(patch_summary(2, true).is_empty());
    assert!(patch_summary(0, false).is_empty());
    assert!(restore_summary(0, false).is_some());
    assert!(restore_summary(1, false).is_none());
    assert!(restore_summary(0, true).is_none());
}

#[test]
fn restoring_needs_a_module_and_a_backup() {
    assert!(restore_step(false, true, false) == RestoreStep::Skip);
    assert!(restore_step(true, false, false) == RestoreStep::NoBackup);
    assert!(restore_step(true, true, true) == RestoreStep::WouldRestore);
    assert!(restore_step(true, true, false) == RestoreStep::Restore);
    assert!(restore_line(RestoreStep::Skip, "D", "/x").is_none());
    assert_eq!(restore_line(RestoreStep::NoBackup, "D", "/x").unwrap(), "D: no backup on record");
    assert_eq!(restore_line(RestoreStep::WouldRestore, "D", "/x").unwrap(), "D: would restore /x");
    assert_eq!(restore_line(RestoreStep::Restore, "D", "/x").unwrap(), "D: restored from /x");
}

#[test]
fn groups_and_backups_are_listed() {
    let lines = groups_listing();
    assert!(lines[0].starts_with("Patch groups. The interface offers these as checkboxes"));
    let stereo = lines.iter().find(|l| l.starts_with("  stereo ")).unwrap();
    assert!(stereo.starts_with(&format!("  {:<12} True stereo  (", "stereo")), "{stereo}");
    assert!(stereo.ends_with(" changes, on by default)"), "{stereo}");
    assert!(lines.iter().any(|l| l.starts_with("               ! ")));
    let entries = vec![Entry { path: "/b/x.node".to_string(), size: 9 }];
    assert_eq!(
        backups_listing("/b", &entries),
        vec!["/b".to_string(), format!("  {:>12} bytes  /b/x.node", 9)]
    );
    assert_eq!(backups_listing("/b", &Vec::new()), vec!["No backups in /b"]);
}

#[test]
fn notes_are_indented_line_by_line() {
    assert_eq!(note_lines(&Note::Warn("a\nb".to_string())), vec!["  a", "  b"]);
}

#[test]
fn text_helpers_agree_with_the_standard_library() {
    for s in ["", " a  b ", "one\ttwo\u{3000}three", "\u{a0}x\u{2003}", "a\r\nb\n\nc\n"] {
        let words: Vec<String> = s.split_whitespace().map(|w| w.to_string()).collect();
        assert_eq!(text::split_words(s), words);
        assert_eq!(text::trim(s), s.trim());
        let lines: Vec<String> = s.lines().map(|l| l.to_string()).collect();
        assert_eq!(text::split_lines(s), lines);
    }
    for n in [0u64, 7, 10, 255, 65_536, u64::MAX] {
        assert_eq!(text::to_decimal(n), n.to_string());
        assert_eq!(text::to_hexadecimal(n), format!("{n:X}"));
        assert_eq!(text::pad_zeros(&text::to_hexadecimal(n), 8), format!("{n:08X}"));
        assert_eq!(text::wide_decimal(n as u128), n.to_string());
    }
    for s in ["0", "+7", "4294967295", "4294967296", "", "+", "-1", "1 "] {
        assert_eq!(text::parse_u32(s), s.parse::<u32>().ok());
    }
    assert_eq!(text::pad("●a", 5), format!("{:<5}", "●a"));
    assert_eq!(text::pad_left("ab", 4), format!("{:>4}", "ab"));
    assert_eq!(text::wrap_plain("one two three", 7), vec!["one two", "three"]);
}

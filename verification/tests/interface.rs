//! The terminal interface.

use stereocord::discovery::{Install, Version};
use stereocord::picker::default_switches;
use stereocord::sites::groups;
use stereocord::status::inspect;
use stereocord::status::readout::Level;
use stereocord::tui::app::{step_bitrate, App, Effect, Focus, Key, Screen};
use stereocord::tui::dialogs::{reinstall_dialog, Copies};
use stereocord::tui::jobs::{
    cleared_log, deleted_log, do_patch, failure, failure_with, note_line, patched_log, restored_log,
    Log, LogLine, Reply, Request, Stage,
};
use stereocord::tui::layout::{centred, framed, Fit, Rect, Split};
use stereocord::tui::panes::{Body, Pane};
use stereocord::tui::paths::{common_prefix, completion, expand, split_typed};
use stereocord::tui::scene::{column_fits, dialog_fits, draw, frame_fits};
use stereocord::tui::targets::{build_targets, moved, next_selectable, Found, Kind, LooseFile, Target, Way};
use stereocord::tui::theme::{bytes, key_hint, level_color, pad, row_style, Line, BAD, GOOD};

#[test]
fn bitrate_steps_stop_at_the_ends() {
    assert_eq!(step_bitrate(8, -1), 8);
    assert_eq!(step_bitrate(512, 1), 512);
    assert_eq!(step_bitrate(248, 1), 256);
    assert_eq!(step_bitrate(248, -1), 224);
}

#[test]
fn an_off_scale_bitrate_lands_on_a_neighbouring_stop() {
    // --bitrate 300 is legal on the command line but not one of the stops.
    assert_eq!(step_bitrate(300, 1), 384);
    assert_eq!(step_bitrate(300, -1), 256);
}

#[test]
fn tildes_expand_and_other_paths_are_left_alone() {
    let home = "/home/someone";
    assert_eq!(expand("~", home), "/home/someone");
    assert_eq!(expand("~/x/y", home), "/home/someone/x/y");
    assert_eq!(expand("$HOME/x", home), "/home/someone/x");
    assert_eq!(expand("/abs/path", home), "/abs/path");
    assert_eq!(expand("relative", home), "relative");
}

#[test]
fn completion_prefixes_agree_on_what_they_share() {
    assert_eq!(common_prefix("discord_voice", "discord_vo"), "discord_vo");
    assert_eq!(common_prefix("abc", "xyz"), "");
}

#[test]
fn the_opening_list_always_offers_a_way_in() {
    // Even with nothing installed, the path row has to be selectable —
    // otherwise a custom client's user has no way past the first screen.
    let targets = build_targets(&Vec::new(), &None);
    assert!(targets.iter().any(|t| matches!(t.kind, Kind::AskForPath)));
    assert!(targets.iter().any(|t| t.selectable()));
}

#[test]
fn a_dialog_never_exceeds_the_screen() {
    let tiny = Rect { x: 0, y: 0, width: 20, height: 6 };
    let box_ = centred(tiny, 66, 15);
    assert!(box_.width <= tiny.width && box_.height <= tiny.height);
    assert!(box_.x + box_.width <= tiny.x + tiny.width);
    assert!(box_.y + box_.height <= tiny.y + tiny.height);
}

#[test]
fn a_dialog_on_a_one_cell_screen_is_still_valid() {
    let sliver = Rect { x: 0, y: 0, width: 1, height: 1 };
    let box_ = centred(sliver, 66, 15);
    assert_eq!((box_.width, box_.height), (1, 1));
}

#[test]
fn padding_reaches_the_requested_width() {
    assert_eq!(pad("ab", 5), "ab   ");
    assert_eq!(pad("abcdef", 3), "abcdef");
    assert_eq!(pad("●", 3), "●  ");
}

#[test]
fn sizes_read_as_megabytes_once_they_are_large() {
    assert_eq!(bytes(512), "512 B");
    assert_eq!(bytes(121_075_464), "115.5 MB");
}

#[test]
fn sizes_round_as_doubles_do() {
    for n in [
        1u64 << 20,
        (1 << 20) + (1 << 18),
        (1 << 20) + 3 * (1 << 18),
        (1 << 20) - 1,
        104_805_990,
        999_999_999,
        (1 << 53) + 1,
        (1 << 62) + 12_345_678_901,
        u64::MAX,
    ] {
        let wanted = if n >= 1024 * 1024 {
            format!("{:.1} MB", n as f64 / (1024.0 * 1024.0))
        } else {
            format!("{n} B")
        };
        assert_eq!(bytes(n), wanted);
    }
}

fn install(channel: &str, version: &str, node: Option<&str>) -> Install {
    Install {
        channel: channel.to_string(),
        version: Version::parse(version),
        app_dir: format!("/a/{channel}/app-{version}"),
        node: node.map(|s| s.to_string()),
        key: None,
    }
}

fn found(channel: &str, version: &str, node: Option<&str>, backup: bool, removed: bool) -> Found {
    Found { install: install(channel, version, node), size: 3 << 20, backup, removed }
}

fn sample() -> Vec<Target> {
    build_targets(
        &vec![
            found("Discord", "1.0.2", Some("/m/two.node"), true, false),
            found("Discord", "1.0.1", None, false, true),
            found("Discord PTB", "1.0.1", None, false, false),
        ],
        &None,
    )
}

fn app() -> App {
    App::new(sample(), 248, 1.0f32.to_bits())
}

fn copies(backup: bool) -> Copies {
    Copies {
        backup,
        size: if backup { Some(3 << 20) } else { None },
        backup_path: "/b/x.node".to_string(),
        module_dir: Some("/a/modules/discord_voice-1".to_string()),
        registry: Some("/a/installer.db".to_string()),
    }
}

fn open() -> App {
    let mut a = app();
    let effect = a.on_key(Key::Enter);
    assert!(matches!(effect, Effect::Start(Request::Scan { .. })));
    assert!(matches!(a.replied(Reply::Scanned(inspect(&[0xCC; 64], None))), Effect::Nothing));
    a
}

fn text_of(line: &Line) -> String {
    line.spans.iter().map(|s| s.text.as_str()).collect()
}

fn texts(pane: &Pane) -> Vec<String> {
    match &pane.body {
        Body::Text { lines, .. } => lines.iter().map(text_of).collect(),
        Body::List { rows, .. } => rows.iter().map(text_of).collect(),
        Body::Blank => Vec::new(),
    }
}

#[test]
fn every_install_and_every_absent_channel_has_a_row() {
    let list = sample();
    let labels: Vec<&str> = list.iter().map(|t| t.label.as_str()).collect();
    assert_eq!(
        labels,
        vec![
            "Discord 1.0.2",
            "Discord 1.0.1",
            "Discord PTB 1.0.1",
            "Discord Canary",
            "Discord Development",
            "Another module, by path",
        ]
    );
    assert_eq!(list[0].detail, "3.0 MB · backup on record");
    assert!(list[1].selectable() && !list[2].selectable() && !list[3].selectable());
    assert_eq!(list[3].detail, "not installed");
    assert!(list[0].is_install() && list[1].is_install() && !list[5].is_install());
    assert_eq!(list[0].node().map(|s| s.as_str()), Some("/m/two.node"));
    assert!(list[1].node().is_none() && list[5].install().is_none());
}

#[test]
fn a_module_named_by_path_has_a_row_of_its_own() {
    let loose = LooseFile {
        path: "/opt/x.node".to_string(),
        found: Found {
            install: Install::for_path("/opt/x.node", &vec!["opt".to_string()], "/opt"),
            size: 10,
            backup: false,
            removed: false,
        },
    };
    let list = build_targets(&Vec::new(), &Some(loose));
    let row = &list[list.len() - 2];
    assert!(matches!(row.kind, Kind::Loose { .. }));
    assert_eq!(row.detail, "10 B · /opt/x.node");
    assert!(!row.is_install());
}

#[test]
fn the_cursor_skips_rows_that_cannot_be_chosen() {
    let list = sample();
    assert_eq!(next_selectable(&list, 2, Way::Down), Some(5));
    assert_eq!(moved(&list, 1, Way::Down), 5);
    assert_eq!(moved(&list, 0, Way::Up), 5);
    assert_eq!(moved(&list, 5, Way::Down), 0);
    assert_eq!(next_selectable(&Vec::new(), 0, Way::Down), None);
}

#[test]
fn opening_a_row_reads_its_module() {
    let mut a = app();
    assert_eq!(a.target_cursor, 0);
    match a.on_key(Key::Enter) {
        Effect::Start(Request::Scan { install, node }) => {
            assert_eq!(install.unwrap().label(), "Discord 1.0.2");
            assert_eq!(node, "/m/two.node");
        }
        _ => panic!("opening a row reads it"),
    }
    assert!(a.screen == Screen::Overview);
    assert_eq!(a.busy, Some("Reading the module"));
    // Nothing but leaving is possible while it is being read.
    assert!(matches!(a.on_key(Key::Char('p')), Effect::Nothing));
    assert!(a.screen == Screen::Overview);
    a.on_key(Key::Interrupt);
    assert!(a.quit);
}

#[test]
fn a_row_without_a_module_opens_without_reading() {
    let mut a = app();
    a.on_key(Key::Down);
    assert_eq!(a.target_cursor, 1);
    assert!(matches!(a.on_key(Key::Enter), Effect::Nothing));
    assert!(a.screen == Screen::Overview);
    assert!(!a.action_enabled(0));
    assert!(a.action_enabled(1));
    a.on_key(Key::Char('p'));
    assert!(a.screen == Screen::Overview);
    a.confirm_patch(&Vec::new());
    assert!(a.modal.is_none());
}

#[test]
fn an_unpatched_module_starts_on_the_recommended_set() {
    let a = open();
    assert_eq!(a.groups_on, default_switches());
    assert!(!a.seeded_from_module);
    assert!(a.busy.is_none());
    assert_eq!(a.bitrate, 248);
    assert!(!a.critical_gaps().is_empty());
}

#[test]
fn a_patched_module_starts_on_what_it_has() {
    let check = [
        0x83u8, 0xBB, 0xF0, 0x00, 0x00, 0x00, 0x00, 0x48, 0x8D, 0x05, 1, 2, 3, 4, 0x48, 0x8D, 0x15, 5,
        6, 7, 8, 0x48, 0x0F, 0x43, 0xD0,
    ];
    let mut data = check.to_vec();
    data.extend_from_slice(&check);
    let mut a = app();
    a.on_key(Key::Enter);
    a.replied(Reply::Scanned(inspect(&data, None)));
    assert!(a.seeded_from_module);
    let on: Vec<&str> =
        groups().iter().zip(&a.groups_on).filter(|(_, &v)| v).map(|(g, _)| g.name).collect();
    assert_eq!(on, vec!["stereo"]);
}

#[test]
fn patching_asks_first_and_does_what_the_screen_shows() {
    let mut a = open();
    a.on_key(Key::Char('p'));
    assert!(a.screen == Screen::Patch);
    a.on_key(Key::Char('n'));
    a.on_key(Key::Char(' '));
    a.on_key(Key::Right);
    assert_eq!(a.bitrate, 256);
    assert!(matches!(a.on_key(Key::Enter), Effect::ConfirmPatch));
    a.confirm_patch(&Vec::new());
    let m = a.modal.as_ref().unwrap();
    assert_eq!(m.title, "Not recommended");
    assert_eq!(m.body[0], "This writes to /m/two.node");
    assert!(m.body[2].starts_with("1 of 11 groups, bitrate 256 kbps."));
    assert!(m.danger);
    assert_eq!(m.cursor, 1);
    // Enter on Cancel closes it and starts nothing.
    assert!(matches!(a.on_key(Key::Enter), Effect::Nothing));
    assert!(a.modal.is_none() && a.busy.is_none());
    a.confirm_patch(&vec![5]);
    assert!(a.modal.as_ref().unwrap().body.iter().any(|l| l.starts_with("Discord is running (pid 5)")));
    a.on_key(Key::Tab);
    match a.on_key(Key::Enter) {
        Effect::Start(Request::Patch { install, node, cfg, allow_partial }) => {
            assert_eq!(install.label(), "Discord 1.0.2");
            assert_eq!(node, "/m/two.node");
            assert_eq!(cfg.bitrate_kbps, 256);
            assert_eq!(cfg.groups, vec!["stereo"]);
            assert!(allow_partial);
        }
        _ => panic!("confirming starts the job"),
    }
    assert_eq!(a.busy, Some("Patching"));
}

#[test]
fn with_every_group_off_there_is_nothing_to_write() {
    let mut a = open();
    a.on_key(Key::Char('p'));
    a.on_key(Key::Char('n'));
    a.confirm_patch(&Vec::new());
    let m = a.modal.as_ref().unwrap();
    assert_eq!(m.title, "Nothing selected");
    assert!(m.request.is_none());
    assert!(matches!(a.on_key(Key::Enter), Effect::Nothing));
    assert!(a.modal.is_none());
    a.on_key(Key::Char('a'));
    assert!(a.groups_on.iter().all(|&v| v));
    a.on_key(Key::Char('d'));
    assert_eq!(a.groups_on, default_switches());
    a.on_key(Key::Up);
    assert_eq!(a.group_cursor, groups().len() - 1);
    a.on_key(Key::Down);
    assert_eq!(a.group_cursor, 0);
    a.on_key(Key::Esc);
    assert!(a.screen == Screen::Overview);
}

#[test]
fn managing_starts_on_something_that_can_be_chosen() {
    let mut a = open();
    assert!(matches!(a.on_key(Key::Char('m')), Effect::OpenManage));
    a.open_manage(&copies(false));
    assert!(a.screen == Screen::Manage);
    assert_eq!(a.manage_cursor, 2);
    let items = a.manage_items(&copies(false));
    assert_eq!(items[0].hint, "no backup on record");
    assert!(!items[0].enabled && !items[1].enabled && items[2].enabled && items[3].enabled);
    a.open_manage(&copies(true));
    assert_eq!(a.manage_cursor, 0);
    assert_eq!(a.manage_items(&copies(true))[0].hint, "backup, 3.0 MB");
    assert_eq!(a.manage_items(&copies(true))[1].hint, "frees 3.0 MB");
}

#[test]
fn every_managed_step_is_asked_about() {
    let mut a = open();
    a.open_manage(&copies(true));
    assert!(matches!(a.on_key(Key::Enter), Effect::ChooseManaged));
    a.choose_managed(&copies(true));
    let m = a.modal.as_ref().unwrap();
    assert_eq!((m.title.as_str(), m.cursor, m.danger), ("Restore the original?", 0, false));
    assert_eq!(m.body[0], "This overwrites /m/two.node");
    assert!(matches!(a.on_key(Key::Esc), Effect::Nothing));
    a.on_key(Key::Down);
    a.choose_managed(&copies(true));
    let m = a.modal.as_ref().unwrap();
    assert_eq!((m.title.as_str(), m.cursor, m.danger), ("Delete the backup?", 1, true));
    a.on_key(Key::Left);
    assert!(matches!(a.on_key(Key::Enter), Effect::Start(Request::DeleteBackup { .. })));
    a.replied(Reply::Lost);
    a.on_key(Key::Down);
    a.choose_managed(&copies(true));
    let m = a.modal.as_ref().unwrap();
    assert_eq!(m.title, "Have Discord fetch a fresh module?");
    assert_eq!(m.body[0], "This deletes /a/modules/discord_voice-1");
    assert!(m.danger && m.cursor == 1);
    a.on_key(Key::Esc);
    a.on_key(Key::Down);
    a.choose_managed(&copies(true));
    assert!(a.screen == Screen::Overview && a.modal.is_none());
    // A greyed-out entry does nothing.
    a.open_manage(&copies(false));
    a.on_key(Key::Up);
    assert_eq!(a.manage_cursor, 1);
    a.choose_managed(&copies(false));
    assert!(a.modal.is_none());
}

#[test]
fn reinstalling_says_what_is_gone_already() {
    let m = reinstall_dialog(install("Discord", "1", None), None, &None, &None, false);
    assert_eq!(m.body, vec!["The voice module is already gone.", "", "Quit Discord first, or it will not notice."]);
    assert_eq!(m.confirm, "Clear it");
}

#[test]
fn a_changed_module_is_read_again() {
    let mut a = open();
    a.on_key(Key::Char('p'));
    let log = restored_log("Discord 1.0.2", "/b/x.node");
    assert!(matches!(a.replied(Reply::Finished(log)), Effect::Refresh));
    assert!(a.screen == Screen::Result && a.inspection.is_none());
    a.refresh_targets(sample());
    assert_eq!(a.current, Some(0));
    a.on_key(Key::Down);
    a.on_key(Key::Down);
    a.on_key(Key::Up);
    assert_eq!(a.log_scroll, 1);
    assert!(matches!(a.on_key(Key::Enter), Effect::Start(Request::Scan { .. })));
    assert!(a.log.is_none() && a.screen == Screen::Overview);
}

#[test]
fn a_row_that_went_away_leads_back_to_the_list() {
    let mut a = open();
    a.replied(Reply::Finished(failure("x", "y", false)));
    a.refresh_targets(build_targets(&Vec::new(), &None));
    assert_eq!(a.current, None);
    assert!(matches!(a.on_key(Key::Esc), Effect::Refresh));
    assert!(a.screen == Screen::Targets);
    assert_eq!(a.target_cursor, 4);
}

#[test]
fn typing_a_path_completes_and_is_checked() {
    let mut a = app();
    a.on_key(Key::Up);
    assert!(matches!(a.on_key(Key::Enter), Effect::Nothing));
    assert!(a.screen == Screen::AskPath);
    for c in "~/diz".chars() {
        a.on_key(Key::Char(c));
    }
    a.on_key(Key::Backspace);
    assert_eq!(a.input, "~/di");
    assert!(matches!(a.on_key(Key::Tab), Effect::Complete));
    let typed = a.typing("/home/u");
    assert_eq!(typed, "/home/u/di");
    let (dir, prefix) = split_typed(&typed);
    assert_eq!((dir.as_str(), prefix.as_str()), ("/home/u/", "di"));
    let names: Vec<String> = ["discord", "discordptb", "notes"].iter().map(|s| s.to_string()).collect();
    let done = completion(&dir, &prefix, &names).unwrap();
    assert_eq!(done.path, "/home/u/discord");
    assert!(!done.unique);
    a.complete_path(&done, true);
    assert_eq!(a.input, "/home/u/discord");
    let done = completion("/home/u/", "no", &names).unwrap();
    a.complete_path(&done, true);
    assert_eq!(a.input, "/home/u/notes/");
    assert!(completion("/", "zzz", &names).is_none());
    assert_eq!(split_typed("plain"), ("./".to_string(), "plain".to_string()));
    assert!(matches!(a.on_key(Key::Enter), Effect::Accept));
    a.reject_path("/home/u/notes/");
    assert_eq!(a.input_error.as_deref(), Some("/home/u/notes/ is not a file"));
    a.on_key(Key::Esc);
    assert!(a.screen == Screen::Targets && a.input_error.is_none());
}

#[test]
fn a_typed_module_that_is_listed_opens_its_row() {
    let mut a = app();
    assert!(a.accept_known("/m/other.node").is_none());
    match a.accept_known("/m/two.node") {
        Some(Effect::Start(Request::Scan { node, .. })) => assert_eq!(node, "/m/two.node"),
        _ => panic!("the row is opened"),
    }
    assert_eq!(a.current, Some(0));
    let mut a = app();
    let plain = sample();
    assert!(matches!(a.accept_loose("/x", plain), Effect::Nothing));
    assert_eq!(a.input_error.as_deref(), Some("could not read that file"));
    let loose = LooseFile {
        path: "/x".to_string(),
        found: Found { install: Install::for_path("/x", &Vec::new(), "/"), size: 1, backup: false, removed: false },
    };
    let list = build_targets(&Vec::new(), &Some(loose));
    match a.accept_loose("/x", list) {
        Effect::Start(Request::Scan { node, .. }) => assert_eq!(node, "/x"),
        _ => panic!("the row is opened"),
    }
    assert_eq!(a.loose.as_deref(), Some("/x"));
}

#[test]
fn the_readout_moves_between_its_panes() {
    let mut a = open();
    assert!(a.focus == Focus::Actions);
    a.on_key(Key::Tab);
    assert!(a.focus == Focus::Status);
    a.on_key(Key::Up);
    assert_eq!(a.status_cursor, 11);
    a.on_key(Key::Down);
    assert_eq!(a.status_cursor, 0);
    a.on_key(Key::Enter);
    assert!(a.focus == Focus::Actions);
    a.on_key(Key::Down);
    assert!(matches!(a.on_key(Key::Enter), Effect::OpenManage));
    a.on_key(Key::Down);
    assert!(matches!(a.on_key(Key::Enter), Effect::Nothing));
    assert!(a.screen == Screen::Targets && a.current.is_none());
    assert!(matches!(a.on_key(Key::Char('r')), Effect::Refresh));
    a.on_key(Key::Char('q'));
    assert!(a.quit);
}

#[test]
fn logs_say_what_happened() {
    let log = deleted_log("/b/x.node");
    assert!(log.ok && !log.changed);
    assert_eq!(log.lines[0].text, "removed /b/x.node");
    let cleared = stereocord::manage::force_reinstall(None, Some(("/db".to_string(), "/kept".to_string()))).unwrap();
    let log = cleared_log(&cleared);
    assert!(log.ok && log.changed);
    assert_eq!(log.lines[0].text, "the module was already gone");
    assert_eq!(log.lines[1].text, "cleared the updater's record at /db");
    assert_eq!(log.lines[2].text, "a copy of it is at /kept");
    assert_eq!(log.lines.len(), 4);
    let log = failure("It failed", "one\ntwo", false);
    assert!(!log.ok && !log.changed);
    assert!(failure("It failed", "too late", true).changed);
    assert_eq!(log.lines.len(), 2);
    assert!(log.lines[1].level == Level::Bad);
    let said = vec![LogLine { text: "before".to_string(), level: Level::Good }];
    let log = failure_with("It failed", "after", said, true);
    assert_eq!(log.lines[0].text, "before");
    assert!(!log.ok && log.changed);
    assert!(note_line(stereocord::apply::Note::Warn("w".to_string())).level == Level::Warn);
    let log = patched_log("Discord 1", Vec::new());
    assert_eq!(log.title, "Patched Discord 1");
    assert!(log.changed);
}

#[test]
fn a_patch_job_decides_before_it_writes() {
    let cfg = stereocord::patch::Config::default();
    let prepared = stereocord::apply::prepare(vec![0xCC; 64]);
    match do_patch(Vec::new(), &prepared, &cfg, "1", false, true) {
        // A backup had been put back by then: the readout has to be taken again.
        Stage::Stop(log) => {
            assert_eq!(log.title, "This build cannot be patched safely");
            assert!(!log.ok && log.changed);
        }
        _ => panic!("critical sites are missing"),
    }
    match do_patch(Vec::new(), &prepared, &cfg, "1", true, false) {
        Stage::Stop(log) => {
            assert_eq!(log.title, "Nothing to do");
            assert!(!log.changed);
        }
        _ => panic!("nothing was found"),
    }
    let check = [
        0x83u8, 0xBB, 0xF0, 0x00, 0x00, 0x00, 0x02, 0x48, 0x8D, 0x05, 1, 2, 3, 4, 0x48, 0x8D, 0x15, 5,
        6, 7, 8, 0x48, 0x0F, 0x43, 0xD0,
    ];
    let mut data = check.to_vec();
    data.extend_from_slice(&check);
    let prepared = stereocord::apply::prepare(data);
    match do_patch(Vec::new(), &prepared, &cfg, "1", true, false) {
        Stage::Write { plan, lines } => {
            assert_eq!(plan.edits.len(), 2);
            assert_eq!(lines[lines.len() - 2].text, "2 edits, 2 bytes");
            assert_eq!(lines[lines.len() - 1].text, "stereo");
        }
        _ => panic!("there is something to write"),
    }
}

#[test]
fn styles_follow_what_they_mean() {
    assert_eq!(level_color(Level::Good), GOOD);
    assert_eq!(level_color(Level::Bad), BAD);
    assert!(row_style(true, true).bold && !row_style(false, true).bold);
    assert!(row_style(true, false) == row_style(false, false));
    assert_eq!(text_of(&key_hint("q", "quit")), "q quit  ");
}

#[test]
fn a_frame_leaves_room_for_its_border_and_its_inset() {
    let inner = framed(Rect { x: 2, y: 3, width: 30, height: 10 });
    assert!(inner == Rect { x: 4, y: 4, width: 26, height: 8 });
    let none = framed(Rect { x: 0, y: 0, width: 3, height: 1 });
    assert_eq!((none.width, none.height), (0, 0));
}

#[test]
fn the_screen_is_divided_from_top_to_bottom() {
    let area = Rect { x: 0, y: 0, width: 80, height: 24 };
    let a = app();
    let scene = draw(&a, &copies(false), area);
    // The breadcrumbs and the key hints take a row each, and the body the rest.
    assert!(scene.whole.parts[0] == Rect { x: 0, y: 0, width: 80, height: 1 });
    assert!(scene.whole.parts[1] == Rect { x: 0, y: 1, width: 80, height: 22 });
    assert!(scene.whole.parts[2] == Rect { x: 0, y: 23, width: 80, height: 1 });
    assert_eq!(scene.body.parts.len(), 4);
    assert!(scene.body.parts.iter().all(|r| r.x == 0 && r.width == 80));
    assert_eq!(scene.body.parts[0].height, 2);
    assert!(scene.columns.is_none() && scene.dialog.is_none());
    assert_eq!(scene.panes.len(), 5);
    assert_eq!(texts(&scene.panes[0]), vec![" stereocord v0.1.0  "]);
    let rows = texts(&scene.panes[2]);
    assert_eq!(rows.len(), 6);
    assert_eq!(rows[0], format!(" ▸ {:<25}3.0 MB · backup on record", "Discord 1.0.2"));
    assert!(texts(&scene.panes[4])[0].starts_with(" ↑↓ move  enter open  "));
}

#[test]
fn the_readout_is_divided_from_left_to_right() {
    let area = Rect { x: 0, y: 0, width: 100, height: 40 };
    let a = open();
    let scene = draw(&a, &copies(false), area);
    let columns = scene.columns.as_ref().unwrap();
    assert_eq!(columns.parts.len(), 2);
    assert!(columns.area == scene.body.parts[1]);
    assert!(columns.parts.iter().all(|r| r.y == columns.area.y && r.height == columns.area.height));
    assert!(columns.fits == column_fits());
    assert_eq!(columns.parts[0].width, 58);
    let said = texts(&scene.panes[1]);
    assert!(said[0].starts_with("not a voice module this tool knows  ·  64 B  ·  md5 "), "{said:?}");
    assert!(said[1].starts_with("nothing in this file matched"));
    assert_eq!(texts(&scene.panes[2]).len(), 12);
    let actions = texts(&scene.panes[4]);
    assert_eq!(actions[0], format!(" ▸ {:<26}Choose what to change, then write it.", "Patch this module"));
}

#[test]
fn a_busy_screen_turns_its_spinner() {
    let mut a = app();
    a.on_key(Key::Enter);
    let area = Rect { x: 0, y: 0, width: 80, height: 24 };
    let before = texts(&draw(&a, &copies(false), area).panes[2]);
    assert_eq!(before, vec!["  ⠋ Reading the module…"]);
    a.ticked();
    a.ticked();
    let after = texts(&draw(&a, &copies(false), area).panes[2]);
    assert_eq!(after, vec!["  ⠙ Reading the module…"]);
}

#[test]
fn a_dialog_is_drawn_over_the_screen() {
    let mut a = open();
    a.open_manage(&copies(true));
    a.choose_managed(&copies(true));
    let area = Rect { x: 0, y: 0, width: 80, height: 24 };
    let scene = draw(&a, &copies(true), area);
    let n = scene.panes.len();
    assert!(matches!(scene.panes[n - 4].body, Body::Blank));
    // 68 columns; 64 of text: one row, a blank one and two, and five around them.
    assert!(scene.panes[n - 4].area == Rect { x: 6, y: 7, width: 68, height: 9 });
    assert_eq!(texts(&scene.panes[n - 2])[0], "This overwrites /m/two.node");
    assert_eq!(texts(&scene.panes[n - 1]), vec!["  Restore       Cancel  "]);
    let inner = scene.dialog.as_ref().unwrap();
    assert_eq!(inner.parts.len(), 2);
    assert!(inner.fits == dialog_fits());
    assert_eq!(inner.parts[1].height, 2);
    assert!(texts(&scene.panes[n - 5])[0].starts_with(" ←→ choose"));
}

#[test]
fn a_long_path_shows_its_end() {
    let mut a = app();
    a.on_key(Key::Up);
    a.on_key(Key::Enter);
    for c in "/a/very/long/path/to/a/module.node".chars() {
        a.on_key(Key::Char(c));
    }
    let area = Rect { x: 0, y: 0, width: 20, height: 24 };
    let scene = draw(&a, &copies(false), area);
    assert_eq!(texts(&scene.panes[2]), vec!["› …/module.node█"]);
    let wide = draw(&a, &copies(false), Rect { x: 0, y: 0, width: 90, height: 24 });
    assert_eq!(texts(&wide.panes[2]), vec!["› /a/very/long/path/to/a/module.node█"]);
}

#[test]
fn the_other_screens_show_their_lists() {
    let area = Rect { x: 0, y: 0, width: 100, height: 40 };
    let mut a = open();
    a.on_key(Key::Char('p'));
    let scene = draw(&a, &copies(false), area);
    let rows = texts(&scene.panes[1]);
    assert_eq!(rows.len(), 11);
    assert!(rows[0].starts_with(&format!(" ▸ [x] {:<28}", "True stereo")), "{}", rows[0]);
    assert!(texts(&scene.panes[3])[0].starts_with(" ◂ 248 kbps ▸   Discord's own maximum"));
    a.on_key(Key::Esc);
    a.open_manage(&copies(true));
    let scene = draw(&a, &copies(true), area);
    assert_eq!(texts(&scene.panes[1])[0], format!(" ▸ {:<32}backup, 3.0 MB", "Restore the original module"));
    let log = Log { title: "T".to_string(), lines: vec![LogLine { text: "x".to_string(), level: Level::Bad }], ok: false, changed: false };
    a.replied(Reply::Finished(log));
    let scene = draw(&a, &copies(true), area);
    assert_eq!(scene.panes[1].frame.as_ref().unwrap().title, " ✗ T ");
    assert_eq!(texts(&scene.panes[1]), vec!["  ● x"]);
}

#[test]
fn every_pane_lies_on_the_screen() {
    let mut patching = open();
    patching.on_key(Key::Char('p'));
    let mut asking = open();
    asking.open_manage(&copies(true));
    asking.choose_managed(&copies(true));
    let states = vec![app(), open(), patching, asking];
    for width in [2, 3, 5, 20, 81] {
        for height in [1, 2, 4, 9, 33] {
            let area = Rect { x: 7, y: 11, width, height };
            for a in &states {
                for pane in &draw(a, &copies(true), area).panes {
                    let at = pane.area;
                    assert!(at.x >= 7 && at.x + at.width <= 7 + width);
                    assert!(at.y >= 11 && at.y + at.height <= 11 + height);
                }
            }
        }
    }
}

#[test]
fn the_screen_asks_for_the_room_it_needs() {
    assert!(frame_fits() == vec![Fit::Length(1), Fit::Min(0), Fit::Length(1)]);
    assert!(column_fits() == vec![Fit::Percentage(58), Fit::Percentage(42)]);
    assert!(dialog_fits() == vec![Fit::Min(0), Fit::Length(2)]);
    let area = Rect { x: 0, y: 0, width: 80, height: 24 };
    let scene = draw(&app(), &copies(false), area);
    assert!(scene.whole.area == area && scene.whole.fits == frame_fits());
    assert!(scene.body.area == scene.whole.parts[1]);
    assert!(scene.body.fits == vec![Fit::Length(2), Fit::Max(8), Fit::Length(7), Fit::Min(0)]);
}

#[test]
fn refreshing_stays_on_the_same_install() {
    // A native and a sandboxed client of one version have the same label.
    let twins = || {
        let native = found("Discord", "1.0.2", Some("/m/native.node"), false, false);
        let mut boxed = found("Discord", "1.0.2", Some("/m/boxed.node"), false, false);
        boxed.install.app_dir = "/flatpak/app-1.0.2".to_string();
        build_targets(&vec![native, boxed], &None)
    };
    let mut a = App::new(twins(), 248, 1.0f32.to_bits());
    a.on_key(Key::Down);
    a.on_key(Key::Enter);
    assert_eq!(a.current, Some(1));
    a.refresh_targets(twins());
    assert_eq!(a.current, Some(1));
    assert_eq!(a.target().unwrap().node().unwrap(), "/m/boxed.node");
    // Only the other one is left: that is not where this one was.
    let mut rest = twins();
    rest.remove(1);
    a.refresh_targets(rest);
    assert_eq!(a.current, None);
}

/// Where the parts go when there is room for everything.
fn roomy(fits: &[Fit], extent: u16) -> Vec<(u16, u16)> {
    let named = |fit: &Fit| match *fit {
        Fit::Length(n) | Fit::Min(n) | Fit::Max(n) | Fit::Percentage(n) => n,
    };
    let spare = extent - fits.iter().map(named).sum::<u16>();
    let mut at = 0;
    let mut out = Vec::new();
    for fit in fits {
        let size = if matches!(fit, Fit::Min(_)) { named(fit) + spare } else { named(fit) };
        out.push((at, size));
        at += size;
    }
    out
}

#[test]
fn parts_have_the_sizes_they_name_where_there_is_room() {
    let lists = [
        frame_fits(),
        dialog_fits(),
        vec![Fit::Min(4)],
        vec![Fit::Length(6), Fit::Length(3), Fit::Min(0)],
        vec![Fit::Length(5), Fit::Min(6), Fit::Length(5)],
        vec![Fit::Min(6), Fit::Length(4)],
        vec![Fit::Length(2), Fit::Max(8), Fit::Length(7), Fit::Min(0)],
        vec![Fit::Length(2), Fit::Max(40), Fit::Length(7), Fit::Min(0)],
        vec![Fit::Max(0), Fit::Min(3), Fit::Max(9), Fit::Length(0), Fit::Length(11), Fit::Max(1)],
        vec![Fit::Length(1); 12].into_iter().chain([Fit::Min(2)]).collect(),
    ];
    for fits in &lists {
        let least: u16 = roomy(fits, 500).iter().map(|p| p.1).sum::<u16>() - 500
            + fits
                .iter()
                .map(|f| match *f {
                    Fit::Length(n) | Fit::Min(n) | Fit::Max(n) | Fit::Percentage(n) => n,
                })
                .sum::<u16>();
        for extent in (least..least + 70).chain([200, 1000, 60000]) {
            for start in [0, 1, 37, 5000] {
                let wanted = roomy(fits, extent);
                let tall = Rect { x: 3, y: start, width: 9, height: extent };
                let down = Split::down(tall, fits.clone());
                let rows: Vec<(u16, u16)> = down.parts.iter().map(|r| (r.y - start, r.height)).collect();
                assert_eq!(rows, wanted);
                let wide = Rect { x: start, y: 3, width: extent, height: 9 };
                let across = Split::across(wide, fits.clone());
                let columns: Vec<(u16, u16)> =
                    across.parts.iter().map(|r| (r.x - start, r.width)).collect();
                assert_eq!(columns, wanted);
            }
        }
    }
}

#[test]
fn percentages_of_the_whole_are_rounded_shares() {
    let lists = [vec![58u16, 42], vec![100], vec![50, 50], vec![33, 34, 33], vec![0, 25, 70, 5], vec![10; 10]];
    for list in &lists {
        let fits: Vec<Fit> = list.iter().map(|p| Fit::Percentage(*p)).collect();
        for extent in (0..150u16).chain([333, 1000, 54321]) {
            for start in [0u16, 7, 1001] {
                let area = Rect { x: start, y: 0, width: extent, height: 4 };
                let parts = Split::across(area, fits.clone()).parts;
                let tall = Rect { x: 0, y: start, width: 4, height: extent };
                let rows = Split::down(tall, fits.clone()).parts;
                let mut sum = 0u32;
                let share = |percent: u32| ((percent * extent as u32 + 50) / 100) as u16;
                for (i, p) in list.iter().enumerate() {
                    let (from, to) = (share(sum), share(sum + *p as u32));
                    assert_eq!((parts[i].x - start, parts[i].width), (from, to - from));
                    assert_eq!((rows[i].y - start, rows[i].height), (from, to - from));
                    sum += *p as u32;
                }
            }
        }
    }
}

#[test]
fn moving_between_screens_never_moves_the_furniture() {
    let mut patching = open();
    patching.on_key(Key::Char('p'));
    let mut asking = open();
    asking.open_manage(&copies(true));
    asking.choose_managed(&copies(true));
    let states = vec![app(), open(), patching, asking];
    for height in 2..40 {
        let area = Rect { x: 2, y: 5, width: 60, height };
        for a in &states {
            let scene = draw(a, &copies(true), area);
            assert!(scene.panes[0].area == Rect { x: 2, y: 5, width: 60, height: 1 });
            let last = scene.panes.len() - 1 - if a.modal.is_some() { 4 } else { 0 };
            assert!(scene.panes[last].area == Rect { x: 2, y: 4 + height, width: 60, height: 1 });
        }
    }
}

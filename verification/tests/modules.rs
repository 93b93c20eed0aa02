//! Removing modules, filing backups, and finding installs.

use stereocord::backup;
use stereocord::discovery::{
    app_dir_of, app_version, channels, config_roots, installer_db, is_voice_dir, known_channels,
    last_name, listing_order, module_dir, running_pids, voice_module_removed, Install, Part, Process,
    Version,
};
use stereocord::manage::{delete_module, force_reinstall, Clearing, Step, NOTHING_TO_CLEAR};

fn parts(path: &str) -> Vec<Part> {
    let mut out = Vec::new();
    if path.starts_with('/') {
        out.push(Part::Root);
    }
    for name in path.split('/').filter(|n| !n.is_empty()) {
        out.push(Part::Name(name.to_string()));
    }
    out
}

fn shown(parts: &[Part]) -> String {
    let names: Vec<String> = parts
        .iter()
        .map(|p| match p {
            Part::Root => String::new(),
            Part::Current => ".".to_string(),
            Part::Parent => "..".to_string(),
            Part::Name(n) => n.clone(),
        })
        .collect();
    names.join("/")
}

fn install(channel: &str, version: &str, node: bool) -> Install {
    Install {
        channel: channel.to_string(),
        version: Version::parse(version),
        app_dir: format!("/home/u/.config/{channel}/app-{version}"),
        node: if node { Some(format!("/home/u/{channel}/{version}.node")) } else { None },
        key: None,
    }
}

fn deletion(path: &str) -> Result<Vec<Part>, String> {
    let dir = match module_dir(&parts(path)) {
        Some(dir) => shown(&dir),
        None => String::new(),
    };
    delete_module(&parts(path), path, &dir)
}

#[test]
fn a_path_outside_a_module_directory_is_refused() {
    let err = deletion("/tmp/somewhere/discord_voice.node").expect_err("should refuse");
    assert!(err.contains("refusing"), "{err}");
}

#[test]
fn a_module_directory_not_under_modules_is_refused() {
    let err = deletion("/tmp/elsewhere/discord_voice-1/discord_voice/discord_voice.node")
        .expect_err("should refuse");
    assert!(err.contains("modules/"), "{err}");
}

#[test]
fn a_module_directory_under_modules_is_the_one_removed() {
    let dir = deletion(
        "/home/u/.config/discord/app-1.0.1/modules/discord_voice-1/discord_voice/discord_voice.node",
    )
    .unwrap();
    assert_eq!(shown(&dir), "/home/u/.config/discord/app-1.0.1/modules/discord_voice-1");
}

#[test]
fn clearing_nothing_is_an_error() {
    assert!(force_reinstall(None, None).is_err());
    let cleared = force_reinstall(None, Some(("a".to_string(), "b".to_string()))).unwrap();
    assert!(cleared.module_dir.is_none());
    assert_eq!(cleared.registry, Some(("a".to_string(), "b".to_string())));
    assert!(force_reinstall(Some("d".to_string()), None).is_ok());
}

#[test]
fn versions_read_their_numbers() {
    assert_eq!(Version::parse("1.0.155").0, vec![1, 0, 155]);
    assert_eq!(Version::parse("1.x.3").0, vec![1, 3]);
    assert_eq!(Version::parse("1.0.155").to_text(), "1.0.155");
    assert!(Version::parse("1.0.9").before(&Version::parse("1.0.10")));
    assert!(Version::parse("1.0").before(&Version::parse("1.0.0")));
    assert!(!Version::parse("1.0").before(&Version::parse("1.0")));
}

#[test]
fn labels_name_the_channel_and_version() {
    assert_eq!(install("Discord PTB", "1.0.2", true).label(), "Discord PTB 1.0.2");
    assert_eq!(install("Discord", "", true).label(), "Discord");
}

#[test]
fn backups_are_filed_in_lower_case() {
    let i = install("Discord Canary", "0.0.7", true);
    let digest = stereocord::md5::hex(i.app_dir.as_bytes());
    let slug = format!("discord_canary-0.0.7-{}", &digest[..12]);
    assert_eq!(backup::slug(&i), slug);
    assert_eq!(backup::file_name(&i), format!("{slug}.node"));
    assert_eq!(backup::registry_name(&i), format!("{slug}-installer.db"));
    assert!(backup::is_backup_name("discord-1.node"));
    assert!(!backup::is_backup_name(".node"));
    assert!(!backup::is_backup_name("discord-installer.db"));
    assert_eq!(backup::no_backup("/x"), "no backup on record at /x");
}

#[test]
fn modules_named_by_path_are_filed_under_a_digest() {
    let names = vec!["opt".to_string(), "app-1.2.3".to_string(), "x.node".to_string()];
    let a = Install::for_path("/opt/app-1.2.3/x.node", &names, "/opt/app-1.2.3");
    assert_eq!(a.channel, "Custom module");
    assert_eq!(a.label(), "Custom module 1.2.3");
    assert_eq!(a.node.as_deref(), Some("/opt/app-1.2.3/x.node"));
    let digest = stereocord::md5::hex(b"/opt/app-1.2.3/x.node");
    assert_eq!(backup::slug(&a), format!("custom-{}", &digest[..12]));
    let b = Install::for_path("/opt/y.node", &vec!["opt".to_string()], "/opt");
    assert_ne!(backup::slug(&a), backup::slug(&b));
    assert_eq!(b.label(), "Custom module");
}

#[test]
fn channels_are_offered_in_order() {
    assert_eq!(
        known_channels(),
        vec!["Discord", "Discord PTB", "Discord Canary", "Discord Development"]
    );
    assert_eq!(channels()[2], ("discordcanary", "Discord Canary"));
    assert_eq!(config_roots(false, false).len() < config_roots(true, true).len(), true);
}

#[test]
fn app_directories_and_voice_modules_are_recognised() {
    assert_eq!(app_version("app-1.0.155").unwrap().0, vec![1, 0, 155]);
    assert!(app_version("1.0.155").is_none());
    assert!(is_voice_dir("discord_voice-1"));
    assert!(!is_voice_dir("discord_voice"));
    assert!(!is_voice_dir("discord_krisp-1"));
}

#[test]
fn the_last_name_wins_in_byte_order() {
    let names: Vec<String> =
        ["discord_voice-1", "discord_voice-3", "discord_voice-2"].iter().map(|s| s.to_string()).collect();
    assert_eq!(last_name(&names), Some(1));
    assert_eq!(last_name(&Vec::new()), None);
}

#[test]
fn installs_are_listed_by_channel_and_newest_first() {
    let list = vec![
        install("Discord PTB", "1.0.1", true),
        install("Discord", "1.0.9", true),
        install("Discord", "1.0.10", false),
    ];
    let order = listing_order(&list);
    let labels: Vec<String> = order.iter().map(|&i| list[i].label()).collect();
    assert_eq!(labels, vec!["Discord 1.0.10", "Discord 1.0.9", "Discord PTB 1.0.1"]);
}

#[test]
fn the_updater_record_is_beside_the_app_directories() {
    let db = installer_db(&parts("/home/u/.config/discord/app-1.0.1")).unwrap();
    assert_eq!(shown(&db), "/home/u/.config/discord/installer.db");
    assert!(installer_db(&parts("/home/u/elsewhere/app-1.0.1")).is_none());
}

#[test]
fn a_module_counts_as_removed_only_beside_others() {
    let others = Some(vec!["discord_krisp-1".to_string()]);
    assert!(voice_module_removed(false, &others));
    assert!(!voice_module_removed(true, &others));
    assert!(!voice_module_removed(false, &Some(Vec::new())));
    assert!(!voice_module_removed(false, &None));
}

#[test]
fn the_app_directory_is_the_nearest_with_modules() {
    assert_eq!(app_dir_of(&vec![false, true, true]), 1);
}

#[test]
fn only_clients_of_that_install_count_as_running() {
    let list = vec![
        Process { name: "40".to_string(), cmdline: Some("/home/u/.config/discord/app-1.0.1/Discord".to_string()) },
        Process { name: "7".to_string(), cmdline: Some("/home/u/.config/discord/app-1.0.1/Discord --type=x".to_string()) },
        Process { name: "9".to_string(), cmdline: Some("/usr/bin/bash".to_string()) },
        Process { name: "self".to_string(), cmdline: Some("/home/u/.config/discord/app-1.0.1/Discord".to_string()) },
    ];
    assert_eq!(running_pids(&list, "/home/u/.config/discord/app-1.0.1"), vec![7, 40]);
    assert!(running_pids(&list, "/home/u/.config/discordptb/app-1.0.1").is_empty());
}

#[test]
fn installs_of_one_version_have_a_backup_each() {
    let native = install("Discord", "1.0.2", true);
    let mut boxed = install("Discord", "1.0.2", true);
    boxed.app_dir = "/home/u/.var/app/com.discordapp.Discord/config/discord/app-1.0.2".to_string();
    assert_eq!(native.label(), boxed.label());
    assert_ne!(backup::file_name(&native), backup::file_name(&boxed));
    assert_ne!(backup::registry_name(&native), backup::registry_name(&boxed));
}

#[test]
fn state_is_kept_where_the_environment_says() {
    assert!(backup::state_base(true, true) == backup::StateBase::Xdg);
    assert!(backup::state_base(true, false) == backup::StateBase::Xdg);
    assert!(backup::state_base(false, true) == backup::StateBase::Home);
    assert!(backup::state_base(false, false) == backup::StateBase::Here);
}

#[test]
fn versions_read_back_from_their_text() {
    for v in [vec![], vec![0], vec![1, 0, 155], vec![u32::MAX, 10, 0, 7]] {
        let version = Version(v);
        assert_eq!(Version::parse(&version.to_text()), version);
    }
    assert!(Version::parse("1.0.99").before(&Version::parse("1.0.155")));
    assert_eq!(Version::parse(""), Version(Vec::new()));
}

#[test]
fn the_record_goes_only_after_its_copy() {
    let steps = |module: Option<&str>, record: Option<&str>| {
        let mut c = Clearing::new(module.map(|s| s.to_string()), record.map(|s| s.to_string()));
        let mut taken = Vec::new();
        while c.next() != Step::Finish {
            taken.push(c.next());
            c.advance("/kept");
        }
        (taken, c.outcome())
    };
    let (taken, cleared) = steps(Some("/m"), Some("/db"));
    assert!(taken == vec![Step::RemoveModule, Step::CopyRecord, Step::RemoveRecord]);
    let cleared = cleared.unwrap();
    assert_eq!(cleared.module_dir.as_deref(), Some("/m"));
    assert_eq!(cleared.registry, Some(("/db".to_string(), "/kept".to_string())));
    let (taken, cleared) = steps(None, Some("/db"));
    assert!(taken == vec![Step::CopyRecord, Step::RemoveRecord]);
    assert!(cleared.unwrap().module_dir.is_none());
    let (taken, cleared) = steps(Some("/m"), None);
    assert!(taken == vec![Step::RemoveModule]);
    assert!(cleared.unwrap().registry.is_none());
    let (taken, cleared) = steps(None, None);
    assert!(taken.is_empty());
    assert_eq!(cleared.err().unwrap(), NOTHING_TO_CLEAR);
}

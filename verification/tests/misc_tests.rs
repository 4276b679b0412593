use steam_shortcuts_util::{shortcuts_to_bytes, Shortcut};
use twintail::extras::{
    checked_tools, effectively_empty, extra_check, injector_package, linked_injectors, needs_update, package_dir,
    remote_package, unpack_flags, version_entry_name, version_file, ExtraCheck, FolderEntry,
};
use twintail::installs::{
    add_request_ok, find_clashing_install, install_locations, join_path, moves_files, pick_runner_version,
    removal_plan, runner_download_url, ExistingInstall, decide_add_install, add_install_answer, refused_answer,
    AddInstallDecision,
};
use twintail::linked_map::LinkedHashMap;
use twintail::migrations::{add_migrations, Migration, MigrationKind, MigrationList};
use twintail::models::{RunnerPlatformUrls, RunnerVersion};
use twintail::runners::{
    default_paths, generate_cuid, new_install_locations, runner_from_runner_version, runners_to_fetch,
    stale_runtime_entries,
};
use twintail::shortcuts::{
    desktop_entry, desktop_file_name, find_steam_shortcut, launcher_binary, rename_desktop_entry, steam_shortcut,
    steam_user_folders,
};

fn strings(v: &[&str]) -> Vec<String> {
    v.iter().map(|s| s.to_string()).collect()
}

#[test]
fn ordered_map_reads_back_what_was_written() {
    let mut m: LinkedHashMap<String, u32> = LinkedHashMap::new();
    assert!(m.is_empty());
    assert_eq!(m.insert("b".to_string(), 1), None);
    assert_eq!(m.insert("a".to_string(), 2), None);
    assert_eq!(m.len(), 2);
    assert_eq!(m.get(&"b".to_string()), Some(&1));
    assert_eq!(m.insert("b".to_string(), 3), Some(1));
    assert_eq!(m.len(), 2);
    assert_eq!(m.get(&"b".to_string()), Some(&3));
    assert_eq!(m.get(&"a".to_string()), Some(&2));
    assert!(m.contains_key(&"a".to_string()));
    assert!(!m.contains_key(&"z".to_string()));
    assert_eq!(m.entry_at(0), (&"b".to_string(), &3));
    assert_eq!(m.entry_at(1), (&"a".to_string(), &2));
    let entries = m.into_entries();
    assert_eq!(entries, vec![("b".to_string(), 3), ("a".to_string(), 2)]);
    let d: LinkedHashMap<u64, u64> = LinkedHashMap::default();
    assert_eq!(d.len(), 0);
}

#[test]
fn migrations_run_forward_only() {
    let ms = vec![
        Migration { version: 1, description: "create", sql: "CREATE TABLE a(x);", kind: MigrationKind::Up },
        Migration { version: 1, description: "drop", sql: "DROP TABLE a;", kind: MigrationKind::Down },
        Migration { version: 2, description: "alter", sql: "ALTER TABLE a ADD y;", kind: MigrationKind::Up },
    ];
    let run = MigrationList(ms).resolve();
    assert_eq!(run.iter().map(|m| m.version).collect::<Vec<_>>(), vec![1, 2]);
    assert!(run.iter().all(|m| m.kind == MigrationKind::Up));
    let map = add_migrations("sqlite:storage.db", vec![]).unwrap();
    assert_eq!(map.len(), 1);
    assert!(map.contains_key(&"sqlite:storage.db".to_string()));
}

#[test]
fn install_requests_and_places() {
    assert!(add_request_ok(&strings(&["m", "1.0", "n", "/d", "/r", "/x", "i", "b"])));
    assert!(!add_request_ok(&strings(&["m", "", "n"])));
    let existing = vec![
        ExistingInstall { name: "A".to_string(), version: "1.0".to_string(), has_job: false },
        ExistingInstall { name: "B".to_string(), version: "1.0".to_string(), has_job: true },
    ];
    assert_eq!(find_clashing_install(&existing, "1.0"), Some(1));
    assert_eq!(find_clashing_install(&existing, "2.0"), None);
    let l = install_locations("id1", "/games", "/prefixes", "/runners", "/dxvk", "r1", "d1", false, false, None);
    assert_eq!(
        (l.directory.as_str(), l.runner_prefix.as_str(), l.runner_path.as_str(), l.runner_version.as_str(), l.dxvk_path.as_str()),
        ("/games/id1", "/prefixes/id1", "/runners/r1", "r1", "/dxvk/d1")
    );
    let l = install_locations("id1", "/games/", "/prefixes", "/runners", "/dxvk", "r1", "d1", true, true, Some("r2"));
    assert_eq!(l.directory, "/prefixes/id1/pfx/drive_c/Program Files/id1");
    assert_eq!(l.runner_path, "/runners/r2");
    let l = install_locations("id1", "/old/game", "/p", "/r", "/d", "r1", "d1", true, false, None);
    assert_eq!(l.directory, "/old/game");
    assert_eq!(join_path("/a/", "b"), "/a/b");
    assert_eq!(join_path("/a", "/b"), "/b");
    assert_eq!(join_path("", "b"), "b");
    assert_eq!(join_path("a", ""), "a/");
}

#[test]
fn runner_versions_and_urls() {
    let vs = vec![
        RunnerVersion { version: "1".to_string(), url: "u1".to_string(), urls: None },
        RunnerVersion {
            version: "2".to_string(),
            url: "u2".to_string(),
            urls: Some(RunnerPlatformUrls { x86_64: "x2".to_string(), aarch64: String::new() }),
        },
    ];
    assert_eq!(pick_runner_version(&vs, "2"), Some(1));
    assert_eq!(pick_runner_version(&vs, "3"), None);
    assert_eq!(runner_download_url(&vs[0], false), "u1");
    assert_eq!(runner_download_url(&vs[1], false), "x2");
    assert_eq!(runner_download_url(&vs[1], true), "u2");
    let r = removal_plan(true, false, true);
    assert!(r.wipe_prefix && !r.delete_game);
    assert!(removal_plan(false, false, false).delete_game);
    assert!(moves_files(true, true, true));
    assert!(!moves_files(true, true, false));
}

#[test]
fn runner_manifests() {
    let loader = vec![
        ("proton_ge.json".to_string(), strings(&["GE-Proton9-1"])),
        ("wine_staging.json".to_string(), strings(&["wine-staging-9.0", "custom"])),
    ];
    assert_eq!(runner_from_runner_version(&loader, "custom"), Some("wine_staging.json".to_string()));
    assert_eq!(runner_from_runner_version(&loader, "10.0-1-Proton-CachyOS"), Some("proton_cachyos.json".to_string()));
    assert_eq!(runner_from_runner_version(&loader, "wine-staging-tkg-9"), Some("wine_staging_tkg.json".to_string()));
    assert_eq!(runner_from_runner_version(&loader, "dxvk-gplasync-2.3"), Some("dxvk_gplasync.json".to_string()));
    assert_eq!(runner_from_runner_version(&loader, "anything"), Some("proton_cachyos.json".to_string()));
    assert_eq!(runner_from_runner_version(&loader, "GE-Proton9-20"), Some("proton_ge.json".to_string()));
    assert_eq!(runner_from_runner_version(&loader, "Wine-Staging-9.0"), Some("wine_staging.json".to_string()));
    assert_eq!(runner_from_runner_version(&loader, ""), None);
    let wanted = vec![
        ("a".to_string(), false),
        ("".to_string(), false),
        ("b".to_string(), true),
        ("a".to_string(), false),
        ("c".to_string(), false),
    ];
    assert_eq!(runners_to_fetch(&wanted), strings(&["a", "c"]));
    assert_eq!(stale_runtime_entries(&strings(&["steamrt3", "soldier", "steamrt4", "old"])), strings(&["soldier", "old"]));
    let p = default_paths("/data");
    assert_eq!(p.games, "/data/games");
    assert_eq!(p.xxmi, "/data/extras/xxmi");
    assert_eq!(p.steamrt4, "/data/compatibility/runners/steamrt/steamrt4");
}

#[test]
fn new_ids_are_short_lowercase_and_distinct() {
    let a = generate_cuid();
    let b = generate_cuid();
    assert_ne!(a, b);
    assert!(a.len() >= 2 && a.len() <= 24);
    assert!(a.chars().next().unwrap().is_ascii_lowercase());
    assert!(a.chars().all(|c| c.is_ascii_lowercase() || c.is_ascii_digit()));
    let (id, l) = new_install_locations("/g", "/p", "/r", "/d", "r1", "d1", false, false, None);
    assert_eq!(l.directory, format!("/g/{id}"));
    assert_eq!(l.runner_prefix, format!("/p/{id}"));
}

#[test]
fn extras_rules() {
    assert!(injector_package("efmi"));
    assert!(!injector_package("xxmi"));
    assert_eq!(package_dir("/x", "xxmi", "gimi", false), "/x/gimi");
    assert_eq!(package_dir("/x", "xxmi", "xxmi", false), "/x");
    assert_eq!(package_dir("/x", "xxmi", "gimi", true), "/x/gimi");
    assert_eq!(package_dir("/f", "keqingunlock", "keqing_unlock", true), "/f");
    assert_eq!(version_file("/x", "xxmi", "srmi"), "/x/srmi/VERSION.txt");
    assert_eq!(version_file("/f", "keqingunlock", "keqing_unlock"), "/f/VERSION.txt");
    assert_eq!(version_entry_name("keqingunlock", "keqing_unlock"), "keqingunlock");
    assert_eq!(version_entry_name("xxmi", "gimi"), "gimi");
    assert_eq!(remote_package(&strings(&["XXMI-Libs", "GIMI-Package"]), "gimi"), Some(1));
    assert_eq!(remote_package(&strings(&["XXMI-Libs"]), "gimi"), None);
    assert!(needs_update("1.2.3", "1.3.0"));
    assert!(!needs_update("1.3.0", "1.3.0"));
    assert_eq!(unpack_flags("xxmi"), (false, false));
    assert_eq!(unpack_flags("gimi"), (true, true));
    assert_eq!(unpack_flags("keqing_unlock"), (false, false));
    assert_eq!(linked_injectors("xxmi", "xxmi", true), strings(&["gimi", "srmi", "zzmi", "wwmi", "himi"]));
    assert_eq!(linked_injectors("xxmi", "xxmi", false).len(), 6);
    assert_eq!(linked_injectors("xxmi", "zzmi", false).len(), 6);
    assert_eq!(linked_injectors("other", "zzmi", false), strings(&["zzmi"]));
    assert!(linked_injectors("keqingunlock", "keqing_unlock", false).is_empty());
    let entries = vec![
        FolderEntry { name: "gimi".to_string(), is_dir: true },
        FolderEntry { name: "srmi".to_string(), is_dir: true },
    ];
    assert!(effectively_empty("xxmi", &entries));
    assert!(!effectively_empty("xxmi", &vec![FolderEntry { name: "d3d11.dll".to_string(), is_dir: false }]));
    assert!(effectively_empty("gimi", &vec![FolderEntry { name: "Mods".to_string(), is_dir: true }]));
    assert!(effectively_empty("gimi", &vec![]));
    assert!(!effectively_empty("gimi", &vec![FolderEntry { name: "main.dll".to_string(), is_dir: false }]));
    assert_eq!(extra_check(true, true, true), ExtraCheck::Update);
    assert_eq!(extra_check(false, true, true), ExtraCheck::Reinstall);
    assert_eq!(extra_check(false, true, false), ExtraCheck::Nothing);
    let tools = checked_tools("/f", "/x");
    assert_eq!(tools.len(), 8);
    assert_eq!(tools[2].dir, "/x/gimi");
    assert_eq!(tools[0].package_type, "keqing_unlock");
}

#[test]
fn shortcuts() {
    let (bin, icon) = launcher_binary(true);
    assert_eq!(bin, "flatpak run app.twintaillauncher.ttl");
    assert_eq!(icon, "app.twintaillauncher.ttl");
    let entry = desktop_entry("twintaillauncher", "abc", "twintaillauncher", "My Game");
    assert_eq!(
        entry,
        "[Desktop Entry]\nCategories=Game;\nComment=Launch this game using TwintailLauncher\nExec=twintaillauncher --install=abc\nIcon=twintaillauncher\nName=My Game\nTerminal=false\nType=Application\n"
    );
    assert_eq!(rename_desktop_entry(&entry, "Other"), entry.replace("Name=My Game", "Name=Other").trim_end().to_string());
    assert_eq!(desktop_file_name("My Game"), "My Game.desktop");
    let sc = steam_shortcut("GenshinImpact.exe", "abc", "My Game", "/g", "/i.png", false);
    assert_eq!(sc.app_id, steam_shortcuts_util::app_id_generator::calculate_app_id("GenshinImpact.exe", "My Game"));
    assert!(sc.app_id >= 0x8000_0000);
    assert_eq!(sc.launch_options, "--install=abc");
    assert_eq!(sc.exe, "twintaillauncher");
    assert_eq!(sc.tags, strings(&["twintaillauncher", "ttl"]));
    assert_eq!(steam_user_folders(&strings(&["0", "1234", "ac", "anonymous", "99"])), strings(&["1234", "99"]));
}

#[test]
fn steam_shortcut_files() {
    let a = Shortcut::new("0", "Alpha", "/bin/a", "/", "", "", "");
    let b = Shortcut::new("1", "Beta", "/bin/b", "/", "", "", "");
    let bytes = shortcuts_to_bytes(&vec![a, b]);
    assert_eq!(find_steam_shortcut(&bytes, "Beta"), Some(Some(1)));
    assert_eq!(find_steam_shortcut(&bytes, "Gamma"), Some(None));
    assert_eq!(find_steam_shortcut(b"not a shortcuts file", "Beta"), None);
}

fn strs(v: &[&str]) -> Vec<String> {
    v.iter().map(|s| s.to_string()).collect()
}

#[test]
fn add_install_requests_are_decided() {
    let ok = strs(&["m", "1.0", "Game", "/games", "/r", "/d", "i.png", "b.png"]);
    let missing = strs(&["m", "1.0", "", "/games", "/r", "/d", "i.png", "b.png"]);
    let existing = vec![
        ExistingInstall { name: "A".to_string(), version: "0.9".to_string(), has_job: true },
        ExistingInstall { name: "B".to_string(), version: "1.0".to_string(), has_job: true },
    ];
    let none: Vec<ExistingInstall> = vec![];
    assert!(matches!(
        decide_add_install(&missing, "1.0", false, &none, false, false, "", false, "", false, true, true),
        AddInstallDecision::Invalid
    ));
    assert!(matches!(
        decide_add_install(&ok, "1.0", false, &existing, false, false, "", false, "", false, true, true),
        AddInstallDecision::AlreadyQueued(1)
    ));
    match decide_add_install(&ok, "1.0", true, &existing, false, true, "steam_api64.dll", true, "", false, true, false) {
        AddInstallDecision::Proceed(p) => {
            assert!(p.steam_import);
            assert!(p.ignore_updates);
            assert!(!p.download_runner);
        }
        _ => panic!("expected the install to proceed"),
    }
    match decide_add_install(&ok, "1.0", false, &none, false, true, "steam_api64.dll", true, "steam_appid.txt", true, true, true) {
        AddInstallDecision::Proceed(p) => {
            assert!(!p.steam_import);
            assert!(!p.ignore_updates);
            assert!(p.download_runner);
        }
        _ => panic!("expected the install to proceed"),
    }
    match decide_add_install(&ok, "1.0", true, &none, true, true, "", true, "steam_appid.txt", false, false, true) {
        AddInstallDecision::Proceed(p) => {
            assert!(!p.steam_import);
            assert!(p.ignore_updates);
            assert!(!p.download_runner);
        }
        _ => panic!("expected the install to proceed"),
    }
}

#[test]
fn add_install_answers() {
    let still = "bg.png".to_string();
    let live = Some("bg.webm".to_string());
    let a = add_install_answer(true, "abc".to_string(), &still, &live, false);
    assert!(a.success);
    assert_eq!(a.install_id, "abc");
    assert_eq!(a.background, "bg.png");
    let b = add_install_answer(true, "abc".to_string(), &still, &live, true);
    assert_eq!(b.background, "bg.webm");
    let c = add_install_answer(true, "abc".to_string(), &still, &Some(String::new()), true);
    assert_eq!(c.background, "bg.png");
    let d = add_install_answer(false, "abc".to_string(), &still, &live, true);
    assert!(!d.success);
    assert_eq!(d.install_id, "");
    assert_eq!(d.background, "");
    let e = refused_answer();
    assert!(!e.success && e.install_id.is_empty() && e.background.is_empty());
}

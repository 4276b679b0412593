use twintail::locales::list_locale_codes;
use twintail::repository::{repo_action, repository_path, RepoAction};
use twintail::folders::{folder_kind, missing_message, open_failed_message, reveal_target, FolderKind};
use twintail::host::{dmabuf_workaround_env, needs_dmabuf_workaround, AdapterKind};
use twintail::ini::edit_xxmi_settings;
use twintail::models::XXMISettings;
use twintail::patches::{channel_file, channel_patched, patch_work, PatchWork};
use twintail::runners::{
    add_runner_decision, runner_fallbacks, runner_moves, AddRunner, InstallRunner, RunnerRecord,
};
use twintail::versions::{update_notice, UpdateNotice};

fn install(id: &str, version: &str, path: &str) -> InstallRunner {
    InstallRunner { id: id.to_string(), runner_version: version.to_string(), runner_path: path.to_string() }
}

#[test]
fn folder_kinds_and_targets() {
    assert_eq!(folder_kind("mods"), Some(FolderKind::Mods));
    assert_eq!(folder_kind("runner_global"), Some(FolderKind::RunnerGlobal));
    assert_eq!(folder_kind("engine_log"), Some(FolderKind::EngineLog));
    assert_eq!(folder_kind("downloads"), None);
    assert_eq!(reveal_target(FolderKind::Mods, "/x/xxmi", "gimi"), "/x/xxmi/gimi/d3dx.ini");
    assert_eq!(reveal_target(FolderKind::Install, "/games/gi/", "GenshinImpact.exe"), "/games/gi/GenshinImpact.exe");
    assert_eq!(reveal_target(FolderKind::Runner, "/r/proton-9", "ignored"), "/r/proton-9/proton");
    assert_eq!(reveal_target(FolderKind::RunnerPrefix, "/p/gi", ""), "/p/gi/version");
    assert_eq!(
        reveal_target(FolderKind::EngineLog, "/p/pfx/drive_c/users/steamuser/AppData/LocalLow/", "miHoYo/Genshin Impact/output_log.txt"),
        "/p/pfx/drive_c/users/steamuser/AppData/LocalLow/miHoYo/Genshin Impact/output_log.txt"
    );
    assert_eq!(missing_message(FolderKind::Mods), "dialogs.xxmi_folder_not_found");
    assert_eq!(missing_message(FolderKind::RunnerGlobal), "dialogs.runner_dir_open_failed");
    assert_eq!(missing_message(FolderKind::EngineLog), "dialogs.engine_log_dir_open_failed");
    assert_eq!(open_failed_message(), "dialogs.directory_open_failed");
}

#[test]
fn patch_work_by_type_and_mode() {
    assert_eq!(patch_work("aki", "add"), PatchWork::Channel { add: true });
    assert_eq!(patch_work("aki", "remove"), PatchWork::Channel { add: false });
    assert_eq!(patch_work("aki", "toggle"), PatchWork::Nothing);
    assert_eq!(patch_work("sparkle", "add"), PatchWork::Proxy { add: true, remove: false });
    assert_eq!(patch_work("sparkle", "other"), PatchWork::Proxy { add: false, remove: false });
    assert_eq!(patch_work("other", "add"), PatchWork::Nothing);
    assert_eq!(channel_file(), "Client/Binaries/Win64/ThirdParty/KrPcSdk_Global/KRSDKRes/KRSDK.bin");
}

#[test]
fn channel_marker_is_swapped_once_and_back() {
    let stock = b"\x00\x01KR_ChannelID=240\nKR_ChannelID=240".to_vec();
    let patched = channel_patched(&stock, true).unwrap();
    assert_eq!(patched, b"\x00\x01KR_ChannelID=205\nKR_ChannelID=240".to_vec());
    let back = channel_patched(&patched, false).unwrap();
    assert_eq!(back, stock);
    assert_eq!(channel_patched(b"KR_ChannelID=24", true), None);
    assert_eq!(channel_patched(b"nothing here", false), None);
    assert_eq!(channel_patched(b"KR_ChannelID=205", true), None);
}

#[test]
fn nvidia_gpus_need_the_workaround() {
    let adapters = vec![
        (AdapterKind::Cpu, "llvmpipe".to_string()),
        (AdapterKind::DiscreteGpu, "NVIDIA GeForce RTX 4070".to_string()),
    ];
    assert!(needs_dmabuf_workaround(&adapters));
    assert!(!needs_dmabuf_workaround(&vec![(AdapterKind::Cpu, "nvidia soft".to_string())]));
    assert!(!needs_dmabuf_workaround(&vec![(AdapterKind::IntegratedGpu, "AMD Radeon".to_string())]));
    assert!(!needs_dmabuf_workaround(&vec![]));
    let env = dmabuf_workaround_env();
    assert_eq!(env.len(), 4);
    assert_eq!(env[0], ("WEBKIT_DISABLE_DMABUF_RENDERER".to_string(), "1".to_string()));
    assert_eq!(env[1], ("__GL_THREADED_OPTIMIZATIONS".to_string(), "0".to_string()));
}

#[test]
fn update_notice_compares_with_the_release_tag() {
    assert_eq!(update_notice("1.2.3", "ttl-v1.3.0"), UpdateNotice::Outdated);
    assert_eq!(update_notice("1.3.0", "ttl-v1.3.0"), UpdateNotice::Current);
    assert_eq!(update_notice("1.10.0", "ttl-v1.9.9"), UpdateNotice::Newer);
    // Without the tag prefix the major part does not read as a number and counts as 1.
    assert_eq!(update_notice("2.0.0", "v2.0.0"), UpdateNotice::Newer);
}

#[test]
fn xxmi_settings_edits_keep_the_rest() {
    let cur = XXMISettings {
        hunting_mode: 0,
        require_admin: true,
        dll_init_delay: 100,
        close_delay: 10,
        show_warnings: 1,
        dump_shaders: false,
    };
    let e = edit_xxmi_settings(&cur, Some(2), None, Some(false));
    assert_eq!(e.hunting_mode, 2);
    assert_eq!(e.show_warnings, 0);
    assert!(!e.dump_shaders);
    assert!(e.require_admin);
    assert_eq!(e.dll_init_delay, 100);
    let e = edit_xxmi_settings(&cur, None, Some(true), None);
    assert_eq!(e.hunting_mode, 0);
    assert_eq!(e.show_warnings, 1);
    assert!(e.dump_shaders);
}

#[test]
fn installs_leave_a_withdrawn_manifest() {
    let entries = vec![("proton_cachyos.json".to_string(), vec!["proton-cachyos-10".to_string()])];
    let installs = vec![
        install("a", "wine-staging-9.0", "/r/wine-staging-9.0"),
        install("b", "proton-cachyos-10", "/r/proton-cachyos-10"),
        install("c", "wine-staging-8.0", "/r/wine-staging-8.0"),
    ];
    let moves = runner_moves(&installs, &entries, "wine_staging.json", "proton-cachyos-10");
    assert_eq!(moves.len(), 2);
    assert_eq!(moves[0].install_id, "a");
    assert_eq!(moves[0].runner_version, "proton-cachyos-10");
    assert_eq!(moves[0].runner_path, "/r/proton-cachyos-10");
    assert_eq!(moves[1].install_id, "c");
    assert!(runner_moves(&installs, &entries, "proton_ge.json", "x").is_empty());
}

#[test]
fn installs_fall_back_to_the_first_installed_runner() {
    let installs = vec![install("a", "v1", "/r/v1"), install("b", "v2", "/r/v2"), install("c", "v1", "/r/v1")];
    let runners = vec![
        RunnerRecord { version: "v1".to_string(), runner_path: "/r/v1".to_string(), is_installed: false },
        RunnerRecord { version: "v3".to_string(), runner_path: "/r/v3".to_string(), is_installed: true },
        RunnerRecord { version: "v2".to_string(), runner_path: "/r/v2".to_string(), is_installed: true },
    ];
    let moves = runner_fallbacks(&installs, "v1", &runners);
    assert_eq!(moves.len(), 2);
    assert_eq!(moves[0].install_id, "a");
    assert_eq!(moves[0].runner_version, "v3");
    assert_eq!(moves[0].runner_path, "/r/v3");
    assert_eq!(moves[1].install_id, "c");
    assert!(runner_fallbacks(&installs, "v9", &vec![]).is_empty());
}

#[test]
fn adding_a_runner() {
    assert_eq!(add_runner_decision("", "v1", true, false), AddRunner::Refused);
    assert_eq!(add_runner_decision("https://x/v1.tar.xz", "", true, false), AddRunner::Refused);
    assert_eq!(add_runner_decision("https://x/v1.tar.xz", "v1", false, true), AddRunner::AlreadyInstalled);
    assert_eq!(add_runner_decision("https://x/v1.tar.xz", "v1", true, true), AddRunner::AlreadyQueued);
    assert_eq!(add_runner_decision("https://x/v1.tar.xz", "v1", true, false), AddRunner::Download);
}

#[test]
fn repository_paths_from_urls() {
    assert_eq!(
        repository_path("https://github.com/TwintailTeam/game-manifests.git"),
        Some("TwintailTeam/game-manifests".to_string())
    );
    assert_eq!(repository_path("https://github.com/owner/name"), Some("owner/name".to_string()));
    assert_eq!(repository_path("https://github.com/owner/name.v2.git"), Some("owner/name".to_string()));
    assert_eq!(repository_path("https://github.com/owner"), None);
    assert_eq!(repo_action(false, true), RepoAction::Skip);
    assert_eq!(repo_action(true, false), RepoAction::Clone);
    assert_eq!(repo_action(true, true), RepoAction::Update);
}

#[test]
fn locale_codes_are_listed_in_order() {
    let names: Vec<String> = ["zh-CN.json", "en.json", "README.md", "x.json.json", "de.json", "ja.jsonx"]
        .iter()
        .map(|s| s.to_string())
        .collect();
    assert_eq!(list_locale_codes(&names), vec!["de", "en", "x", "zh-CN"]);
    assert!(list_locale_codes(&vec![]).is_empty());
    let names: Vec<String> = vec!["b.json".to_string(), "B.json".to_string(), "a.json".to_string(), "b.json".to_string()];
    assert_eq!(list_locale_codes(&names), vec!["B", "a", "b", "b"]);
}

#[test]
fn open_files_limit_targets() {
    assert_eq!(twintail::host::fd_limit_target(1024, 1024, 4096), None);
    assert_eq!(twintail::host::fd_limit_target(1024, 524288, 999999), Some(524288));
    assert_eq!(twintail::host::fd_limit_target(1024, 524288, 8192), Some(8192));
    assert_eq!(twintail::host::fd_limit_target(1024, 524288, -1), Some(u64::MAX));
}

#[test]
fn repair_requests_empty_their_folders() {
    let (steps, after) = twintail::folders::empty_plan("runner_prefix", "/p/gi", "/r");
    assert_eq!(steps.len(), 1);
    assert_eq!(steps[0].path, "/p/gi");
    assert_eq!(steps[0].missing, "dialogs.prefix_not_initialized");
    assert_eq!(steps[0].failed, "dialogs.prefix_repair_failed");
    assert_eq!(steps[0].done, Some("dialogs.prefix_repair_queued".to_string()));
    assert_eq!(after, None);
    let (steps, after) = twintail::folders::empty_plan("steamrt", "/p/gi", "/r");
    assert_eq!(steps.len(), 2);
    assert_eq!(steps[0].path, "/r/steamrt/steamrt3/");
    assert_eq!(steps[1].path, "/r/steamrt/steamrt4/");
    assert_eq!(steps[1].missing, "dialogs.steamrt4_not_downloaded");
    assert_eq!(steps[0].done, None);
    assert_eq!(after, Some("dialogs.steamrt_repair_restart".to_string()));
    let (steps, after) = twintail::folders::empty_plan("mods", "/p", "/r");
    assert!(steps.is_empty());
    assert_eq!(after, None);
}

#[test]
fn tiling_desktops_draw_decorations_themselves() {
    assert_eq!(twintail::host::window_decorations(Some("Hyprland")), Some(false));
    assert_eq!(twintail::host::window_decorations(Some("sway")), Some(false));
    assert_eq!(twintail::host::window_decorations(Some("GNOME")), Some(true));
    assert_eq!(twintail::host::window_decorations(Some("i3wm")), Some(true));
    assert_eq!(twintail::host::window_decorations(None), None);
}

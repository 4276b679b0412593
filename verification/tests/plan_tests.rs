use twintail::models::{
    LauncherInstall, XXMISettings, DiffGameFile, DiffUrls, FullAudioFile, FullGameFile, GameVersion, VersionAssets, VersionAudioFiles,
    VersionGameFiles, VersionMetadata,
};
use twintail::plan::{
    archive_name, download_mode, effective_phase, has_space, install_size, job_outcome, pick_version, plan_download,
    plan_preload, plan_update, preload_name, record_update, repair_files, resume_states, update_background, DownloadMode,
    PreloadRoute, UpdateRoute,
};
use twintail::queue::QueueJobOutcome;

fn full(url: &str, comp: &str, decomp: &str, region: Option<&str>) -> FullGameFile {
    FullGameFile {
        file_url: url.to_string(),
        compressed_size: comp.to_string(),
        decompressed_size: decomp.to_string(),
        file_hash: String::new(),
        file_path: String::new(),
        region_code: region.map(|r| r.to_string()),
    }
}

fn diff(url: &str, from: &str, comp: &str, decomp: &str) -> DiffGameFile {
    DiffGameFile {
        file_url: url.to_string(),
        compressed_size: comp.to_string(),
        decompressed_size: decomp.to_string(),
        file_hash: String::new(),
        diff_type: String::new(),
        original_version: from.to_string(),
        delete_files: vec![],
    }
}

fn version(v: &str, mode: &str, fulls: Vec<FullGameFile>, diffs: Vec<DiffGameFile>) -> GameVersion {
    GameVersion {
        metadata: VersionMetadata {
            versioned_name: format!("Game {v}"),
            version: v.to_string(),
            download_mode: mode.to_string(),
            game_hash: String::new(),
            index_file: String::new(),
            res_list_url: String::new(),
            diff_list_url: DiffUrls {
                game: String::new(),
                en_us: String::new(),
                zh_cn: String::new(),
                ja_jp: String::new(),
                ko_kr: String::new(),
            },
        },
        assets: VersionAssets { game_icon: String::new(), game_background: String::new(), game_live_background: None },
        game: VersionGameFiles { full: fulls, diff: diffs },
        audio: VersionAudioFiles { full: vec![], diff: vec![] },
    }
}

fn sample_install(background: &str) -> LauncherInstall {
    LauncherInstall {
        id: "id".to_string(),
        manifest_id: "manifest_id".to_string(),
        version: "version".to_string(),
        audio_langs: "audio_langs".to_string(),
        name: "name".to_string(),
        directory: "directory".to_string(),
        runner_path: "runner_path".to_string(),
        dxvk_path: "dxvk_path".to_string(),
        runner_version: "runner_version".to_string(),
        dxvk_version: "dxvk_version".to_string(),
        game_icon: "game_icon".to_string(),
        game_background: background.to_string(),
        ignore_updates: true,
        skip_hash_check: true,
        use_jadeite: true,
        use_xxmi: true,
        use_fps_unlock: true,
        env_vars: "env_vars".to_string(),
        pre_launch_command: "pre_launch_command".to_string(),
        launch_command: "launch_command".to_string(),
        fps_value: "fps_value".to_string(),
        runner_prefix: "runner_prefix".to_string(),
        launch_args: "launch_args".to_string(),
        use_gamemode: true,
        use_mangohud: false,
        mangohud_config_path: "mangohud_config_path".to_string(),
        shortcut_is_steam: true,
        shortcut_path: "shortcut_path".to_string(),
        region_code: "region_code".to_string(),
        xxmi_config: XXMISettings { hunting_mode: 1, require_admin: true, dll_init_delay: 2, close_delay: 3, show_warnings: 4, dump_shaders: false },
    }
}

#[test]
fn modes_are_read() {
    assert_eq!(download_mode("DOWNLOAD_MODE_FILE"), DownloadMode::File);
    assert_eq!(download_mode("DOWNLOAD_MODE_CHUNK"), DownloadMode::Chunk);
    assert_eq!(download_mode("DOWNLOAD_MODE_RAW"), DownloadMode::Raw);
    assert_eq!(download_mode("DOWNLOAD_MODE_MULTIFILE"), DownloadMode::MultiFile);
    assert_eq!(download_mode("download_mode_file"), DownloadMode::Unsupported);
}

#[test]
fn cancellation_wins() {
    assert_eq!(job_outcome(true, true), QueueJobOutcome::Cancelled);
    assert_eq!(job_outcome(true, false), QueueJobOutcome::Cancelled);
    assert_eq!(job_outcome(false, true), QueueJobOutcome::Completed);
    assert_eq!(job_outcome(false, false), QueueJobOutcome::Failed);
}

#[test]
fn phases_space_and_names() {
    assert_eq!(effective_phase(5, false), 2);
    assert_eq!(effective_phase(5, true), 5);
    assert_eq!(effective_phase(3, false), 3);
    assert!(has_space(Some(100), 100));
    assert!(!has_space(Some(99), 100));
    assert!(!has_space(None, 0));
    assert_eq!(archive_name("https://cdn.example/a/b/game.zip.001"), "game.zip.001");
    assert_eq!(archive_name("plain"), "plain");
    assert_eq!(archive_name("ends/"), "");
    assert_eq!(preload_name("Genshin 5.0.0", "5.0.0", "5.1.0"), "Genshin 5.1.0");
    assert_eq!(preload_name("ab", "", "-"), "-a-b-");
}

#[test]
fn backgrounds_after_update() {
    let still = "still.png".to_string();
    assert_eq!(update_background("old.webm", &still, &Some("live.webm".to_string())), "live.webm");
    assert_eq!(update_background("old.mp4", &still, &Some(String::new())), "still.png");
    assert_eq!(update_background("old.mp4", &still, &None), "still.png");
    assert_eq!(update_background("old.png", &still, &Some("live.webm".to_string())), "still.png");
}

#[test]
fn version_is_picked_by_number() {
    let vs = vec![
        version("1.0", "DOWNLOAD_MODE_FILE", vec![], vec![]),
        version("2.0", "DOWNLOAD_MODE_FILE", vec![], vec![]),
        version("2.0", "DOWNLOAD_MODE_CHUNK", vec![], vec![]),
    ];
    assert_eq!(pick_version(&vs, "2.0"), Some(1));
    assert_eq!(pick_version(&vs, "3.0"), None);
}

#[test]
fn download_plans() {
    let files = vec![
        full("https://x/a.zip", "10", "20", Some("glb_official")),
        full("https://x/b.zip", "5", "oops", Some("jp_official")),
    ];
    let v = version("1.0", "DOWNLOAD_MODE_CHUNK", files, vec![]);
    let p = plan_download(&v, "bh3_global", &Some("jp_official".to_string())).unwrap();
    assert_eq!(p.mode, DownloadMode::Chunk);
    assert_eq!(p.files, vec![1]);
    assert_eq!(p.totals, Some((5, 0)));
    let p = plan_download(&v, "hk4e_global", &None).unwrap();
    assert_eq!(p.files, vec![0, 1]);
    assert_eq!(p.totals, Some((15, 20)));

    let raw = version("1.0", "DOWNLOAD_MODE_RAW", vec![full("https://x/index.json", "1", "1", None)], vec![]);
    let p = plan_download(&raw, "wuwa_global", &None).unwrap();
    assert_eq!(p.files, vec![0]);
    assert_eq!(p.totals, None);

    let odd = version("1.0", "SOMETHING", vec![full("u", "1", "1", None)], vec![]);
    let p = plan_download(&odd, "x", &None).unwrap();
    assert_eq!(p.mode, DownloadMode::Unsupported);
    assert!(p.files.is_empty());

    let huge = version(
        "1.0",
        "DOWNLOAD_MODE_FILE",
        vec![full("a", "18446744073709551615", "1", None), full("b", "1", "1", None)],
        vec![],
    );
    assert!(plan_download(&huge, "x", &None).is_none());
}

#[test]
fn update_plans() {
    let fulls = vec![full("https://x/full.zip", "100", "200", None)];
    let diffs = vec![
        diff("https://x/p1.zip", "0.9", "1", "2"),
        diff("https://x/p2.zip", "1.0", "10", "20"),
        diff("https://x/p3.zip", "1.0", "30", "40"),
    ];
    // Chunk mode with patches from the installed version: patch, with a space check.
    let v = version("1.1", "DOWNLOAD_MODE_CHUNK", fulls.clone(), diffs.clone());
    let p = plan_update(&v, "hk4e_global", &None, "1.0").unwrap();
    assert_eq!(p.route, UpdateRoute::Patch);
    assert_eq!(p.files, vec![1, 2]);
    assert_eq!(p.totals, Some((40, 60)));
    assert_eq!(p.space_needed, Some(40));
    // No patch from this version: the full files are fetched again.
    let p = plan_update(&v, "hk4e_global", &None, "0.5").unwrap();
    assert_eq!(p.route, UpdateRoute::Reinstall);
    assert_eq!(p.files, vec![0]);
    assert_eq!(p.totals, Some((100, 200)));
    assert_eq!(p.space_needed, None);
    // Archive mode patches only for the game that supports it.
    let f = version("1.1", "DOWNLOAD_MODE_FILE", fulls.clone(), diffs.clone());
    assert_eq!(plan_update(&f, "hk4e_global", &None, "1.0").unwrap().route, UpdateRoute::PatchUnsupported);
    let p = plan_update(&f, "endfield_global", &None, "1.0").unwrap();
    assert_eq!(p.route, UpdateRoute::Patch);
    assert_eq!(p.space_needed, None);
    // Raw mode needs a patch, and every patch's size must be a number.
    let r = version("1.1", "DOWNLOAD_MODE_RAW", fulls.clone(), diffs.clone());
    assert_eq!(plan_update(&r, "wuwa_global", &None, "0.5").unwrap().route, UpdateRoute::NoPath);
    let p = plan_update(&r, "wuwa_global", &None, "1.0").unwrap();
    assert_eq!(p.space_needed, Some(60));
    assert_eq!(p.totals, None);
    let bad = version("1.1", "DOWNLOAD_MODE_RAW", vec![], vec![diff("u", "1.0", "1", "x")]);
    assert!(plan_update(&bad, "wuwa_global", &None, "1.0").is_none());
    let m = version("1.1", "DOWNLOAD_MODE_MULTIFILE", fulls, diffs);
    assert_eq!(plan_update(&m, "x", &None, "1.0").unwrap().route, UpdateRoute::Nothing);
}

#[test]
fn preload_plans() {
    let g = VersionGameFiles { full: vec![], diff: vec![diff("u", "1.0", "3", "7"), diff("v", "0.9", "3", "5")] };
    let p = plan_preload("DOWNLOAD_MODE_CHUNK", &Some(g.clone()), "1.0").unwrap();
    assert_eq!(p.route, PreloadRoute::Patch);
    assert_eq!(p.files, vec![0]);
    assert_eq!(p.space_needed, Some(7));
    let p = plan_preload("DOWNLOAD_MODE_CHUNK", &Some(g.clone()), "0.1").unwrap();
    assert_eq!(p.route, PreloadRoute::Done);
    assert!(plan_preload("DOWNLOAD_MODE_RAW", &Some(g.clone()), "0.1").is_none());
    assert!(plan_preload("DOWNLOAD_MODE_CHUNK", &None, "1.0").is_none());
    assert_eq!(plan_preload("DOWNLOAD_MODE_FILE", &None, "1.0").unwrap().route, PreloadRoute::Done);
    assert_eq!(plan_preload("other", &None, "1.0").unwrap().route, PreloadRoute::Nothing);
}

#[test]
fn repair_picks_region_files() {
    let files = vec![full("a", "1", "1", Some("glb_official")), full("b", "1", "1", Some("jp_official"))];
    assert_eq!(repair_files(&files, "bh3_global", "jp_official"), Some(vec![1]));
    assert_eq!(repair_files(&files, "hk4e_global", "jp_official"), Some(vec![0, 1]));
    let missing = vec![full("a", "1", "1", None)];
    assert_eq!(repair_files(&missing, "bh3_global", "jp_official"), None);
    assert_eq!(repair_files(&missing, "nap_global", "jp_official"), Some(vec![0]));
}

#[test]
fn install_sizes() {
    let mut v = version(
        "1.0",
        "DOWNLOAD_MODE_CHUNK",
        vec![full("a", "1", "100", Some("glb_official")), full("b", "1", "50", Some("jp_official"))],
        vec![],
    );
    assert_eq!(install_size(&v, "bh3_global", &None, "en-us"), Some(100));
    assert_eq!(install_size(&v, "bh3_global", &Some("jp_official".to_string()), "en-us"), Some(50));
    assert_eq!(install_size(&v, "hk4e_global", &None, "en-us"), Some(150));
    v.audio.full = vec![
        FullAudioFile {
            file_url: String::new(),
            compressed_size: String::new(),
            decompressed_size: "7".to_string(),
            file_hash: String::new(),
            language: "en-us".to_string(),
            region_code: None,
        },
    ];
    assert_eq!(install_size(&v, "hk4e_global", &None, "en-us"), Some(157));
    assert_eq!(install_size(&v, "hk4e_global", &None, "ja-jp"), None);
}

#[test]
fn resume_states_need_a_single_marker() {
    let r = resume_states(true, false, false, false);
    assert!(r.downloading && !r.updating && !r.preloading && !r.repairing);
    let r = resume_states(false, true, false, false);
    assert!(r.updating);
    let r = resume_states(false, true, true, false);
    assert!(!r.updating && !r.preloading);
    let r = resume_states(true, false, false, true);
    assert!(!r.downloading && !r.repairing);
}

#[test]
fn finished_downloads_unpack_their_archives() {
    let urls = vec!["https://cdn/a/game.zip.001".to_string(), "https://cdn/a/game.zip.002".to_string()];
    assert_eq!(twintail::plan::archives_to_unpack(twintail::plan::DownloadMode::File, &urls), vec!["game.zip.001"]);
    assert_eq!(
        twintail::plan::archives_to_unpack(twintail::plan::DownloadMode::MultiFile, &urls),
        vec!["game.zip.001", "game.zip.002"]
    );
    assert!(twintail::plan::archives_to_unpack(twintail::plan::DownloadMode::Chunk, &urls).is_empty());
    assert!(twintail::plan::archives_to_unpack(twintail::plan::DownloadMode::MultiFile, &vec![]).is_empty());
}

#[test]
fn update_is_recorded_on_the_install() {
    let mut picked = version("2.1.0", "DOWNLOAD_MODE_FILE", vec![], vec![]);
    picked.assets = VersionAssets {
        game_icon: "icon21.png".to_string(),
        game_background: "bg21.png".to_string(),
        game_live_background: Some("bg21.webm".to_string()),
    };
    let mut a = sample_install("old.png");
    record_update(&mut a, &picked, false);
    assert_eq!(a.name, "Game 2.1.0");
    assert_eq!(a.game_icon, "icon21.png");
    assert_eq!(a.version, "2.1.0");
    assert_eq!(a.game_background, "bg21.png");
    assert_eq!(a.id, "id");
    assert_eq!(a.directory, "directory");
    assert_eq!(a.runner_path, "runner_path");
    assert!(a.use_jadeite);
    let mut b = sample_install("old.webm");
    record_update(&mut b, &picked, true);
    assert_eq!(b.game_background, "bg21.webm");
    let mut c = sample_install("old.webm");
    record_update(&mut c, &picked, false);
    assert_eq!(c.game_background, "bg21.png");
    let mut d = sample_install("old.png");
    record_update(&mut d, &picked, true);
    assert_eq!(d.game_background, "bg21.png");
}

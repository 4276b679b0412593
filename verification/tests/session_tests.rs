use twintail::session::{
    game_status, helpers_to_stop, jadeite_retired, keeps_when_emptying, playtime_step, process_name,
    status_process_name, switched_runner_path,
};

#[test]
fn process_names_are_cut_at_fifteen_bytes() {
    assert_eq!(process_name("GenshinImpact.exe"), Some("GenshinImpact".to_string()));
    assert_eq!(process_name("ZenlessZoneZero.exe"), Some("ZenlessZoneZero".to_string()));
    assert_eq!(process_name("BH3.exe"), Some("BH3".to_string()));
    assert_eq!(process_name("Client-Win64-Shipping.exe"), Some("Client-Win64-Sh".to_string()));
    assert_eq!(process_name("noext"), Some("noext".to_string()));
    assert_eq!(process_name("a.b.c"), Some("a".to_string()));
    // Byte 15 inside a two-byte character: no name.
    assert_eq!(process_name("abcdefghijklmné.exe"), None);
    assert_eq!(process_name("abcdefghijklm\u{e9}.exe"), Some("abcdefghijklm\u{e9}".to_string()));
}

#[test]
fn status_names_keep_short_file_names_whole() {
    assert_eq!(status_process_name("GenshinImpact.exe"), Some("GenshinImpact.exe".to_string()));
    assert_eq!(status_process_name("Games/StarRail.exe"), Some("StarRail.exe".to_string()));
    assert_eq!(
        status_process_name("Client/Binaries/Win64/Client-Win64-Shipping.exe"),
        Some("Client-Win64-Sh".to_string())
    );
    assert_eq!(status_process_name(""), Some("".to_string()));
}

#[test]
fn game_status_prefers_preparing() {
    assert_eq!(game_status(true, true), "preparing");
    assert_eq!(game_status(false, true), "running");
    assert_eq!(game_status(false, false), "idle");
}

#[test]
fn playtime_is_recorded_every_ten_seconds_and_at_exit() {
    let s = playtime_step(100, 0, 5, true);
    assert_eq!(s.record, None);
    assert_eq!(s.last_record, 0);
    assert!(!s.finished);
    let s = playtime_step(100, 0, 10, true);
    assert_eq!(s.record, Some(110));
    assert_eq!(s.last_record, 10);
    assert!(!s.finished);
    let s = playtime_step(100, 10, 13, false);
    assert_eq!(s.record, Some(113));
    assert_eq!(s.last_record, 13);
    assert!(s.finished);
}

#[test]
fn helpers_stopped_only_after_a_failed_start() {
    assert_eq!(helpers_to_stop(false, "hk4e_global", true, true, true, true), (true, true));
    assert_eq!(helpers_to_stop(false, "hk4e_global", true, false, false, true), (false, false));
    assert_eq!(helpers_to_stop(false, "wuwa_global", true, true, true, true), (false, false));
    assert_eq!(helpers_to_stop(true, "hk4e_global", true, true, true, true), (false, false));
}

#[test]
fn jadeite_switched_off_by_manifest_name() {
    assert!(jadeite_retired("Wuthering Waves"));
    assert!(jadeite_retired("StarRail"));
    assert!(jadeite_retired("HonkaiImpact 3rd"));
    assert!(!jadeite_retired("Honkai: Star Rail"));
    assert!(!jadeite_retired("Genshin Impact"));
}

#[test]
fn emptying_keeps_mods_and_user_settings() {
    assert!(keeps_when_emptying("Mods", true));
    assert!(keeps_when_emptying("ShaderFixes", true));
    assert!(keeps_when_emptying("gimi", true));
    assert!(!keeps_when_emptying("Mods", false));
    assert!(keeps_when_emptying("d3dx_user.ini", false));
    assert!(!keeps_when_emptying("d3dx.ini", false));
    assert!(!keeps_when_emptying("Core", true));
}

#[test]
fn runner_path_follows_the_new_version() {
    assert_eq!(
        switched_runner_path("/data/runners/wine-9.0", "wine-9.0", "wine-10.1"),
        "/data/runners/wine-10.1"
    );
    assert_eq!(switched_runner_path("/data/runners/proton", "wine-9.0", "wine-10.1"), "/data/runners/proton");
}

#[test]
fn presence_shows_the_game_and_launcher() {
    let p = twintail::session::presence("wuwa_global", "Wuthering Waves", "1.4.0");
    assert_eq!(p.details, "Playing Wuthering Waves");
    assert_eq!(p.state, "In Game");
    assert_eq!(p.large_image, "aki_icon");
    assert_eq!(p.large_text, "Wuthering Waves");
    assert_eq!(p.small_image, "tl_512");
    assert_eq!(p.small_text, "TwintailLauncher v1.4.0");
    assert_eq!(twintail::session::presence_icon("hk4e_global"), "hk4e_icon");
    assert_eq!(twintail::session::presence_icon("unknown"), "tl_512");
}

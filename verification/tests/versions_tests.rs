use std::cmp::Ordering;
use twintail::compat::{get_steam_appid, update_steam_compat_config};
use twintail::games::{get_engine_log_from_game, get_mi_path_from_game, newest_log_name, steam_tool_runtime_from_manifest, SteamRTType};
use twintail::scan::{authkey_from_query_pairs, authkey_link_candidates, collect_authkey_urls, find_package_version, find_steamrt_version};
use twintail::versions::{compare_steamrt_versions, compare_version, is_runner_lower, is_using_overriden_runner};

fn strings(v: &[&str]) -> Vec<String> {
    v.iter().map(|s| s.to_string()).collect()
}

#[test]
fn compare_version_orders_triples() {
    assert_eq!(compare_version("1.2.3", "1.2.4"), Ordering::Less);
    assert_eq!(compare_version("2.0.0", "1.9.9"), Ordering::Greater);
    assert_eq!(compare_version("1-2-3", "1.2.3"), Ordering::Equal);
    // A missing minor or patch counts as 0, an unreadable major as 1.
    assert_eq!(compare_version("1.2", "1.2.0"), Ordering::Equal);
    assert_eq!(compare_version("x", "1.0.0"), Ordering::Equal);
    assert_eq!(compare_version("10.0.0", "9.99.99"), Ordering::Greater);
}

#[test]
fn compare_version_flips_when_swapped() {
    let pairs = [("1.0.0", "1.0.1"), ("3.2.1", "3.2.1"), ("0.9", "0.10")];
    for (a, b) in pairs {
        assert_eq!(compare_version(a, b), compare_version(b, a).reverse());
    }
}

#[test]
fn steamrt_versions() {
    assert!(compare_steamrt_versions("3.0.20240916.101795", "3.0.20240901.1"));
    assert!(!compare_steamrt_versions("3.0.1", "3.0.2"));
    assert!(compare_steamrt_versions("3.0.1.1", "3.0.1"));
    assert!(!compare_steamrt_versions("3.0.1", "3.0.1"));
    assert!(!compare_steamrt_versions("3.0", "3.0.0"));
}

#[test]
fn runner_minimums() {
    let mins = strings(&["10.0-20-proton-cachyos", "9.0-1-proton-ge"]);
    assert!(is_runner_lower(mins.clone(), "10.0-19-proton-cachyos".to_string()));
    assert!(!is_runner_lower(mins.clone(), "10.0-20-proton-cachyos".to_string()));
    assert!(!is_runner_lower(mins.clone(), "8.0-proton-other".to_string()));
    assert!(!is_runner_lower(mins, "wine-9.0".to_string()));
}

#[test]
fn runner_override_families() {
    assert!(is_using_overriden_runner("10.0-20-proton-cachyos".to_string(), "9.0-1-proton-cachyos".to_string()));
    assert!(!is_using_overriden_runner("10.0-20-proton-ge".to_string(), "9.0-1-proton-cachyos".to_string()));
    assert!(!is_using_overriden_runner("wine-9".to_string(), "9.0-1-proton-cachyos".to_string()));
}

#[test]
fn model_injector_per_game() {
    assert_eq!(get_mi_path_from_game("GenshinImpact.exe".to_string()), Some("gimi".to_string()));
    assert_eq!(get_mi_path_from_game("StarRail.exe".to_string()), Some("srmi".to_string()));
    assert_eq!(get_mi_path_from_game("Client/Binaries/Win64/Client-Win64-Shipping.exe".to_string()), Some("wwmi".to_string()));
    assert_eq!(get_mi_path_from_game("notagame.exe".to_string()), None);
}

#[test]
fn runtime_tool_ids() {
    assert_eq!(SteamRTType::SteamRT3.runtime_name(), "steamrt3");
    assert_eq!(SteamRTType::SteamRT4Arm64.tool_appid(), "4185400");
    assert!(matches!(SteamRTType::from_tool_appid("1628350"), Some(SteamRTType::SteamRT3)));
    assert!(SteamRTType::from_tool_appid("1").is_none());
    let manifest = "\"manifest\"\n{\n  \"version\" \"2\"\n  \"require_tool_appid\" \"1628350\"\n}\n";
    assert_eq!(steam_tool_runtime_from_manifest(manifest), "steamrt3");
    assert_eq!(steam_tool_runtime_from_manifest("nothing here"), "");
}

#[test]
fn engine_logs() {
    assert_eq!(
        get_engine_log_from_game("Genshin Impact".to_string(), "".to_string(), None),
        "miHoYo/Genshin Impact/output_log.txt"
    );
    assert_eq!(
        get_engine_log_from_game("Honkai Impact 3rd".to_string(), "kr_official".to_string(), None),
        "miHoYo/붕괴3rd/Player.log"
    );
    assert_eq!(
        get_engine_log_from_game("Punishing Gray Raven".to_string(), "".to_string(), Some(strings(&["a.log", "c.log", "b.log"]))),
        "kurogame/PGR/log/c.log"
    );
    assert_eq!(get_engine_log_from_game("Unknown".to_string(), "".to_string(), None), "");
    let logs = strings(&["2024-01-01.log", "2024-03-05.log", "2023-12-31.log"]);
    assert_eq!(newest_log_name(&logs), Some("2024-03-05.log".to_string()));
    assert_eq!(newest_log_name(&Vec::new()), None);
}

#[test]
fn authkey_scanning() {
    let content = "junk https://a.example/log?authkey=abc&x=1 more \"https://gs.hoyoverse.com/webview_gacha?authkey=secretvalue123&lang=en\" end https://no.key/here";
    let urls = collect_authkey_urls(content);
    assert_eq!(urls, strings(&["https://a.example/log?authkey=abc&x=1", "https://gs.hoyoverse.com/webview_gacha?authkey=secretvalue123&lang=en"]));
    let cands = authkey_link_candidates(content);
    assert_eq!(cands, strings(&["https://gs.hoyoverse.com/webview_gacha?authkey=secretvalue123&lang=en"]));
    let pairs = vec![
        ("lang".to_string(), "en".to_string()),
        ("AuthKey".to_string(), "short".to_string()),
        ("authkey".to_string(), "longer-than-ten".to_string()),
    ];
    assert_eq!(authkey_from_query_pairs(&pairs), Some("longer-than-ten".to_string()));
    assert_eq!(authkey_from_query_pairs(&vec![]), None);
}

#[test]
fn version_files() {
    let lines = strings(&["# comment", "gimi = 7.0.1", "XXMI=1.2.3"]);
    assert_eq!(find_package_version(&lines, "GIMI"), Some("7.0.1".to_string()));
    assert_eq!(find_package_version(&lines, "xxmi"), Some("1.2.3".to_string()));
    assert_eq!(find_package_version(&lines, "srmi"), None);
    let rt = strings(&["steamrt3 sniper", "depot 4.0.20250101.1 x", "version 3.0.20240916.101795"]);
    assert_eq!(find_steamrt_version(&rt), "4.0.20250101.1");
    assert_eq!(find_steamrt_version(&strings(&["nothing"])), "");
}

#[test]
fn compat_config_merging() {
    assert_eq!(update_steam_compat_config("", vec!["gamedrive"]), "gamedrive");
    assert_eq!(
        update_steam_compat_config("noopwmi,cmdlineappend:-a\\,b", vec!["gamedrive", "cmdlineappend:-c"]),
        "noopwmi,b,gamedrive,cmdlineappend:-ab,cmdlineappend:-c"
    );
    assert_eq!(update_steam_compat_config("", vec![]), "");
    assert_eq!(
        update_steam_compat_config("cmdlineappend:-a\\,b", vec!["cmdlineappend:-x\\\\y"]),
        "b,cmdlineappend:-ab,cmdlineappend:-x\\\\y"
    );
}

#[test]
fn steam_app_ids() {
    assert_eq!(get_steam_appid(Some("/x/y/12345".to_string()), None, None, None, None), 12345);
    assert_eq!(get_steam_appid(None, Some("/x/777/y".to_string()), None, None, None), 777);
    assert_eq!(get_steam_appid(None, None, None, None, Some("8589934592".to_string())), 2);
    assert_eq!(get_steam_appid(None, None, None, None, None), 0);
}

#[test]
fn injector_package_ignores_case() {
    for path in ["Game/ZenlessZoneZero.exe", "game/zenlesszonezero.exe", "GAME/ZENLESSZONEZERO.EXE"] {
        assert_eq!(get_mi_path_from_game(path.to_string()), Some("zzmi".to_string()));
    }
    for path in ["a/Notepad.exe", "A/NOTEPAD.EXE"] {
        assert_eq!(get_mi_path_from_game(path.to_string()), None);
    }
}

#[test]
fn compat_config_reads_back_unchanged() {
    let r = update_steam_compat_config("noopwmi, ,cmdlineappend:-x", vec!["gamedrive", "cmdlineappend:-y z"]);
    assert_eq!(r, "noopwmi,gamedrive,cmdlineappend:-x,cmdlineappend:-y z");
    assert_eq!(update_steam_compat_config(&r, vec![]), r);
}

use twintail::launch::{tool_problem, ToolProblem};
use twintail::launch::{
    adjust_launch_args, container_reaper_path, custom_launch_command, default_command, diagnostics_command,
    engine_log_base, fps_unlock_command, game_drive, game_env, is_proton, launch_refusal, launch_verb,
    needs_winetricks, parse_env_vars, prelaunch_command, prelaunch_env, prefix_tool, prefix_tool_command,
    prefix_tool_env, runtime_paths, tool_env, wine_binary, xxmi_command, LaunchContext, LaunchRefusal,
    PrefixTool, RunnerSwitches,
};

fn strings(v: &[&str]) -> Vec<String> {
    v.iter().map(|s| s.to_string()).collect()
}

fn ctx() -> LaunchContext {
    LaunchContext {
        appid: 123,
        reaper: "/r/reaper".to_string(),
        steamrt_path: "/rt".to_string(),
        steamrt: "/rt/_v2-entry-point".to_string(),
        prefix: "/p".to_string(),
        runner: "/run".to_string(),
        wine64: "files/bin/wine64".to_string(),
        dir: "/g".to_string(),
        game: "sub/Game.exe".to_string(),
        exe: "Game.exe".to_string(),
    }
}

fn switches() -> RunnerSwitches {
    RunnerSwitches {
        stub_wintrust: false,
        block_first_req: false,
        disable_protonfixes: false,
        protonfixes_store: String::new(),
        protonfixes_id: String::new(),
    }
}

#[test]
fn runner_kinds() {
    assert!(is_proton("Proton CachyOS"));
    assert!(!is_proton("Wine-GE-Proton"));
    assert!(!is_proton("Wine Staging"));
    assert_eq!(wine_binary(&String::new(), &"bin/wine".to_string()), "bin/wine");
    assert_eq!(wine_binary(&"bin/wine64".to_string(), &"bin/wine".to_string()), "bin/wine64");
}

#[test]
fn launch_refusals_in_order() {
    let mins = strings(&["10.0-20-proton-cachyos"]);
    let old = "10.0-1-proton-cachyos".to_string();
    assert_eq!(launch_refusal(false, &mins, &old, false, &String::new()), Some(LaunchRefusal::SteamRuntimeBroken));
    assert_eq!(launch_refusal(true, &mins, &old, false, &String::new()), Some(LaunchRefusal::RunnerTooOld));
    let new = "10.0-30-proton-cachyos".to_string();
    assert_eq!(launch_refusal(true, &mins, &new, false, &String::new()), None);
    assert_eq!(
        launch_refusal(true, &mins, &new, true, &"9.0-proton-ge".to_string()),
        Some(LaunchRefusal::RunnerOverrideRequired)
    );
    assert_eq!(launch_refusal(true, &mins, &new, true, &"9.0-1-proton-cachyos".to_string()), None);
    assert_eq!(launch_refusal(true, &mins, &new, true, &String::new()), None);
}

#[test]
fn small_launch_choices() {
    assert!(needs_winetricks(false, &strings(&["vcrun2022"])));
    assert!(!needs_winetricks(true, &strings(&["vcrun2022"])));
    assert!(!needs_winetricks(false, &vec![]));
    assert_eq!(launch_verb(true, false), "run");
    assert_eq!(launch_verb(false, false), "waitforexitandrun");
    assert_eq!(game_drive(&strings(&["gamedrive"]), "/g", "Game.exe"), "s:\\Game.exe");
    assert_eq!(game_drive(&vec![], "/g", "Game.exe"), "z:\\/g/Game.exe");
}

#[test]
fn arguments_for_the_game() {
    let opts = strings(&["-dx12", "-dx11"]);
    assert_eq!(adjust_launch_args("-dx12  -windowed", true, "wuwa_global", &opts, true, "-dx12"), "-windowed -dx11");
    assert_eq!(adjust_launch_args("", true, "nap_global", &opts, false, ""), "-use-d3d11");
    assert_eq!(adjust_launch_args("-x", true, "endfield_global", &opts, false, ""), "-x -force-d3d11");
    assert_eq!(adjust_launch_args("-x", false, "wuwa_global", &opts, true, "-dx12"), "-x -dx12");
    assert_eq!(adjust_launch_args("-x -dx11", false, "wuwa_global", &opts, true, "-dx12"), "-x -dx11");
    assert_eq!(adjust_launch_args("-x", false, "wuwa_global", &opts, false, "-dx12"), "-x");
    assert_eq!(adjust_launch_args("-x", true, "hk4e_global", &opts, true, ""), "-x");
}

#[test]
fn environment_text_parsing() {
    let v = parse_env_vars("A=1;B=\"two words\";;C=x=y").unwrap();
    assert_eq!(
        v,
        vec![
            ("A".to_string(), "1".to_string()),
            ("B".to_string(), "two words".to_string()),
            ("C".to_string(), "x=y".to_string()),
        ]
    );
    assert_eq!(parse_env_vars(""), Some(vec![]));
    assert_eq!(parse_env_vars("A=1;broken"), None);
    assert_eq!(parse_env_vars("=1"), None);
}

#[test]
fn command_lines() {
    let c = ctx();
    assert_eq!(
        default_command(true, false, &c, "run", "z:\\/g/sub/Game.exe", "-x"),
        "'/rt/_v2-entry-point' --verb=run -- '/r/reaper' SteamLaunch AppId=123 -- '/run/files/bin/wine64' run 'z:\\/g/sub/Game.exe' -x"
    );
    assert_eq!(
        default_command(false, true, &c, "run", "", ""),
        "gamemoderun '/run/files/bin/wine64' '/g/sub/Game.exe' "
    );
    assert_eq!(
        prelaunch_command("echo %appid% %prefix% %runner% %runner_dir% %game_exe%", &c),
        "echo 123 /p /run/files/bin/wine64 /run /g/Game.exe"
    );
    assert_eq!(custom_launch_command("mangohud %command%", "-x", "GAME", &c), "mangohud GAME -x");
    assert_eq!(custom_launch_command("no placeholders", "", "GAME", &c), "no placeholders");
    assert_eq!(
        xxmi_command(true, &c, "/xx", "gimi"),
        "'/run/files/bin/wine64' run 'z:\\/xx/3dmloader.exe' gimi"
    );
    assert_eq!(
        fps_unlock_command(false, &c, "/fps", "hk4e_global", "120", "/g"),
        "'/run/files/bin/wine64' 'z:\\/fps/keqing_unlock.exe' run hk4e_global 120 2000 600 '/g'"
    );
    assert_eq!(diagnostics_command("/rt/run"), "'/rt/run' steam-runtime-system-info --verbose");
}

#[test]
fn game_environment() {
    let c = ctx();
    let mut sw = switches();
    sw.stub_wintrust = true;
    sw.protonfixes_id = "umu-123".to_string();
    let env = game_env("wuwa_global", &c, &sw, "gamedrive", true, "", "DXVK_HUD=1");
    assert_eq!(env[0], ("SteamGameId".to_string(), "3513350".to_string()));
    assert!(env.contains(&("WINEPREFIX".to_string(), "/p/pfx".to_string())));
    assert!(env.contains(&("STEAM_COMPAT_LIBRARY_PATHS".to_string(), "/g:/p/pfx".to_string())));
    assert!(env.contains(&("STUB_WINTRUST".to_string(), "1".to_string())));
    assert!(env.contains(&("UMU_ID".to_string(), "umu-123".to_string())));
    assert!(!env.iter().any(|(k, _)| k == "STORE" || k == "MANGOHUD_CONFIGFILE"));
    let overrides: Vec<_> = env.iter().filter(|(k, _)| k == "WINEDLLOVERRIDES").collect();
    assert_eq!(overrides.len(), 2);
    assert_eq!(overrides[1].1, "lsteamclient=d;KRSDKExternal.exe=d;jsproxy=n,b");
    assert_eq!(env[env.len() - 1], ("DXVK_HUD".to_string(), "1".to_string()));
    let env2 = game_env("hk4e_global", &c, &switches(), "", false, "", "");
    assert_eq!(env2[0], ("SteamGameId".to_string(), "123".to_string()));
    assert_eq!(env2.len(), 13);
}

#[test]
fn helper_environments() {
    let c = ctx();
    let pre = prelaunch_env(&c, &switches());
    assert_eq!(pre.len(), 9);
    let xx = tool_env(Some("wwmi"), &c, "");
    assert_eq!(xx[0], ("LOADER_MODE".to_string(), "inject".to_string()));
    let xx = tool_env(Some("gimi"), &c, "");
    assert_eq!(xx[0], ("LOADER_MODE".to_string(), "hook".to_string()));
    let fps = tool_env(None, &c, "A=b");
    assert_eq!(fps[0].0, "WINEARCH");
    assert_eq!(fps[fps.len() - 1], ("A".to_string(), "b".to_string()));
    let env = prefix_tool_env(&"/p".to_string(), "/g", "/run");
    assert_eq!(env.len(), 11);
}

#[test]
fn prefix_tools_and_paths() {
    assert_eq!(prefix_tool("regedit.exe"), Some(PrefixTool::Regedit));
    assert_eq!(prefix_tool("notepad.exe"), None);
    assert_eq!(
        prefix_tool_command("/rt/e", "/r", 7, "/run", PrefixTool::Winecfg),
        "'/rt/e' --verb=run -- '/r' SteamLaunch AppId=7 -- '/run/proton' run 'winecfg.exe'"
    );
    let (base, entry) = runtime_paths("/runners", "steamrt3");
    assert_eq!(base, "/runners/steamrt/steamrt3");
    assert_eq!(entry, "/runners/steamrt/steamrt3/_v2-entry-point");
    assert_eq!(container_reaper_path("/usr/lib/ttl/reaper", false), "/run/host/usr/lib/ttl/reaper");
    assert_eq!(container_reaper_path("/app/lib/ttl/reaper", true), "/run/parent/app/lib/ttl/reaper");
    assert_eq!(engine_log_base("/p", "/g", "hk4e_global"), "/p/pfx/drive_c/users/steamuser/AppData/LocalLow/");
    assert_eq!(engine_log_base("/p", "/g", "wuwa_global"), "/g");
}

#[test]
fn prefix_program_messages_and_diagnostics() {
    assert_eq!(
        twintail::launch::tool_message(PrefixTool::Regedit, twintail::launch::ToolProblem::PrefixNotInitialized),
        "dialogs.regedit_prefix_not_initialized"
    );
    assert_eq!(
        twintail::launch::tool_message(PrefixTool::Winecfg, twintail::launch::ToolProblem::ExecCritical),
        "dialogs.winecfg_exec_critical"
    );
    let d = twintail::launch::diagnostics_target("steamrt3", "/r").unwrap();
    assert_eq!(d.dir, "/r/steamrt/steamrt3/");
    assert_eq!(d.run, "/r/steamrt/steamrt3/run");
    assert_eq!(d.log_name, "steamrt3_diagnostics.log");
    assert_eq!(d.failed, "dialogs.steamrt3_diagnostics_failed");
    assert_eq!(d.not_downloaded, "dialogs.steamrt3_not_downloaded_diag");
    assert_eq!(d.log_open_failed, "dialogs.steamrt3_log_open_failed");
    assert_eq!(twintail::launch::diagnostics_target("steamrt4", "/r/").unwrap().dir, "/r/steamrt/steamrt4/");
    assert!(twintail::launch::diagnostics_target("regedit.exe", "/r").is_none());
    assert_eq!(
        twintail::launch::diagnostics_exec_messages(),
        ("dialogs.steamrt_diagnostics_exec_incorrect", "dialogs.steamrt_diagnostics_exec_critical")
    );
}

#[test]
fn prefix_program_problems_in_order() {
    assert_eq!(tool_problem(false, false), Some(ToolProblem::RunnerNotFound));
    assert_eq!(tool_problem(false, true), Some(ToolProblem::RunnerNotFound));
    assert_eq!(tool_problem(true, false), Some(ToolProblem::PrefixNotInitialized));
    assert_eq!(tool_problem(true, true), None);
}

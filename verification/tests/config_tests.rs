use twintail::ini::{rewrite_ini, xxmi_tweaks, IniKey};
use twintail::models::XXMISettings;
use twintail::network::{
    is_online, monitor_step, network_status, probe_step, status_after_all, MonitorAction, MonitorState, Probe, ProbeStep,
};

fn settings() -> XXMISettings {
    XXMISettings { hunting_mode: 2, require_admin: true, dll_init_delay: 100, close_delay: 5, show_warnings: 1, dump_shaders: false }
}

fn key(s: &str, k: &str, v: &str) -> IniKey {
    IniKey { section: s.to_string(), key: k.to_string(), value: v.to_string() }
}

#[test]
fn managed_settings_per_injector() {
    let (d, keys) = xxmi_tweaks("/xxmi/srmi", &settings());
    assert!(d.require_admin);
    assert_eq!(keys.len(), 3);
    assert_eq!((keys[0].section.as_str(), keys[0].key.as_str(), keys[0].value.as_str()), ("Hunting", "hunting", "2"));
    assert_eq!(keys[1].value, "clipboard");
    assert_eq!(keys[2].value, "1");
    let mut s = settings();
    s.dump_shaders = true;
    let (d, keys) = xxmi_tweaks("/xxmi/gimi", &s);
    assert!(!d.require_admin);
    assert_eq!(d.dll_init_delay, 500);
    assert_eq!(d.close_delay, 20);
    assert_eq!(keys.len(), 6);
    assert_eq!(keys[1].value, "clipboard hlsl asm regex");
    assert_eq!((keys[3].key.as_str(), keys[3].value.as_str()), ("require_admin", "false"));
    assert_eq!((keys[4].key.as_str(), keys[4].value.as_str()), ("delay", "20"));
    assert_eq!((keys[5].section.as_str(), keys[5].value.as_str()), ("System", "500"));
}

#[test]
fn ini_rewrite_replaces_and_adds() {
    let content = "[Hunting]\r\nhunting = 0\n; hunting = 9\n[Logging]\nother=1\n";
    let keys = vec![key("Hunting", "hunting", "2"), key("Hunting", "marking_actions", "clipboard"), key("Logging", "show_warnings", "1")];
    let out = rewrite_ini(content, &keys);
    assert_eq!(out, "[Hunting]\nhunting = 2\n; hunting = 9\nmarking_actions = clipboard\n[Logging]\nother=1\nshow_warnings = 1");
}

#[test]
fn ini_rewrite_without_settings_keeps_lines() {
    let content = "[A]\nx = 1\r\n\n[B]";
    assert_eq!(rewrite_ini(content, &vec![]), "[A]\nx = 1\n\n[B]");
    assert_eq!(rewrite_ini("", &vec![]), "");
    // A lone `[` is no section header.
    assert_eq!(rewrite_ini("[\nk=1", &vec![key("", "k", "2")]), "[\nk = 2");
}

fn probe(answered: bool, code: u16, ms: u64) -> Probe {
    Probe { answered, status_code: code, latency_ms: ms }
}

#[test]
fn network_statuses() {
    let s = network_status(&vec![probe(false, 0, 0), probe(true, 204, 120)]);
    assert_eq!((s.status.as_str(), s.latency_ms), ("online", Some(120)));
    let s = network_status(&vec![probe(true, 200, 7000), probe(true, 405, 6000), probe(true, 500, 10)]);
    assert_eq!((s.status.as_str(), s.latency_ms), ("slow", Some(6000)));
    assert_eq!(s.message, "Connection is slow");
    let s = network_status(&vec![probe(false, 0, 0), probe(true, 404, 10)]);
    assert_eq!((s.status.as_str(), s.latency_ms), ("offline", None));
    assert_eq!(s.message, "Unable to connect to the internet");
    match probe_step(Some(9000), probe(true, 200, 8000)) {
        ProbeStep::Continue(b) => assert_eq!(b, Some(8000)),
        ProbeStep::Done(_) => panic!("a slow answer does not settle the check"),
    }
    assert_eq!(status_after_all(None).status, "offline");
}

#[test]
fn connectivity_for_the_monitor() {
    assert!(is_online(&vec![probe(false, 0, 0), probe(true, 204, 9000)]));
    assert!(!is_online(&vec![probe(true, 405, 10)]));
    assert!(!is_online(&vec![]));
}

#[test]
fn monitor_pauses_on_third_failure_and_resumes_its_own_pause() {
    let s0 = MonitorState::new();
    let (s1, a1) = monitor_step(s0, false, false);
    let (s2, a2) = monitor_step(s1, false, false);
    let (s3, a3) = monitor_step(s2, false, false);
    let (s4, a4) = monitor_step(s3, false, true);
    assert_eq!((a1, a2, a3, a4), (MonitorAction::Nothing, MonitorAction::Nothing, MonitorAction::AutoPause, MonitorAction::Nothing));
    assert_eq!(s4.consecutive_failures, 4);
    let (s5, a5) = monitor_step(s4, true, true);
    assert_eq!(a5, MonitorAction::AutoResume);
    assert_eq!(s5, MonitorState::new());
    // A pause that is no longer the monitor's is left alone.
    let (_, a) = monitor_step(s4, true, false);
    assert_eq!(a, MonitorAction::Nothing);
    let saturated = MonitorState { was_offline: true, consecutive_failures: u32::MAX };
    assert_eq!(monitor_step(saturated, false, false).0.consecutive_failures, u32::MAX);
}

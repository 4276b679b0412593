use twintail::extras::{packages_for_switch, ToolSwitch};
use twintail::payload::{DownloadGamePayload, ExtrasDownloadPayload, QueueJobPayload, RunnerDownloadPayload, SteamrtDownloadPayload};
use twintail::queue::{DownloadQueueHandle, QueueJobKind, QueueJobOutcome, QueueJobStatus};

fn game(install: &str) -> QueueJobPayload {
    QueueJobPayload::Game(DownloadGamePayload {
        install: install.to_string(),
        biz: "hk4e_global".to_string(),
        lang: "en-us".to_string(),
        region: "glb_official".to_string(),
        is_latest: None,
    })
}

fn queued_ids(q: &DownloadQueueHandle) -> Vec<String> {
    q.get_state().queued.iter().map(|v| v.id.clone()).collect()
}

#[test]
fn payload_ids_and_names() {
    let g = game("inst1");
    assert_eq!(g.get_id(), "inst1");
    assert_eq!(g.get_name(), "inst1");
    let r = QueueJobPayload::Runner(RunnerDownloadPayload {
        runner_version: "10.0-proton-cachyos".to_string(),
        runner_url: "https://x".to_string(),
        runner_path: "/r".to_string(),
    });
    assert_eq!(r.get_id(), "10.0-proton-cachyos");
    let s = QueueJobPayload::Steamrt(SteamrtDownloadPayload { steamrt_path: "/s".to_string(), is_update: false });
    assert_eq!(s.get_id(), "steamrt");
    assert_eq!(s.get_name(), "SteamLinuxRuntime 3");
    let s4 = QueueJobPayload::Steamrt4(SteamrtDownloadPayload { steamrt_path: "/s".to_string(), is_update: true });
    assert_eq!(s4.get_id(), "steamrt4");
    assert_eq!(s4.get_name(), "SteamLinuxRuntime 4");
    let e = QueueJobPayload::Extras(ExtrasDownloadPayload {
        path: "/x".to_string(),
        package_id: "xxmi".to_string(),
        package_type: "gimi".to_string(),
        update_mode: false,
    });
    assert_eq!(e.get_id(), "gimi");
}

#[test]
fn enqueue_numbers_jobs_and_finds_them() {
    let mut q = DownloadQueueHandle::new(1);
    let a = q.enqueue(QueueJobKind::GameDownload, game("a"));
    let b = q.enqueue(QueueJobKind::GameDownload, game("b"));
    assert_eq!(a, "job_1");
    assert_eq!(b, "job_2");
    assert_ne!(a, b);
    assert!(q.has_job_for_id("a".to_string()));
    assert!(q.has_job_for_id("b".to_string()));
    assert!(!q.has_job_for_id("c".to_string()));
    let st = q.get_state();
    assert_eq!(st.queued.len(), 2);
    assert_eq!(st.queued[0].status, QueueJobStatus::Queued);
    assert_eq!(st.queued[0].install_id, "a");
    assert_eq!(st.max_concurrent, 1);
}

#[test]
fn new_queue_runs_at_least_one_job() {
    let q = DownloadQueueHandle::new(0);
    assert_eq!(q.get_state().max_concurrent, 1);
}

#[test]
fn move_up_then_down_restores_order() {
    let mut q = DownloadQueueHandle::new(1);
    q.enqueue(QueueJobKind::GameDownload, game("a"));
    let b = q.enqueue(QueueJobKind::GameDownload, game("b"));
    q.enqueue(QueueJobKind::GameDownload, game("c"));
    let before = queued_ids(&q);
    assert!(q.move_up(b.clone()));
    assert_eq!(queued_ids(&q), vec!["job_2", "job_1", "job_3"]);
    assert!(q.move_down(b.clone()));
    assert_eq!(queued_ids(&q), before);
    // The first job cannot go further up, the last not further down.
    assert!(!q.move_up("job_1".to_string()));
    assert!(!q.move_down("job_3".to_string()));
    assert!(!q.move_up("job_9".to_string()));
}

#[test]
fn reorder_and_remove() {
    let mut q = DownloadQueueHandle::new(1);
    q.enqueue(QueueJobKind::GameDownload, game("a"));
    q.enqueue(QueueJobKind::GameDownload, game("b"));
    q.enqueue(QueueJobKind::GameDownload, game("c"));
    assert!(q.reorder("job_3".to_string(), 0));
    assert_eq!(queued_ids(&q), vec!["job_3", "job_1", "job_2"]);
    assert!(q.reorder("job_3".to_string(), 99));
    assert_eq!(queued_ids(&q), vec!["job_1", "job_2", "job_3"]);
    assert!(!q.reorder("job_7".to_string(), 0));
    assert!(q.remove("job_2".to_string()));
    assert_eq!(queued_ids(&q), vec!["job_1", "job_3"]);
    assert!(!q.remove("job_2".to_string()));
}

#[test]
fn start_next_respects_pause_and_limit() {
    let mut q = DownloadQueueHandle::new(1);
    q.enqueue(QueueJobKind::GameDownload, game("a"));
    q.enqueue(QueueJobKind::GameDownload, game("b"));
    q.set_paused(true);
    assert!(q.start_next_job().is_none());
    q.set_paused(false);
    let j = q.start_next_job().expect("a job starts");
    assert_eq!(j.id, "job_1");
    // Only one job may run at once.
    assert!(q.start_next_job().is_none());
    let st = q.get_state();
    assert_eq!(st.running.len(), 1);
    assert_eq!(st.running[0].status, QueueJobStatus::Running);
    q.job_finished("job_1".to_string(), QueueJobOutcome::Completed);
    let st = q.get_state();
    assert_eq!(st.running.len(), 0);
    assert_eq!(st.completed.len(), 1);
    assert_eq!(st.completed[0].status, QueueJobStatus::Completed);
    let j2 = q.start_next_job().expect("the next job starts");
    assert_eq!(j2.id, "job_2");
}

#[test]
fn history_keeps_the_most_recent_25() {
    let mut q = DownloadQueueHandle::new(1);
    for i in 0..30 {
        q.enqueue(QueueJobKind::RunnerDownload, game(&format!("i{i}")));
        let j = q.start_next_job().unwrap();
        q.job_finished(j.id, QueueJobOutcome::Failed);
    }
    let st = q.get_state();
    assert_eq!(st.completed.len(), 25);
    assert_eq!(st.completed[0].id, "job_30");
    assert_eq!(st.completed[0].status, QueueJobStatus::Failed);
    q.clear_completed();
    assert_eq!(q.get_state().completed.len(), 0);
}

#[test]
fn cancelled_job_is_paused_then_resumes_first() {
    let mut q = DownloadQueueHandle::new(1);
    q.enqueue(QueueJobKind::GameDownload, game("a"));
    q.enqueue(QueueJobKind::GameDownload, game("b"));
    let j = q.start_next_job().unwrap();
    q.set_pausing("a".to_string(), true);
    assert_eq!(q.get_state().pausing_installs, vec!["a".to_string()]);
    q.job_finished(j.id.clone(), QueueJobOutcome::Cancelled);
    let st = q.get_state();
    assert!(st.paused);
    assert_eq!(st.paused_jobs.len(), 1);
    assert_eq!(st.paused_jobs[0].status, QueueJobStatus::Paused);
    assert!(st.pausing_installs.is_empty());
    assert!(q.has_job_for_id("a".to_string()));
    assert!(q.resume_job("a".to_string()));
    let st = q.get_state();
    assert!(!st.paused);
    assert_eq!(st.queued[0].install_id, "a");
    assert_eq!(st.queued[0].status, QueueJobStatus::Queued);
    assert!(!q.resume_job("zzz".to_string()));
}

#[test]
fn auto_pause_only_touches_a_running_queue() {
    let mut q = DownloadQueueHandle::new(1);
    assert!(q.auto_pause());
    assert!(q.is_auto_paused());
    assert!(q.get_state().paused);
    assert!(q.auto_resume());
    assert!(!q.is_auto_paused());
    assert!(!q.get_state().paused);
    // A pause the user made is not the monitor's to lift.
    q.set_paused(true);
    assert!(!q.auto_pause());
    assert!(!q.is_auto_paused());
    assert!(!q.auto_resume());
    assert!(q.get_state().paused);
}

#[test]
fn remove_by_install_drops_every_job_of_it() {
    let mut q = DownloadQueueHandle::new(2);
    q.enqueue(QueueJobKind::GameDownload, game("a"));
    q.enqueue(QueueJobKind::GameUpdate, game("b"));
    q.enqueue(QueueJobKind::GameRepair, game("a"));
    let removed = q.remove_jobs_of_install("a".to_string());
    assert_eq!(removed, vec!["job_1".to_string(), "job_3".to_string()]);
    assert!(!q.has_job_for_id("a".to_string()));
    assert!(q.has_job_for_id("b".to_string()));
    assert!(q.remove_by_install_id("b".to_string()));
    assert!(!q.has_job_for_id("b".to_string()));
    assert!(!q.remove_by_install_id("b".to_string()));
    assert!(!q.remove_by_install_id("zzz".to_string()));
    let mut h = DownloadQueueHandle::new(1);
    h.enqueue(QueueJobKind::GameDownload, game("c"));
    let job = h.start_next_job().unwrap();
    h.job_finished(job.id.clone(), QueueJobOutcome::Completed);
    assert!(!h.has_job_for_id("c".to_string()));
    assert!(h.remove_by_install_id("c".to_string()));
    assert!(!h.remove_by_install_id("c".to_string()));
}

#[test]
fn activate_moves_job_to_front_and_unpauses() {
    let mut q = DownloadQueueHandle::new(1);
    q.enqueue(QueueJobKind::GameDownload, game("a"));
    q.enqueue(QueueJobKind::GameDownload, game("b"));
    q.set_paused(true);
    assert_eq!(q.activate_job("job_2".to_string()), Some("b".to_string()));
    let st = q.get_state();
    assert!(!st.paused);
    assert_eq!(st.queued[0].id, "job_2");
    assert_eq!(q.activate_job("nope".to_string()), None);
    let j = q.start_next_job().unwrap();
    assert_eq!(j.id, "job_2");
}

#[test]
fn extras_are_queued_once_per_package() {
    let mut q = DownloadQueueHandle::new(1);
    let first = q.enqueue_extras("/x".to_string(), "xxmi".to_string(), "gimi".to_string(), false);
    assert_eq!(first, Some("job_1".to_string()));
    assert!(q.has_job_for_id("gimi".to_string()));
    let again = q.enqueue_extras("/x".to_string(), "xxmi".to_string(), "gimi".to_string(), false);
    assert_eq!(again, None);
    assert_eq!(queued_ids(&q), vec!["job_1".to_string()]);
    let other = q.enqueue_extras("/x".to_string(), "xxmi".to_string(), "srmi".to_string(), false);
    assert_eq!(other, Some("job_2".to_string()));
}

#[test]
fn switching_tools_on_queues_their_packages() {
    let x = packages_for_switch(ToolSwitch::Xxmi, true);
    assert_eq!(x.len(), 6);
    assert_eq!(x[0], ("xxmi".to_string(), "xxmi".to_string()));
    assert_eq!(x[5], ("xxmi".to_string(), "wwmi".to_string()));
    assert_eq!(packages_for_switch(ToolSwitch::Jadeite, true), vec![("jadeite".to_string(), "v5.0.1-hotfix".to_string())]);
    assert_eq!(packages_for_switch(ToolSwitch::FpsUnlock, true), vec![("keqingunlock".to_string(), "keqing_unlock".to_string())]);
    assert!(packages_for_switch(ToolSwitch::Xxmi, false).is_empty());
}

#[test]
fn each_list_shows_its_own_status() {
    let mut q = DownloadQueueHandle::new(1);
    q.enqueue(QueueJobKind::GameDownload, game("a"));
    q.enqueue(QueueJobKind::GameDownload, game("b"));
    let job = q.start_next_job().unwrap();
    q.set_pausing("a".to_string(), true);
    q.job_finished(job.id.clone(), QueueJobOutcome::Cancelled);
    let s = q.get_state();
    assert!(s.queued.iter().all(|v| v.status == QueueJobStatus::Queued));
    assert!(s.running.iter().all(|v| v.status == QueueJobStatus::Running));
    assert_eq!(s.paused_jobs.len(), 1);
    assert_eq!(s.paused_jobs[0].status, QueueJobStatus::Paused);
    // A cancellation pauses the queue; it starts again once unpaused.
    assert!(q.start_next_job().is_none());
    q.set_paused(false);
    let next = q.start_next_job().unwrap();
    assert_eq!(next.id, "job_2");
    assert_eq!(q.get_state().running[0].status, QueueJobStatus::Running);
}

#[test]
fn snapshot_stays_consistent() {
    let mut q = DownloadQueueHandle::new(2);
    for name in ["a", "b", "c", "d"] {
        q.enqueue(QueueJobKind::GameDownload, game(name));
    }
    assert!(q.start_next_job().is_some());
    assert!(q.start_next_job().is_some());
    assert!(q.start_next_job().is_none());
    q.job_finished("job_1".to_string(), QueueJobOutcome::Cancelled);
    q.job_finished("job_2".to_string(), QueueJobOutcome::Failed);
    let s = q.get_state();
    assert_eq!(s.max_concurrent, 2);
    assert!(s.running.len() <= s.max_concurrent);
    assert!(s.completed.iter().all(|v| v.status == QueueJobStatus::Completed || v.status == QueueJobStatus::Failed));
    let mut ids: Vec<String> = s.queued.iter().chain(s.running.iter()).chain(s.paused_jobs.iter()).map(|v| v.id.clone()).collect();
    assert_eq!(ids, vec!["job_3", "job_4", "job_1"]);
    ids.sort();
    ids.dedup();
    assert_eq!(ids.len(), 3);
    assert!(q.resume_job("a".to_string()));
    q.set_paused(false);
    assert!(q.start_next_job().is_some());
    assert!(q.start_next_job().is_some());
    assert!(q.start_next_job().is_none());
    let s = q.get_state();
    assert_eq!(s.running.len(), 2);
    let running: Vec<String> = s.running.iter().map(|v| v.id.clone()).collect();
    assert_eq!(running, vec!["job_1", "job_3"]);
}

use sidecar_supervisor::update::{
    CheckOutcome, InstallOutcome, UpdateEvent, UpdatePhase, UpdateSession,
};

fn session_with_update(version: &str) -> UpdateSession {
    let mut s = UpdateSession::new();
    s.start_check();
    let r = s.finish_check(CheckOutcome::UpdateAvailable(version.to_string()));
    assert!(r.is_ok());
    s
}

#[test]
fn check_reports_no_update() {
    let mut s = UpdateSession::new();
    s.start_check();
    let r = s.finish_check(CheckOutcome::UpToDate);
    assert_eq!(r, Ok("No updates available".to_string()));
    assert!(matches!(s.phase, UpdatePhase::NoUpdateFound));
    assert_eq!(s.version, None);
}

#[test]
fn check_reports_available_version() {
    let mut s = UpdateSession::new();
    s.start_check();
    let r = s.finish_check(CheckOutcome::UpdateAvailable("2.0.0".to_string()));
    assert_eq!(r, Ok("Update available: v2.0.0".to_string()));
    assert!(matches!(s.phase, UpdatePhase::UpdateAvailable));
    assert_eq!(s.version.as_deref(), Some("2.0.0"));
}

#[test]
fn check_failure_is_an_error_result() {
    let mut s = UpdateSession::new();
    s.start_check();
    let r = s.finish_check(CheckOutcome::CheckFailed("connection refused".to_string()));
    assert_eq!(
        r,
        Err("Failed to check for updates: connection refused".to_string())
    );
    assert!(matches!(s.phase, UpdatePhase::Failed));
}

#[test]
fn missing_updater_is_an_error_result() {
    let mut s = UpdateSession::new();
    s.start_check();
    let r = s.finish_check(CheckOutcome::UpdaterUnavailable("not configured".to_string()));
    assert_eq!(r, Err("Failed to get updater: not configured".to_string()));
    assert!(matches!(s.phase, UpdatePhase::Failed));
}

#[test]
fn install_without_update_errors_and_emits_nothing() {
    let mut s = UpdateSession::new();
    let r = s.request_install();
    assert_eq!(r, Err("No updates available".to_string()));
    assert!(matches!(s.phase, UpdatePhase::Idle));

    let ev = s.on_chunk(512, Some(1024));
    assert!(ev.is_none());
    assert_eq!(s.received_bytes, 0);
    assert_eq!(s.progress_percent, 0);
}

#[test]
fn install_after_no_update_found_errors() {
    let mut s = UpdateSession::new();
    s.start_check();
    let _ = s.finish_check(CheckOutcome::UpToDate);
    let r = s.request_install();
    assert_eq!(r, Err("No updates available".to_string()));
    assert!(s.on_chunk(100, Some(100)).is_none());
}

#[test]
fn full_download_emits_monotone_progress_then_one_completion() {
    let mut s = session_with_update("2.0.0");
    assert_eq!(s.request_install(), Ok(()));
    assert!(matches!(s.phase, UpdatePhase::Downloading));

    let chunks: [u64; 4] = [100, 150, 250, 500];
    let total: u64 = 1000;
    let mut percents: Vec<u8> = Vec::new();
    for c in chunks {
        match s.on_chunk(c, Some(total)) {
            Some(UpdateEvent::Progress(p)) => percents.push(p),
            _ => panic!("a known total must yield a progress event"),
        }
    }
    assert_eq!(percents, vec![10, 25, 50, 100]);
    let mut last: u8 = 0;
    for p in &percents {
        assert!(*p >= last && *p <= 100);
        last = *p;
    }

    let done = s.finish_download();
    assert!(matches!(done, UpdateEvent::DownloadComplete));
    assert!(matches!(s.phase, UpdatePhase::Downloaded));

    let r = s.finish_install(InstallOutcome::Installed);
    assert_eq!(
        r,
        Ok("Update installed successfully. Please restart the application.".to_string())
    );
    assert!(matches!(s.phase, UpdatePhase::Installed));
}

#[test]
fn progress_percent_rounds_down() {
    let mut s = session_with_update("1.1.0");
    let _ = s.request_install();
    let ev = s.on_chunk(333, Some(1000));
    assert!(matches!(ev, Some(UpdateEvent::Progress(33))));
}

#[test]
fn unknown_total_emits_no_progress() {
    let mut s = session_with_update("1.2.3");
    let _ = s.request_install();
    assert!(s.on_chunk(100, None).is_none());
    assert!(s.on_chunk(200, None).is_none());
    assert_eq!(s.progress_percent, 0);
    assert_eq!(s.received_bytes, 300);
    assert!(matches!(s.finish_download(), UpdateEvent::DownloadComplete));
}

#[test]
fn zero_advertised_total_is_complete() {
    let mut s = session_with_update("3.0.0");
    let _ = s.request_install();
    assert!(matches!(s.on_chunk(0, Some(0)), Some(UpdateEvent::Progress(100))));
}

#[test]
fn overrun_clamps_at_one_hundred() {
    let mut s = session_with_update("3.0.0");
    let _ = s.request_install();
    assert!(matches!(s.on_chunk(2000, Some(1000)), Some(UpdateEvent::Progress(100))));
}

#[test]
fn received_bytes_saturate() {
    let mut s = session_with_update("3.0.0");
    let _ = s.request_install();
    assert!(matches!(s.on_chunk(u64::MAX, Some(u64::MAX)), Some(UpdateEvent::Progress(100))));
    assert!(matches!(s.on_chunk(u64::MAX, Some(u64::MAX)), Some(UpdateEvent::Progress(100))));
    assert_eq!(s.received_bytes, u64::MAX);
}

#[test]
fn adopted_total_sticks() {
    let mut s = session_with_update("1.0.1");
    let _ = s.request_install();
    assert!(matches!(s.on_chunk(100, Some(400)), Some(UpdateEvent::Progress(25))));
    // A differing total reported later does not displace the first one.
    assert!(matches!(s.on_chunk(100, Some(800)), Some(UpdateEvent::Progress(50))));
    assert_eq!(s.total_bytes, Some(400));
}

#[test]
fn install_failure_is_an_error_result() {
    let mut s = session_with_update("2.0.0");
    let _ = s.request_install();
    let _ = s.on_chunk(500, Some(1000));
    let r = s.finish_install(InstallOutcome::Failed("disk full".to_string()));
    assert_eq!(r, Err("Failed to install update: disk full".to_string()));
    assert!(matches!(s.phase, UpdatePhase::Failed));
    // Nothing of the broken attempt stays callable without a fresh check.
    assert_eq!(s.request_install(), Err("No updates available".to_string()));
}

#[test]
fn fresh_session_starts_idle_and_empty() {
    let s = UpdateSession::new();
    assert!(matches!(s.phase, UpdatePhase::Idle));
    assert_eq!(s.version, None);
    assert_eq!(s.total_bytes, None);
    assert_eq!(s.received_bytes, 0);
    assert_eq!(s.progress_percent, 0);
}

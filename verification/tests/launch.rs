use sidecar_supervisor::launch::{launch_plan, startup_status, LaunchMode, StartupStatus};

#[test]
fn development_mode_invokes_the_interpreter() {
    let p = launch_plan(&LaunchMode::Development);
    assert!(!p.bundled);
    assert_eq!(p.program, "python");
    assert_eq!(p.args, vec!["-m", "python_sidecar"]);
}

#[test]
fn production_mode_starts_the_bundled_binary() {
    let p = launch_plan(&LaunchMode::Production);
    assert!(p.bundled);
    assert_eq!(p.program, "retention-sidecar");
    assert!(p.args.is_empty());
}

#[test]
fn spawn_failure_is_fatal() {
    assert!(matches!(startup_status(false), StartupStatus::Fatal));
}

#[test]
fn spawn_success_is_running() {
    assert!(matches!(startup_status(true), StartupStatus::Running));
}

//! Choosing how the sidecar is started, and what a failed start means.
//!
//! The build configuration fixes one of two strategies before startup: a
//! development build invokes the backend's interpreter directly with a fixed
//! module-entry argument, a production build starts a bundled executable
//! resolved by a fixed logical name. The caller performs the actual spawn and
//! reports back whether it succeeded; a failure is fatal, and the application
//! must not present itself as usable.

use vstd::prelude::*;

verus! {

/// The build-time launch strategy. Resolved once at startup from the build
/// configuration, never from user input.
pub enum LaunchMode {
    Development,
    Production,
}

/// The command that starts the sidecar: a program plus its arguments. For a
/// bundled program the name is logical — the caller resolves it next to the
/// application binary rather than on the execution path.
pub struct LaunchPlan {
    /// Whether `program` names a bundled executable rather than a program on
    /// the execution path.
    pub bundled: bool,
    pub program: &'static str,
    pub args: Vec<&'static str>,
}

/// The one subprocess command each mode launches: in development the
/// backend's interpreter with its module entry, in production the bundled
/// sidecar binary.
pub fn launch_plan(mode: &LaunchMode) -> (p: LaunchPlan)
    ensures
        p.bundled == (mode is Production),
        mode is Development ==> p.program@ == "python"@ && p.args@.len() == 2
            && p.args@[0]@ == "-m"@ && p.args@[1]@ == "python_sidecar"@,
        mode is Production ==> p.program@ == "retention-sidecar"@ && p.args@.len() == 0,
{
    match mode {
        LaunchMode::Development => LaunchPlan {
            bundled: false,
            program: "python",
            args: vec!["-m", "python_sidecar"],
        },
        LaunchMode::Production => LaunchPlan { bundled: true, program: "retention-sidecar", args: Vec::new() },
    }
}

/// How the supervisor stands after the one spawn attempt.
pub enum StartupStatus {
    /// The subprocess is live; the handshake reader may now consume its
    /// output.
    Running,
    /// The subprocess could not be created (binary missing, interpreter
    /// unavailable, permission denied). Fatal: the application must surface
    /// the error and stop rather than continue with no backend.
    Fatal,
}

/// Classify the spawn attempt: success is the only way to a running backend;
/// any failure to create the subprocess is a fatal startup error.
pub fn startup_status(spawn_succeeded: bool) -> (s: StartupStatus)
    ensures
        (s is Running) == spawn_succeeded,
        (s is Fatal) == !spawn_succeeded,
{
    if spawn_succeeded {
        StartupStatus::Running
    } else {
        StartupStatus::Fatal
    }
}

} // verus!

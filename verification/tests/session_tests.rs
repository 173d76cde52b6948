use morpheus_updater::config::Platform;
use morpheus_updater::session::{versions_match, Effect, Event, Phase, RemoteReply, Session};

fn feed(s: &mut Session, events: Vec<Event>) -> (Vec<String>, Vec<Effect>) {
    let mut logs = Vec::new();
    let mut effects = Vec::new();
    for e in events {
        let step = s.advance(e);
        logs.extend(step.logs);
        effects.push(step.effect);
    }
    (logs, effects)
}

#[test]
fn up_to_date_installation_starts_the_launcher() {
    let mut s = Session::new(Platform::Unix);
    let (logs, effects) = feed(
        &mut s,
        vec![
            Event::Begin,
            Event::LocalFiles(true, true),
            Event::LocalVersion(Some("1.4.2\n".to_string())),
            Event::Remote(RemoteReply::Body(" 1.4.2".to_string())),
            Event::LauncherSpawned,
        ],
    );
    assert_eq!(
        effects,
        vec![
            Effect::ProbeLocalInstallation,
            Effect::ReadLocalVersion,
            Effect::CheckRemoteVersion,
            Effect::SpawnLauncher,
            Effect::ExitAfterDelay,
        ]
    );
    assert_eq!(
        logs,
        vec![
            "Local installation found",
            "Checking for updates...",
            "Version is up to date!",
            "Starting Morpheus Launcher...",
            "Launcher started! Closing installer...",
        ]
    );
    assert!(matches!(s.phase, Phase::Exited));
}

#[test]
fn new_version_updates_then_starts_on_unix() {
    let mut s = Session::new(Platform::Unix);
    let (logs, effects) = feed(
        &mut s,
        vec![
            Event::Begin,
            Event::LocalFiles(true, true),
            Event::LocalVersion(Some("1.4.1".to_string())),
            Event::Remote(RemoteReply::Body("1.4.2".to_string())),
            Event::DownloadsFinished,
            Event::Remote(RemoteReply::Body("1.4.2".to_string())),
            Event::VersionSaved,
            Event::LauncherPresent(true),
            Event::DependenciesChecked,
            Event::LauncherMadeExecutable,
            Event::LauncherSpawned,
        ],
    );
    assert_eq!(
        effects,
        vec![
            Effect::ProbeLocalInstallation,
            Effect::ReadLocalVersion,
            Effect::CheckRemoteVersion,
            Effect::DownloadAll,
            Effect::FetchVersionFile,
            Effect::SaveVersion("1.4.2".to_string()),
            Effect::ProbeLauncher,
            Effect::InstallDependencies,
            Effect::MakeLauncherExecutable,
            Effect::SpawnLauncher,
            Effect::ExitAfterDelay,
        ]
    );
    assert_eq!(
        logs,
        vec![
            "Local installation found",
            "Checking for updates...",
            "New version available, updating...",
            "Downloading version.txt...",
            "version.txt updated",
            "Starting Morpheus Launcher...",
            "Launcher started! Closing installer...",
        ]
    );
}

#[test]
fn first_installation_on_windows() {
    let mut s = Session::new(Platform::Windows);
    let (logs, effects) = feed(
        &mut s,
        vec![
            Event::Begin,
            Event::LocalFiles(false, false),
            Event::DownloadsFinished,
            Event::Remote(RemoteReply::ServerError("404 Not Found".to_string())),
            Event::LauncherPresent(true),
        ],
    );
    assert_eq!(
        effects,
        vec![
            Effect::ProbeLocalInstallation,
            Effect::DownloadAll,
            Effect::FetchVersionFile,
            Effect::ProbeLauncher,
            Effect::SpawnLauncher,
        ]
    );
    assert_eq!(
        logs,
        vec![
            "First installation",
            "Downloading version.txt...",
            "Warning: server error 404 Not Found while saving version.txt",
            "Starting Morpheus Launcher...",
        ]
    );
}

#[test]
fn unreadable_local_version_requires_update() {
    let mut s = Session::new(Platform::Unix);
    let (logs, effects) = feed(
        &mut s,
        vec![
            Event::Begin,
            Event::LocalFiles(true, true),
            Event::LocalVersion(None),
            Event::Remote(RemoteReply::Body("2".to_string())),
        ],
    );
    assert_eq!(effects.last(), Some(&Effect::DownloadAll));
    assert_eq!(logs.last().unwrap(), "Update required...");
}

#[test]
fn offline_launches_local_version() {
    let mut s = Session::new(Platform::Unix);
    let (logs, effects) = feed(
        &mut s,
        vec![
            Event::Begin,
            Event::LocalFiles(true, true),
            Event::LocalVersion(Some("1".to_string())),
            Event::Remote(RemoteReply::Unreachable("dns error".to_string())),
        ],
    );
    assert_eq!(effects.last(), Some(&Effect::SpawnLauncher));
    assert_eq!(
        &logs[2..],
        &[
            "Cannot verify updates (offline?)",
            "Launching local version...",
            "Starting Morpheus Launcher...",
        ]
    );
}

#[test]
fn server_error_launches_local_version() {
    let mut s = Session::new(Platform::Windows);
    let (logs, effects) = feed(
        &mut s,
        vec![
            Event::Begin,
            Event::LocalFiles(true, true),
            Event::LocalVersion(Some("1".to_string())),
            Event::Remote(RemoteReply::ServerError("500 Internal Server Error".to_string())),
        ],
    );
    assert_eq!(effects.last(), Some(&Effect::SpawnLauncher));
    assert_eq!(
        &logs[2..],
        &["Server error, launching local version...", "Starting Morpheus Launcher..."]
    );
}

#[test]
fn missing_launcher_after_install_ends_the_run() {
    let mut s = Session::new(Platform::Unix);
    let (logs, effects) = feed(
        &mut s,
        vec![
            Event::Begin,
            Event::LocalFiles(true, false),
            Event::DownloadsFinished,
            Event::Remote(RemoteReply::Unreachable("timed out".to_string())),
            Event::LauncherPresent(false),
            Event::Begin,
        ],
    );
    assert_eq!(
        &effects[3..],
        &[Effect::ProbeLauncher, Effect::Finish, Effect::Idle]
    );
    assert_eq!(
        &logs[2..],
        &[
            "Warning: cannot save version.txt: timed out",
            "morpheus_launcher_gui not found!",
        ]
    );
}

#[test]
fn failure_aborts_and_is_final() {
    let mut s = Session::new(Platform::Unix);
    let (_, effects) = feed(
        &mut s,
        vec![
            Event::Begin,
            Event::LocalFiles(true, true),
            Event::LocalVersion(None),
            Event::Failed("builder error".to_string()),
            Event::Remote(RemoteReply::Body("1".to_string())),
            Event::Failed("again".to_string()),
        ],
    );
    assert_eq!(
        &effects[3..],
        &[Effect::Abort("builder error".to_string()), Effect::Idle, Effect::Idle]
    );
    assert!(matches!(s.phase, Phase::Aborted));
}

#[test]
fn unexpected_event_changes_nothing() {
    let mut s = Session::new(Platform::Unix);
    let step = s.advance(Event::VersionSaved);
    assert_eq!(step.effect, Effect::Idle);
    assert!(step.logs.is_empty());
    assert!(matches!(s.phase, Phase::Ready));
}

#[test]
fn version_comparison_trims() {
    assert!(versions_match("1.0\n", "1.0"));
    assert!(versions_match("\t1.0 ", "\r\n1.0\r\n"));
    assert!(!versions_match("1.0", "1.0.1"));
    assert!(versions_match("", "  "));
}

#[test]
fn launcher_is_not_started_without_being_found() {
    let mut s = Session::new(Platform::Windows);
    let (_, effects) = feed(
        &mut s,
        vec![
            Event::Begin,
            Event::Remote(RemoteReply::Unreachable("x".to_string())),
            Event::LauncherMadeExecutable,
            Event::LocalFiles(true, false),
            Event::LauncherPresent(true),
            Event::DownloadsFinished,
            Event::Remote(RemoteReply::ServerError("500".to_string())),
            Event::LauncherPresent(false),
        ],
    );
    assert!(!effects.contains(&Effect::SpawnLauncher));
    assert_eq!(effects.last(), Some(&Effect::Finish));
}

#[test]
fn version_is_saved_only_after_downloading() {
    let mut s = Session::new(Platform::Unix);
    let (_, effects) = feed(
        &mut s,
        vec![
            Event::Begin,
            Event::LocalFiles(true, true),
            Event::LocalVersion(Some("1".to_string())),
            Event::Remote(RemoteReply::Body("1".to_string())),
            Event::Remote(RemoteReply::Body("2".to_string())),
        ],
    );
    assert!(!effects.iter().any(|e| matches!(e, Effect::SaveVersion(_))));
}

#[test]
fn unreadable_answer_launches_local_version() {
    let mut s = Session::new(Platform::Unix);
    let (logs, effects) = feed(
        &mut s,
        vec![
            Event::Begin,
            Event::LocalFiles(true, true),
            Event::LocalVersion(Some("1".to_string())),
            Event::Remote(RemoteReply::Unreadable("body timed out".to_string())),
        ],
    );
    assert_eq!(effects.last(), Some(&Effect::SpawnLauncher));
    assert!(!effects.contains(&Effect::DownloadAll));
    assert_eq!(
        &logs[2..],
        &[
            "Cannot verify updates (offline?)",
            "Launching local version...",
            "Starting Morpheus Launcher...",
        ]
    );
}

#[test]
fn unreadable_version_file_aborts() {
    let mut s = Session::new(Platform::Windows);
    let (logs, effects) = feed(
        &mut s,
        vec![
            Event::Begin,
            Event::LocalFiles(false, false),
            Event::DownloadsFinished,
            Event::Remote(RemoteReply::Unreadable("reset".to_string())),
            Event::LauncherPresent(true),
        ],
    );
    assert_eq!(
        &effects[3..],
        &[Effect::Abort("reset".to_string()), Effect::Idle]
    );
    assert_eq!(logs.last().unwrap(), "Downloading version.txt...");
}

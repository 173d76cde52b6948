use vstd::prelude::*;

use crate::config::{launcher_exe, launcher_exe_text, Platform};
use crate::text::{chars_of, same_chars, trim_bounds, trimmed, views};

verus! {

/// What came back from a request for the version file.
#[derive(Debug)]
pub enum RemoteReply {
    /// A success status, and the body that was read.
    Body(String),
    /// Any other status, as it is displayed.
    ServerError(String),
    /// The request could not be made, and why.
    Unreachable(String),
    /// A success status came, but its body could not be read, and why.
    Unreadable(String),
}

/// What the outside world reports back to the session.
#[derive(Debug)]
pub enum Event {
    /// The installer starts.
    Begin,
    /// Whether the launcher exists, and whether the local version file exists.
    LocalFiles(bool, bool),
    /// The local version file's contents, if it could be read.
    LocalVersion(Option<String>),
    /// The answer of the server to a version request.
    Remote(RemoteReply),
    /// The launcher process was started.
    LauncherSpawned,
    /// All package downloads ran (each reports its own outcome in the log).
    DownloadsFinished,
    /// The fetched version was written to the local version file.
    VersionSaved,
    /// Whether the launcher exists after the installation.
    LauncherPresent(bool),
    /// The system dependencies were checked (and installed where needed).
    DependenciesChecked,
    /// The launcher's executable permission was set (or setting it was given up).
    LauncherMadeExecutable,
    /// The outside step failed, with the error's text.
    Failed(String),
}

/// What the session asks the outside world to do next.
#[derive(Debug, PartialEq, Eq)]
pub enum Effect {
    /// Check whether the launcher exists, and whether the local version file exists.
    ProbeLocalInstallation,
    /// Read the local version file.
    ReadLocalVersion,
    /// Ask the server for the latest version, waiting at most `UPDATE_CHECK_TIMEOUT_SECS`.
    CheckRemoteVersion,
    /// Start the launcher in the installation directory.
    SpawnLauncher,
    /// Wait `EXIT_DELAY_SECS` seconds, then end the process with status 0.
    ExitAfterDelay,
    /// Download (and unpack) every package file.
    DownloadAll,
    /// Ask the server for the latest version, to store it.
    FetchVersionFile,
    /// Write this text to the local version file.
    SaveVersion(String),
    /// Check whether the launcher exists.
    ProbeLauncher,
    /// Check the system dependencies and install the missing ones.
    InstallDependencies,
    /// Give the launcher executable permission.
    MakeLauncherExecutable,
    /// The session ended normally.
    Finish,
    /// The session ended with this error.
    Abort(String),
    /// Nothing to do.
    Idle,
}

/// Where the session stands.
#[derive(Debug)]
pub enum Phase {
    Ready,
    Probing,
    ReadingLocal,
    CheckingRemote(Option<String>),
    Launching,
    Downloading,
    FetchingVersion,
    SavingVersion,
    ProbingLauncher,
    CheckingDependencies,
    MarkingExecutable,
    Exited,
    Finished,
    Aborted,
}

/// The outcome of one event: lines for the log, then one effect.
pub struct Step {
    pub logs: Vec<String>,
    pub effect: Effect,
}

/// The decisions of one run of the updater: check the local installation, compare versions,
/// update or install, and start the launcher.
pub struct Session {
    pub platform: Platform,
    pub phase: Phase,
}

pub open spec fn start_line() -> Seq<char> {
    "Starting Morpheus Launcher..."@
}

/// A phase after which nothing more happens.
pub open spec fn is_terminal(p: Phase) -> bool {
    p is Exited || p is Finished || p is Aborted
}

/// The next phase, the lines logged and the effect asked for, when `event` comes in `phase`.
#[verifier::opaque]
pub open spec fn transition(platform: Platform, phase: Phase, event: Event) -> (Phase, Seq<
    Seq<char>,
>, Effect) {
    match (phase, event) {
        (Phase::Ready, Event::Begin) => (Phase::Probing, seq![], Effect::ProbeLocalInstallation),
        (Phase::Probing, Event::LocalFiles(launcher, version_file)) => if launcher && version_file {
            (Phase::ReadingLocal, seq!["Local installation found"@], Effect::ReadLocalVersion)
        } else {
            (Phase::Downloading, seq!["First installation"@], Effect::DownloadAll)
        },
        (Phase::ReadingLocal, Event::LocalVersion(v)) => (
            Phase::CheckingRemote(v),
            seq!["Checking for updates..."@],
            Effect::CheckRemoteVersion,
        ),
        (Phase::CheckingRemote(local), Event::Remote(RemoteReply::Body(remote))) => match local {
            Some(l) => if trimmed(l@) == trimmed(remote@) {
                (
                    Phase::Launching,
                    seq!["Version is up to date!"@, start_line()],
                    Effect::SpawnLauncher,
                )
            } else {
                (
                    Phase::Downloading,
                    seq!["New version available, updating..."@],
                    Effect::DownloadAll,
                )
            },
            None => (Phase::Downloading, seq!["Update required..."@], Effect::DownloadAll),
        },
        (Phase::CheckingRemote(_), Event::Remote(RemoteReply::ServerError(_))) => (
            Phase::Launching,
            seq!["Server error, launching local version..."@, start_line()],
            Effect::SpawnLauncher,
        ),
        (Phase::CheckingRemote(_), Event::Remote(RemoteReply::Unreachable(_))) => (
            Phase::Launching,
            seq!["Cannot verify updates (offline?)"@, "Launching local version..."@, start_line()],
            Effect::SpawnLauncher,
        ),
        (Phase::CheckingRemote(_), Event::Remote(RemoteReply::Unreadable(_))) => (
            Phase::Launching,
            seq!["Cannot verify updates (offline?)"@, "Launching local version..."@, start_line()],
            Effect::SpawnLauncher,
        ),
        (Phase::Launching, Event::LauncherSpawned) => (
            Phase::Exited,
            seq!["Launcher started! Closing installer..."@],
            Effect::ExitAfterDelay,
        ),
        (Phase::Downloading, Event::DownloadsFinished) => (
            Phase::FetchingVersion,
            seq!["Downloading version.txt..."@],
            Effect::FetchVersionFile,
        ),
        (Phase::FetchingVersion, Event::Remote(RemoteReply::Body(text))) => (
            Phase::SavingVersion,
            seq![],
            Effect::SaveVersion(text),
        ),
        (Phase::FetchingVersion, Event::Remote(RemoteReply::ServerError(status))) => (
            Phase::ProbingLauncher,
            seq!["Warning: server error "@ + status@ + " while saving version.txt"@],
            Effect::ProbeLauncher,
        ),
        (Phase::FetchingVersion, Event::Remote(RemoteReply::Unreachable(err))) => (
            Phase::ProbingLauncher,
            seq!["Warning: cannot save version.txt: "@ + err@],
            Effect::ProbeLauncher,
        ),
        (Phase::FetchingVersion, Event::Remote(RemoteReply::Unreadable(err))) => (
            Phase::Aborted,
            seq![],
            Effect::Abort(err),
        ),
        (Phase::SavingVersion, Event::VersionSaved) => (
            Phase::ProbingLauncher,
            seq!["version.txt updated"@],
            Effect::ProbeLauncher,
        ),
        (Phase::ProbingLauncher, Event::LauncherPresent(true)) => match platform {
            Platform::Unix => (Phase::CheckingDependencies, seq![], Effect::InstallDependencies),
            Platform::Windows => (Phase::Launching, seq![start_line()], Effect::SpawnLauncher),
        },
        (Phase::ProbingLauncher, Event::LauncherPresent(false)) => (
            Phase::Finished,
            seq![launcher_exe_text(platform) + " not found!"@],
            Effect::Finish,
        ),
        (Phase::CheckingDependencies, Event::DependenciesChecked) => (
            Phase::MarkingExecutable,
            seq![],
            Effect::MakeLauncherExecutable,
        ),
        (Phase::MarkingExecutable, Event::LauncherMadeExecutable) => (
            Phase::Launching,
            seq![start_line()],
            Effect::SpawnLauncher,
        ),
        (p, Event::Failed(e)) => if is_terminal(p) {
            (p, seq![], Effect::Idle)
        } else {
            (Phase::Aborted, seq![], Effect::Abort(e))
        },
        (p, _) => (p, seq![], Effect::Idle),
    }
}


/// The phase, the whole log and the effects, in order, after `events` come in one by one.
pub open spec fn run(platform: Platform, phase: Phase, events: Seq<Event>) -> (Phase, Seq<
    Seq<char>,
>, Seq<Effect>)
    decreases events.len(),
{
    if events.len() == 0 {
        (phase, seq![], seq![])
    } else {
        let (q, logs, effects) = run(platform, phase, events.drop_last());
        let (q2, more, e) = transition(platform, q, events.last());
        (q2, logs + more, effects.push(e))
    }
}

/// The event at `j` reports the launcher (with the local version file) as present.
pub open spec fn reports_launcher(events: Seq<Event>, j: int) -> bool {
    events[j] == Event::LocalFiles(true, true) || events[j] == Event::LauncherPresent(true)
}

/// A phase that the session only reaches once the launcher was reported present.
pub open spec fn after_found(p: Phase) -> bool {
    p is ReadingLocal || p is CheckingRemote || p is Launching || p is CheckingDependencies
        || p is MarkingExecutable
}

/// A phase that the session only reaches once it asked for the downloads.
pub open spec fn after_download(p: Phase) -> bool {
    p is Downloading || p is FetchingVersion || p is SavingVersion
}

proof fn lemma_run_len(platform: Platform, phase: Phase, events: Seq<Event>)
    ensures
        run(platform, phase, events).2.len() == events.len(),
    decreases events.len(),
{
    if events.len() > 0 {
        lemma_run_len(platform, phase, events.drop_last());
    }
}

proof fn lemma_run_prefix(platform: Platform, phase: Phase, events: Seq<Event>, i: int)
    requires
        0 <= i < events.len(),
    ensures
        run(platform, phase, events).2.len() == events.len(),
        run(platform, phase, events).2[i] == transition(
            platform,
            run(platform, phase, events.take(i)).0,
            events[i],
        ).2,
        run(platform, phase, events.take(i + 1)).0 == transition(
            platform,
            run(platform, phase, events.take(i)).0,
            events[i],
        ).0,
    decreases events.len(),
{
    lemma_run_len(platform, phase, events);
    let d = events.drop_last();
    assert(events.take(i + 1).drop_last() =~= events.take(i));
    assert(events.take(i + 1).last() == events[i]);
    if i == events.len() - 1 {
        assert(events.take(i) =~= d);
        if d.len() > 0 {
            lemma_run_prefix(platform, phase, d, d.len() - 1);
        }
    } else {
        lemma_run_prefix(platform, phase, d, i);
        assert(d.take(i) =~= events.take(i));
        assert(d[i] == events[i]);
    }
}

proof fn lemma_found_invariant(platform: Platform, events: Seq<Event>)
    ensures
        after_found(run(platform, Phase::Ready, events).0) ==> exists|j: int|
            0 <= j < events.len() && #[trigger] reports_launcher(events, j),
    decreases events.len(),
{
    reveal(transition);
    if events.len() > 0 {
        let d = events.drop_last();
        lemma_found_invariant(platform, d);
        let q = run(platform, Phase::Ready, d).0;
        if after_found(run(platform, Phase::Ready, events).0) {
            if after_found(q) {
                let j: int = choose|j: int| 0 <= j < d.len() && #[trigger] reports_launcher(d, j);
                assert(reports_launcher(events, j));
            } else {
                assert(reports_launcher(events, events.len() - 1));
            }
        }
    }
}

proof fn lemma_download_invariant(platform: Platform, events: Seq<Event>)
    ensures
        after_download(run(platform, Phase::Ready, events).0) ==> exists|j: int|
            0 <= j < events.len() && #[trigger] run(platform, Phase::Ready, events).2[j]
                == Effect::DownloadAll,
    decreases events.len(),
{
    reveal(transition);
    if events.len() > 0 {
        let d = events.drop_last();
        lemma_download_invariant(platform, d);
        lemma_run_len(platform, Phase::Ready, d);
        let r = run(platform, Phase::Ready, d);
        let effects = run(platform, Phase::Ready, events).2;
        assert(effects == r.2.push(transition(platform, r.0, events.last()).2));
        if after_download(run(platform, Phase::Ready, events).0) {
            if after_download(r.0) {
                let j: int = choose|j: int| 0 <= j < d.len() && #[trigger] r.2[j] == Effect::DownloadAll;
                assert(effects[j] == Effect::DownloadAll);
            } else {
                assert(effects[events.len() - 1] == Effect::DownloadAll);
            }
        }
    }
}

proof fn lemma_terminal_stays(platform: Platform, events: Seq<Event>, i: int, k: int)
    requires
        0 <= i < k <= events.len(),
        is_terminal(run(platform, Phase::Ready, events.take(i + 1)).0),
    ensures
        is_terminal(run(platform, Phase::Ready, events.take(k)).0),
    decreases k - i,
{
    reveal(transition);
    if k > i + 1 {
        lemma_terminal_stays(platform, events, i, k - 1);
        lemma_run_prefix(platform, Phase::Ready, events, k - 1);
    }
}

/// The launcher is started only after it was found: every request to start it follows, or
/// answers, a report that the launcher (with its version file) is installed.
pub proof fn lemma_launch_only_when_found(platform: Platform, events: Seq<Event>, i: int)
    requires
        0 <= i < events.len(),
        run(platform, Phase::Ready, events).2[i] == Effect::SpawnLauncher,
    ensures
        exists|j: int| 0 <= j <= i && #[trigger] reports_launcher(events, j),
{
    reveal(transition);
    lemma_run_prefix(platform, Phase::Ready, events, i);
    let pre = events.take(i);
    lemma_found_invariant(platform, pre);
    let q = run(platform, Phase::Ready, pre).0;
    if after_found(q) {
        let j: int = choose|j: int| 0 <= j < pre.len() && #[trigger] reports_launcher(pre, j);
        assert(reports_launcher(events, j));
    } else {
        assert(reports_launcher(events, i));
    }
}

/// The version file is written only after the package downloads were asked for.
pub proof fn lemma_version_saved_after_download(platform: Platform, events: Seq<Event>, i: int)
    requires
        0 <= i < events.len(),
        run(platform, Phase::Ready, events).2[i] is SaveVersion,
    ensures
        exists|j: int|
            0 <= j < i && #[trigger] run(platform, Phase::Ready, events).2[j] == Effect::DownloadAll,
{
    reveal(transition);
    lemma_run_prefix(platform, Phase::Ready, events, i);
    let pre = events.take(i);
    lemma_download_invariant(platform, pre);
    let j: int = choose|j: int|
        0 <= j < pre.len() && #[trigger] run(platform, Phase::Ready, pre).2[j] == Effect::DownloadAll;
    lemma_run_prefix(platform, Phase::Ready, events, j);
    lemma_run_prefix(platform, Phase::Ready, pre, j);
    assert(pre.take(j) =~= events.take(j));
    assert(pre[j] == events[j]);
}

/// Once the updater exits, finishes or fails, it does nothing more.
pub proof fn lemma_end_is_final(platform: Platform, events: Seq<Event>, i: int, k: int)
    requires
        0 <= i < k < events.len(),
        run(platform, Phase::Ready, events).2[i] matches (Effect::ExitAfterDelay | Effect::Finish
            | Effect::Abort(_)),
    ensures
        run(platform, Phase::Ready, events).2[k] == Effect::Idle,
        run(platform, Phase::Ready, events).1.len() == run(
            platform,
            Phase::Ready,
            events.take(i + 1),
        ).1.len(),
{
    lemma_run_prefix(platform, Phase::Ready, events, i);
    lemma_ending_effect_terminal(platform, run(platform, Phase::Ready, events.take(i)).0, events[i]);
    lemma_terminal_stays(platform, events, i, k);
    lemma_run_prefix(platform, Phase::Ready, events, k);
    lemma_idle_after_terminal(platform, run(platform, Phase::Ready, events.take(k)).0, events[k]);
    lemma_logs_stay(platform, events, i, events.len() as int);
    assert(events.take(events.len() as int) =~= events);
}

proof fn lemma_ending_effect_terminal(platform: Platform, phase: Phase, event: Event)
    requires
        transition(platform, phase, event).2 matches (Effect::ExitAfterDelay | Effect::Finish
            | Effect::Abort(_)),
    ensures
        is_terminal(transition(platform, phase, event).0),
{
    reveal(transition);
}

proof fn lemma_idle_after_terminal(platform: Platform, phase: Phase, event: Event)
    requires
        is_terminal(phase),
    ensures
        transition(platform, phase, event) == (phase, Seq::<Seq<char>>::empty(), Effect::Idle),
{
    reveal(transition);
    assert(transition(platform, phase, event).1 =~= Seq::<Seq<char>>::empty());
}

proof fn lemma_logs_stay(platform: Platform, events: Seq<Event>, i: int, k: int)
    requires
        0 <= i < k <= events.len(),
        is_terminal(run(platform, Phase::Ready, events.take(i + 1)).0),
    ensures
        run(platform, Phase::Ready, events.take(k)).1 == run(
            platform,
            Phase::Ready,
            events.take(i + 1),
        ).1,
    decreases k - i,
{
    reveal(transition);
    if k > i + 1 {
        lemma_logs_stay(platform, events, i, k - 1);
        lemma_terminal_stays(platform, events, i, k - 1);
        let t = events.take(k);
        assert(t.drop_last() =~= events.take(k - 1));
        assert(run(platform, Phase::Ready, t).1 =~= run(platform, Phase::Ready, t.drop_last()).1);
    }
}

/// The events of a run with a local installation, up to the server's answer.
pub open spec fn check_events(local: Option<String>, reply: RemoteReply) -> Seq<Event> {
    seq![
        Event::Begin,
        Event::LocalFiles(true, true),
        Event::LocalVersion(local),
        Event::Remote(reply),
    ]
}

proof fn lemma_run_push(platform: Platform, phase: Phase, events: Seq<Event>, e: Event)
    ensures
        run(platform, phase, events.push(e)).0 == transition(
            platform,
            run(platform, phase, events).0,
            e,
        ).0,
        run(platform, phase, events.push(e)).2 == run(platform, phase, events).2.push(
            transition(platform, run(platform, phase, events).0, e).2,
        ),
{
    assert(events.push(e).drop_last() =~= events);
}

proof fn lemma_check_run(platform: Platform, local: Option<String>, reply: RemoteReply)
    ensures
        run(platform, Phase::Ready, check_events(local, reply)).2 == seq![
            Effect::ProbeLocalInstallation,
            Effect::ReadLocalVersion,
            Effect::CheckRemoteVersion,
            transition(platform, Phase::CheckingRemote(local), Event::Remote(reply)).2,
        ],
{
    reveal(transition);
    let e0 = Seq::<Event>::empty();
    let e1 = e0.push(Event::Begin);
    let e2 = e1.push(Event::LocalFiles(true, true));
    let e3 = e2.push(Event::LocalVersion(local));
    let e4 = e3.push(Event::Remote(reply));
    lemma_run_push(platform, Phase::Ready, e0, Event::Begin);
    lemma_run_push(platform, Phase::Ready, e1, Event::LocalFiles(true, true));
    lemma_run_push(platform, Phase::Ready, e2, Event::LocalVersion(local));
    lemma_run_push(platform, Phase::Ready, e3, Event::Remote(reply));
    assert(e4 =~= check_events(local, reply));
    assert(run(platform, Phase::Ready, e4).2 =~= seq![
        Effect::ProbeLocalInstallation,
        Effect::ReadLocalVersion,
        Effect::CheckRemoteVersion,
        transition(platform, Phase::CheckingRemote(local), Event::Remote(reply)).2,
    ]);
}

/// Up to date: when the installed version matches the server's, once both are trimmed, the
/// launcher is started at once and nothing is downloaded.
pub proof fn lemma_up_to_date_launches(platform: Platform, local: String, remote: String)
    requires
        trimmed(local@) == trimmed(remote@),
    ensures
        run(platform, Phase::Ready, check_events(Some(local), RemoteReply::Body(remote))).2
            == seq![
            Effect::ProbeLocalInstallation,
            Effect::ReadLocalVersion,
            Effect::CheckRemoteVersion,
            Effect::SpawnLauncher,
        ],
{
    reveal(transition);
    lemma_check_run(platform, Some(local), RemoteReply::Body(remote));
}

/// Update available: when the server names another version, or the installed version cannot
/// be read, the packages are downloaded before anything is started.
pub proof fn lemma_new_version_downloads(
    platform: Platform,
    local: Option<String>,
    remote: String,
)
    requires
        local matches Some(l) ==> trimmed(l@) != trimmed(remote@),
    ensures
        run(platform, Phase::Ready, check_events(local, RemoteReply::Body(remote))).2 == seq![
            Effect::ProbeLocalInstallation,
            Effect::ReadLocalVersion,
            Effect::CheckRemoteVersion,
            Effect::DownloadAll,
        ],
{
    reveal(transition);
    lemma_check_run(platform, local, RemoteReply::Body(remote));
}

/// Offline, server error or unreadable answer: when the server cannot give the version, the
/// installed launcher is started without an update.
pub proof fn lemma_offline_launches_local(platform: Platform, local: Option<String>, reply: RemoteReply)
    requires
        !(reply is Body),
    ensures
        run(platform, Phase::Ready, check_events(local, reply)).2 == seq![
            Effect::ProbeLocalInstallation,
            Effect::ReadLocalVersion,
            Effect::CheckRemoteVersion,
            Effect::SpawnLauncher,
        ],
{
    reveal(transition);
    lemma_check_run(platform, local, reply);
}

/// First installation: without the launcher or without the local version file, everything is
/// downloaded.
pub proof fn lemma_first_installation_downloads(platform: Platform, launcher: bool, version_file: bool)
    requires
        !(launcher && version_file),
    ensures
        run(platform, Phase::Ready, seq![Event::Begin, Event::LocalFiles(launcher, version_file)]).2
            == seq![Effect::ProbeLocalInstallation, Effect::DownloadAll],
{
    reveal(transition);
    let e0 = Seq::<Event>::empty();
    let e1 = e0.push(Event::Begin);
    let e2 = e1.push(Event::LocalFiles(launcher, version_file));
    lemma_run_push(platform, Phase::Ready, e0, Event::Begin);
    lemma_run_push(platform, Phase::Ready, e1, Event::LocalFiles(launcher, version_file));
    assert(e2 =~= seq![Event::Begin, Event::LocalFiles(launcher, version_file)]);
    assert(run(platform, Phase::Ready, e2).2 =~= seq![
        Effect::ProbeLocalInstallation,
        Effect::DownloadAll,
    ]);
}

/// Any failure reported before the run has ended stops it: the phase becomes `Aborted`, nothing is
/// logged and the effect is `Abort` with that very error, whatever the phase (downloading
/// included).
pub proof fn lemma_failure_aborts(platform: Platform, phase: Phase, err: String)
    requires
        !is_terminal(phase),
    ensures
        transition(platform, phase, Event::Failed(err)) == (
            Phase::Aborted,
            Seq::<Seq<char>>::empty(),
            Effect::Abort(err),
        ),
{
    reveal(transition);
    assert(transition(platform, phase, Event::Failed(err)).1 =~= Seq::<Seq<char>>::empty());
}

/// A phase that the session only reaches once the downloads were reported finished.
pub open spec fn after_downloads_finished(p: Phase) -> bool {
    p is FetchingVersion || p is SavingVersion
}

proof fn lemma_finished_invariant(platform: Platform, events: Seq<Event>)
    ensures
        after_downloads_finished(run(platform, Phase::Ready, events).0) ==> exists|j: int|
            0 <= j < events.len() && #[trigger] events[j] == Event::DownloadsFinished,
    decreases events.len(),
{
    reveal(transition);
    if events.len() > 0 {
        let d = events.drop_last();
        lemma_finished_invariant(platform, d);
        let q = run(platform, Phase::Ready, d).0;
        if after_downloads_finished(run(platform, Phase::Ready, events).0) {
            if after_downloads_finished(q) {
                let j = choose|j: int| 0 <= j < d.len() && #[trigger] d[j] == Event::DownloadsFinished;
                assert(events[j] == Event::DownloadsFinished);
            } else {
                assert(events[events.len() - 1] == Event::DownloadsFinished);
            }
        }
    }
}

/// The new version is written only after the downloads were reported finished: every
/// `SaveVersion` follows a `DownloadsFinished` event.
pub proof fn lemma_version_saved_after_downloads_finished(
    platform: Platform,
    events: Seq<Event>,
    i: int,
)
    requires
        0 <= i < events.len(),
        run(platform, Phase::Ready, events).2[i] is SaveVersion,
    ensures
        exists|j: int| 0 <= j < i && #[trigger] events[j] == Event::DownloadsFinished,
{
    reveal(transition);
    lemma_run_prefix(platform, Phase::Ready, events, i);
    let pre = events.take(i);
    lemma_finished_invariant(platform, pre);
    let j = choose|j: int| 0 <= j < pre.len() && #[trigger] pre[j] == Event::DownloadsFinished;
    assert(events[j] == Event::DownloadsFinished);
}

fn line(s: &str) -> (r: Vec<String>)
    ensures
        views(r@) == seq![s@],
{
    let mut r: Vec<String> = Vec::new();
    r.push(s.to_string());
    assert(views(r@) =~= seq![s@]);
    r
}

fn two_lines(a: &str, b: &str) -> (r: Vec<String>)
    ensures
        views(r@) == seq![a@, b@],
{
    let mut r: Vec<String> = Vec::new();
    r.push(a.to_string());
    r.push(b.to_string());
    assert(views(r@) =~= seq![a@, b@]);
    r
}

fn three_lines(a: &str, b: &str, c: &str) -> (r: Vec<String>)
    ensures
        views(r@) == seq![a@, b@, c@],
{
    let mut r: Vec<String> = Vec::new();
    r.push(a.to_string());
    r.push(b.to_string());
    r.push(c.to_string());
    assert(views(r@) =~= seq![a@, b@, c@]);
    r
}

fn no_lines() -> (r: Vec<String>)
    ensures
        views(r@) == Seq::<Seq<char>>::empty(),
{
    let r: Vec<String> = Vec::new();
    assert(views(r@) =~= Seq::<Seq<char>>::empty());
    r
}

fn step(logs: Vec<String>, effect: Effect) -> (s: Step)
    ensures
        s.logs == logs,
        s.effect == effect,
{
    Step { logs, effect }
}

/// Whether two version texts name the same version: equal once trimmed.
pub fn versions_match(local: &str, remote: &str) -> (same: bool)
    ensures
        same == (trimmed(local@) == trimmed(remote@)),
{
    let a = chars_of(local);
    let b = chars_of(remote);
    let (alo, ahi): (usize, usize) = trim_bounds(&a);
    let (blo, bhi): (usize, usize) = trim_bounds(&b);
    let mut ta: Vec<char> = Vec::new();
    let mut i: usize = alo;
    while i < ahi
        invariant
            alo <= i <= ahi <= a.len(),
            ta@ == a@.subrange(alo as int, i as int),
        decreases ahi - i,
    {
        ta.push(a[i]);
        i = i + 1;
    }
    let mut tb: Vec<char> = Vec::new();
    let mut j: usize = blo;
    while j < bhi
        invariant
            blo <= j <= bhi <= b.len(),
            tb@ == b@.subrange(blo as int, j as int),
        decreases bhi - j,
    {
        tb.push(b[j]);
        j = j + 1;
    }
    same_chars(&ta, &tb)
}

impl Session {
    /// A session that has not begun.
    pub fn new(platform: Platform) -> (s: Session)
        ensures
            s.platform == platform,
            s.phase is Ready,
    {
        Session { platform, phase: Phase::Ready }
    }

    /// Takes in what the last effect produced, and says what to log and do next.
    pub fn advance(&mut self, event: Event) -> (s: Step)
        ensures
            final(self).platform == old(self).platform,
            (final(self).phase, views(s.logs@), s.effect) == transition(
                old(self).platform,
                old(self).phase,
                event,
            ),
    {
        proof {
            reveal(transition);
        }
        let mut phase = Phase::Ready;
        std::mem::swap(&mut phase, &mut self.phase);
        let platform = self.platform;
        let (next, s) = match (phase, event) {
            (Phase::Ready, Event::Begin) => (
                Phase::Probing,
                step(no_lines(), Effect::ProbeLocalInstallation),
            ),
            (Phase::Probing, Event::LocalFiles(launcher, version_file)) => {
                if launcher && version_file {
                    (
                        Phase::ReadingLocal,
                        step(line("Local installation found"), Effect::ReadLocalVersion),
                    )
                } else {
                    (Phase::Downloading, step(line("First installation"), Effect::DownloadAll))
                }
            },
            (Phase::ReadingLocal, Event::LocalVersion(v)) => (
                Phase::CheckingRemote(v),
                step(line("Checking for updates..."), Effect::CheckRemoteVersion),
            ),
            (Phase::CheckingRemote(local), Event::Remote(RemoteReply::Body(remote))) => {
                match local {
                    Some(l) => {
                        if versions_match(l.as_str(), remote.as_str()) {
                            (
                                Phase::Launching,
                                step(
                                    two_lines(
                                        "Version is up to date!",
                                        "Starting Morpheus Launcher...",
                                    ),
                                    Effect::SpawnLauncher,
                                ),
                            )
                        } else {
                            (
                                Phase::Downloading,
                                step(
                                    line("New version available, updating..."),
                                    Effect::DownloadAll,
                                ),
                            )
                        }
                    },
                    None => (
                        Phase::Downloading,
                        step(line("Update required..."), Effect::DownloadAll),
                    ),
                }
            },
            (Phase::CheckingRemote(_), Event::Remote(RemoteReply::ServerError(_))) => (
                Phase::Launching,
                step(
                    two_lines(
                        "Server error, launching local version...",
                        "Starting Morpheus Launcher...",
                    ),
                    Effect::SpawnLauncher,
                ),
            ),
            (Phase::CheckingRemote(_), Event::Remote(RemoteReply::Unreachable(_))) => (
                Phase::Launching,
                step(
                    three_lines(
                        "Cannot verify updates (offline?)",
                        "Launching local version...",
                        "Starting Morpheus Launcher...",
                    ),
                    Effect::SpawnLauncher,
                ),
            ),
            (Phase::CheckingRemote(_), Event::Remote(RemoteReply::Unreadable(_))) => (
                Phase::Launching,
                step(
                    three_lines(
                        "Cannot verify updates (offline?)",
                        "Launching local version...",
                        "Starting Morpheus Launcher...",
                    ),
                    Effect::SpawnLauncher,
                ),
            ),
            (Phase::Launching, Event::LauncherSpawned) => (
                Phase::Exited,
                step(line("Launcher started! Closing installer..."), Effect::ExitAfterDelay),
            ),
            (Phase::Downloading, Event::DownloadsFinished) => (
                Phase::FetchingVersion,
                step(line("Downloading version.txt..."), Effect::FetchVersionFile),
            ),
            (Phase::FetchingVersion, Event::Remote(RemoteReply::Body(text))) => (
                Phase::SavingVersion,
                step(no_lines(), Effect::SaveVersion(text)),
            ),
            (Phase::FetchingVersion, Event::Remote(RemoteReply::ServerError(status))) => {
                let msg = String::from_str("Warning: server error ").concat(
                    status.as_str(),
                ).concat(" while saving version.txt");
                (Phase::ProbingLauncher, step(line(msg.as_str()), Effect::ProbeLauncher))
            },
            (Phase::FetchingVersion, Event::Remote(RemoteReply::Unreadable(err))) => (
                Phase::Aborted,
                step(no_lines(), Effect::Abort(err)),
            ),
            (Phase::FetchingVersion, Event::Remote(RemoteReply::Unreachable(err))) => {
                let msg = String::from_str("Warning: cannot save version.txt: ").concat(
                    err.as_str(),
                );
                (Phase::ProbingLauncher, step(line(msg.as_str()), Effect::ProbeLauncher))
            },
            (Phase::SavingVersion, Event::VersionSaved) => (
                Phase::ProbingLauncher,
                step(line("version.txt updated"), Effect::ProbeLauncher),
            ),
            (Phase::ProbingLauncher, Event::LauncherPresent(true)) => match platform {
                Platform::Unix => (
                    Phase::CheckingDependencies,
                    step(no_lines(), Effect::InstallDependencies),
                ),
                Platform::Windows => (
                    Phase::Launching,
                    step(line("Starting Morpheus Launcher..."), Effect::SpawnLauncher),
                ),
            },
            (Phase::ProbingLauncher, Event::LauncherPresent(false)) => {
                let msg = String::from_str(launcher_exe(platform)).concat(" not found!");
                (Phase::Finished, step(line(msg.as_str()), Effect::Finish))
            },
            (Phase::CheckingDependencies, Event::DependenciesChecked) => (
                Phase::MarkingExecutable,
                step(no_lines(), Effect::MakeLauncherExecutable),
            ),
            (Phase::MarkingExecutable, Event::LauncherMadeExecutable) => (
                Phase::Launching,
                step(line("Starting Morpheus Launcher..."), Effect::SpawnLauncher),
            ),
            (p, Event::Failed(e)) => {
                match p {
                    Phase::Exited => (Phase::Exited, step(no_lines(), Effect::Idle)),
                    Phase::Finished => (Phase::Finished, step(no_lines(), Effect::Idle)),
                    Phase::Aborted => (Phase::Aborted, step(no_lines(), Effect::Idle)),
                    _ => (Phase::Aborted, step(no_lines(), Effect::Abort(e))),
                }
            },
            (p, _) => (p, step(no_lines(), Effect::Idle)),
        };
        self.phase = next;
        s
    }
}

} // verus!

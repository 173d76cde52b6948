use vstd::prelude::*;

verus! {

/// Whether the updater fetches the beta channel.
pub const BETA: bool = false;

/// Seconds the update check waits for the server.
pub const UPDATE_CHECK_TIMEOUT_SECS: u64 = 5;

/// Seconds the updater waits after starting the launcher before it exits.
pub const EXIT_DELAY_SECS: u64 = 2;

/// The operating system family the updater runs on.
#[derive(Clone, Copy, Debug, PartialEq, Eq, Structural)]
pub enum Platform {
    Windows,
    Unix,
}

pub open spec fn host_text() -> Seq<char> {
    "https://morpheuslauncher.it/downloads/"@
}

pub open spec fn versions_url_text() -> Seq<char> {
    "https://morpheuslauncher.it/version.txt"@
}

/// The address from which `file` is downloaded.
pub open spec fn url_text(file: Seq<char>) -> Seq<char> {
    if BETA {
        host_text() + "beta/"@ + file
    } else {
        host_text() + file
    }
}

pub open spec fn zip_name_text(p: Platform) -> Seq<char> {
    match p {
        Platform::Windows => "morpheus_win.zip"@,
        Platform::Unix => "morpheus_tux.zip"@,
    }
}

pub open spec fn launcher_exe_text(p: Platform) -> Seq<char> {
    match p {
        Platform::Windows => "morpheus_launcher_gui.exe"@,
        Platform::Unix => "morpheus_launcher_gui"@,
    }
}

pub open spec fn updater_exe_text(p: Platform) -> Seq<char> {
    match p {
        Platform::Windows => "morpheus_updater.exe"@,
        Platform::Unix => "morpheus_updater"@,
    }
}

/// The files that an installation downloads, in order.
pub open spec fn package_files_text(p: Platform) -> Seq<Seq<char>> {
    seq![zip_name_text(p), "Launcher.jar"@, "authlib-injector.jar"@]
}

/// The address of the file that names the latest version.
pub fn versions_url() -> (s: &'static str)
    ensures
        s@ == versions_url_text(),
{
    "https://morpheuslauncher.it/version.txt"
}

/// The archive of the native package for `p`.
pub fn zip_name(p: Platform) -> (s: &'static str)
    ensures
        s@ == zip_name_text(p),
{
    match p {
        Platform::Windows => "morpheus_win.zip",
        Platform::Unix => "morpheus_tux.zip",
    }
}

/// The launcher's executable for `p`.
pub fn launcher_exe(p: Platform) -> (s: &'static str)
    ensures
        s@ == launcher_exe_text(p),
{
    match p {
        Platform::Windows => "morpheus_launcher_gui.exe",
        Platform::Unix => "morpheus_launcher_gui",
    }
}

/// The updater's own executable for `p`.
pub fn updater_exe(p: Platform) -> (s: &'static str)
    ensures
        s@ == updater_exe_text(p),
{
    match p {
        Platform::Windows => "morpheus_updater.exe",
        Platform::Unix => "morpheus_updater",
    }
}

/// The files that an installation downloads, in order.
pub fn package_files(p: Platform) -> (v: Vec<String>)
    ensures
        v@.map_values(|s: String| s@) == package_files_text(p),
{
    let mut v: Vec<String> = Vec::new();
    v.push(zip_name(p).to_string());
    v.push("Launcher.jar".to_string());
    v.push("authlib-injector.jar".to_string());
    assert(v@.map_values(|s: String| s@) =~= package_files_text(p));
    v
}

/// The download address of `file`.
pub fn build_url(file: &str) -> (url: String)
    ensures
        url@ == url_text(file@),
{
    let host = String::from_str("https://morpheuslauncher.it/downloads/");
    if BETA {
        host.concat("beta/").concat(file)
    } else {
        host.concat(file)
    }
}

/// The title of the installer's window.
pub fn window_title() -> (t: String)
    ensures
        t@ == "Morpheus Installer ["@ + (if BETA {
            "BETA"@
        } else {
            "STABLE"@
        }) + "]"@,
{
    let channel = if BETA {
        "BETA"
    } else {
        "STABLE"
    };
    String::from_str("Morpheus Installer [").concat(channel).concat("]")
}

/// Appends one line, `msg` and a line feed, to the installation log.
pub fn log(logs: &mut String, msg: String)
    ensures
        final(logs)@ == old(logs)@ + msg@ + "\n"@,
{
    logs.append(msg.as_str());
    logs.append("\n");
}

/// The directory under which the `.morpheus` directory lies: on Windows `%APPDATA%` where it is
/// set, and otherwise the home directory.
pub fn morpheus_base_dir<P>(p: Platform, appdata: Option<P>, home: Option<P>) -> (dir: P)
    requires
        p == Platform::Windows && appdata is Some || home is Some,
    ensures
        dir == (if p == Platform::Windows && appdata is Some {
            appdata->0
        } else {
            home->0
        }),
{
    match p {
        Platform::Windows => match appdata {
            Some(a) => a,
            None => home.unwrap(),
        },
        Platform::Unix => home.unwrap(),
    }
}

/// Whether the installation has yet to be started: true only on the first call for a flag that
/// starts out false. The flag is set either way.
pub fn claim_start(started: &mut bool) -> (first: bool)
    ensures
        first == !*old(started),
        *final(started),
{
    let first = !*started;
    *started = true;
    first
}

} // verus!

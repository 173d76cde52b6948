use morpheus_updater::config::{
    build_url, claim_start, launcher_exe, log, morpheus_base_dir, package_files, updater_exe,
    versions_url, window_title, zip_name, Platform, EXIT_DELAY_SECS, UPDATE_CHECK_TIMEOUT_SECS,
};

#[test]
fn urls_point_at_the_stable_channel() {
    assert_eq!(
        build_url("Launcher.jar"),
        "https://morpheuslauncher.it/downloads/Launcher.jar"
    );
    assert_eq!(
        build_url("morpheus_tux.zip"),
        "https://morpheuslauncher.it/downloads/morpheus_tux.zip"
    );
    assert_eq!(versions_url(), "https://morpheuslauncher.it/version.txt");
}

#[test]
fn platform_names() {
    assert_eq!(zip_name(Platform::Windows), "morpheus_win.zip");
    assert_eq!(zip_name(Platform::Unix), "morpheus_tux.zip");
    assert_eq!(launcher_exe(Platform::Windows), "morpheus_launcher_gui.exe");
    assert_eq!(launcher_exe(Platform::Unix), "morpheus_launcher_gui");
    assert_eq!(updater_exe(Platform::Windows), "morpheus_updater.exe");
    assert_eq!(updater_exe(Platform::Unix), "morpheus_updater");
    assert_eq!(
        package_files(Platform::Unix),
        vec!["morpheus_tux.zip", "Launcher.jar", "authlib-injector.jar"]
    );
    assert_eq!(
        package_files(Platform::Windows),
        vec!["morpheus_win.zip", "Launcher.jar", "authlib-injector.jar"]
    );
}

#[test]
fn constants() {
    assert_eq!(UPDATE_CHECK_TIMEOUT_SECS, 5);
    assert_eq!(EXIT_DELAY_SECS, 2);
    assert_eq!(window_title(), "Morpheus Installer [STABLE]");
}

#[test]
fn log_appends_a_line() {
    let mut logs = String::new();
    log(&mut logs, "First installation".to_string());
    log(&mut logs, "Downloading version.txt...".to_string());
    assert_eq!(logs, "First installation\nDownloading version.txt...\n");
}

#[test]
fn base_dir_prefers_appdata_on_windows_only() {
    let a = Some("C:\\Users\\u\\AppData\\Roaming".to_string());
    let h = Some("/home/u".to_string());
    assert_eq!(morpheus_base_dir(Platform::Windows, a.clone(), h.clone()), a.clone().unwrap());
    assert_eq!(morpheus_base_dir(Platform::Windows, None, h.clone()), h.clone().unwrap());
    assert_eq!(morpheus_base_dir(Platform::Unix, a, h.clone()), h.unwrap());
}

#[test]
fn start_is_claimed_once() {
    let mut started = false;
    assert!(claim_start(&mut started));
    assert!(started);
    assert!(!claim_start(&mut started));
    assert!(started);
}

use morpheus_updater::jsoncpp::{
    compat_links, created_line, creating_line, exists_line, jsoncpp_version, library_file,
    link_error_line, link_failed_line, match_line, newest_version, no_ldconfig_line,
    none_found_line, scan_ldconfig, searching_line, using_line,
};

const LDCONFIG: &str = "1234 libs found in cache `/etc/ld.so.cache'\n\
\tlibjsoncpp.so.25 (libc6,x86-64) => /usr/lib/x86_64-linux-gnu/libjsoncpp.so.25\n\
\tlibjsoncpp.so (libc6,x86-64) => /usr/lib/x86_64-linux-gnu/libjsoncpp.so\n\
\tlibsecret-1.so.0 (libc6,x86-64) => /lib/x86_64-linux-gnu/libsecret-1.so.0\n\
\tlibjsoncpp.so.1 (libc6) odd line without arrow\n";

#[test]
fn scan_finds_versioned_jsoncpp_lines() {
    let found = scan_ldconfig(LDCONFIG);
    assert_eq!(found.len(), 2);
    assert_eq!(
        found[0].line,
        "libjsoncpp.so.25 (libc6,x86-64) => /usr/lib/x86_64-linux-gnu/libjsoncpp.so.25"
    );
    assert_eq!(
        found[0].path.as_deref(),
        Some("/usr/lib/x86_64-linux-gnu/libjsoncpp.so.25")
    );
    assert_eq!(found[1].path, None);
    assert_eq!(
        match_line(&found[0]),
        "ldconfig match: libjsoncpp.so.25 (libc6,x86-64) => /usr/lib/x86_64-linux-gnu/libjsoncpp.so.25"
    );
}

#[test]
fn scan_uses_the_last_arrow() {
    let found = scan_ldconfig("libjsoncpp.so.26 => a => /lib/libjsoncpp.so.26  ");
    assert_eq!(found[0].path.as_deref(), Some("/lib/libjsoncpp.so.26"));
}

#[test]
fn version_from_file_name() {
    assert_eq!(jsoncpp_version("libjsoncpp.so.25"), Some("25".to_string()));
    assert_eq!(jsoncpp_version("libjsoncpp.so.1.9.5"), Some("1.9.5".to_string()));
    assert_eq!(jsoncpp_version("libjsoncpp.so"), None);
    assert_eq!(jsoncpp_version("libsecret-1.so.0"), None);
}

#[test]
fn newest_compares_version_numbers_and_keeps_the_first_among_equals() {
    let v = |xs: &[&str]| xs.iter().map(|s| s.to_string()).collect::<Vec<String>>();
    assert_eq!(newest_version(&v(&[])), None);
    assert_eq!(newest_version(&v(&["9", "10"])), Some(1));
    assert_eq!(newest_version(&v(&["24", "25", "1.9.5"])), Some(1));
    assert_eq!(newest_version(&v(&["25", "3", "25"])), Some(0));
    assert_eq!(newest_version(&v(&["25", "25"])), Some(0));
    assert_eq!(newest_version(&v(&["25", "025"])), Some(0));
    assert_eq!(newest_version(&v(&["025", "25"])), Some(0));
    assert_eq!(newest_version(&v(&["25", "25.1"])), Some(1));
    assert_eq!(newest_version(&v(&["1.10.0", "1.9.5"])), Some(0));
    assert_eq!(newest_version(&v(&["1.9.5", "24"])), Some(1));
}

#[test]
fn newest_of_the_ldconfig_listing() {
    let out = "\tlibjsoncpp.so.9 (libc6,x86-64) => /usr/lib/libjsoncpp.so.9\n\tlibjsoncpp.so.10 (libc6,x86-64) => /usr/lib/libjsoncpp.so.10\n";
    let versions: Vec<String> = scan_ldconfig(out)
        .iter()
        .filter_map(|m| m.path.as_deref())
        .filter_map(|p| jsoncpp_version(p.rsplit('/').next().unwrap()))
        .collect();
    assert_eq!(versions, vec!["9", "10"]);
    let k = newest_version(&versions).unwrap();
    assert_eq!(versions[k], "10");
    assert_eq!(compat_links(&versions[k]), vec!["24", "25", "26"]);
}

#[test]
fn links_skip_the_installed_version() {
    assert_eq!(compat_links("25"), vec!["24", "26"]);
    assert_eq!(compat_links("24.0.1"), vec!["25", "26"]);
    assert_eq!(compat_links("26"), vec!["24", "25"]);
    assert_eq!(compat_links("250"), vec!["24", "25", "26"]);
    assert_eq!(compat_links("1.9.5"), vec!["24", "25", "26"]);
}

#[test]
fn messages() {
    assert_eq!(library_file("25"), "libjsoncpp.so.25");
    assert_eq!(
        using_line("25", "/usr/lib"),
        "Using libjsoncpp.so.25 from /usr/lib for symlinks"
    );
    assert_eq!(
        creating_line("24", "25"),
        "Creating compatibility symlink libjsoncpp.so.24 -> libjsoncpp.so.25"
    );
    assert_eq!(created_line("24"), "Successfully created symlink libjsoncpp.so.24");
    assert_eq!(
        link_failed_line("26", "Some(1)"),
        "Failed to create symlink libjsoncpp.so.26 (exit code: Some(1))"
    );
    assert_eq!(link_error_line("no pkexec"), "Error running pkexec for symlink: no pkexec");
    assert_eq!(exists_line("24"), "Symlink or file libjsoncpp.so.24 already exists.");
    assert_eq!(searching_line(), "Searching for libjsoncpp for compatibility symlinks...");
    assert_eq!(no_ldconfig_line(), "Could not run ldconfig to find libraries.");
    assert_eq!(none_found_line(), "No libjsoncpp version found via ldconfig.");
}

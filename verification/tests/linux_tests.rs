use morpheus_updater::linux::{
    checking_line, dependency_packages, install_result_line, detected_line, get_linux_distro, install_command,
    install_failed_line, installed_line, is_library_present, missing_line, missing_packages,
    quoted_list, running_line, unsupported_line,
};

#[test]
fn distro_comes_from_the_first_id_line() {
    let ubuntu = "NAME=\"Ubuntu\"\nVERSION_ID=\"22.04\"\nID=ubuntu\nID_LIKE=debian\n";
    assert_eq!(get_linux_distro(Some(ubuntu)), "ubuntu");
    let fedora = "NAME=\"Fedora Linux\"\r\nID=\"fedora\"\r\nVERSION_ID=39\r\n";
    assert_eq!(get_linux_distro(Some(fedora)), "fedora");
    assert_eq!(get_linux_distro(Some("ID_LIKE=arch\nNAME=x")), "unknown");
    assert_eq!(get_linux_distro(Some("ID=ID=arch")), "arch");
    assert_eq!(get_linux_distro(Some("ID=\"\"\"")), "");
    assert_eq!(get_linux_distro(Some("ID=a\nID=b")), "a");
    assert_eq!(get_linux_distro(Some("")), "unknown");
    assert_eq!(get_linux_distro(None), "unknown");
}

#[test]
fn packages_by_family() {
    assert_eq!(dependency_packages("fedora"), ("libsecret".to_string(), "jsoncpp".to_string()));
    assert_eq!(dependency_packages("rhel"), ("libsecret".to_string(), "jsoncpp".to_string()));
    assert_eq!(dependency_packages("manjaro"), ("libsecret".to_string(), "jsoncpp".to_string()));
    assert_eq!(
        dependency_packages("ubuntu"),
        ("libsecret-1-0".to_string(), "libjsoncpp-dev".to_string())
    );
    assert_eq!(
        dependency_packages("gentoo"),
        ("libsecret-1-0".to_string(), "libjsoncpp-dev".to_string())
    );
}

#[test]
fn missing_packages_keep_order() {
    assert_eq!(missing_packages("arch", false, false), vec!["libsecret", "jsoncpp"]);
    assert_eq!(missing_packages("debian", true, false), vec!["libjsoncpp-dev"]);
    assert_eq!(missing_packages("debian", false, true), vec!["libsecret-1-0"]);
    assert!(missing_packages("debian", true, true).is_empty());
}

#[test]
fn install_commands() {
    let pk = vec!["libsecret".to_string(), "jsoncpp".to_string()];
    assert_eq!(
        install_command("fedora", &pk).unwrap(),
        vec!["pkexec", "dnf", "install", "-y", "libsecret", "jsoncpp"]
    );
    assert_eq!(
        install_command("arch", &pk).unwrap(),
        vec!["pkexec", "pacman", "-S", "--noconfirm", "libsecret", "jsoncpp"]
    );
    assert_eq!(
        install_command("pop", &vec!["libjsoncpp-dev".to_string()]).unwrap(),
        vec!["pkexec", "apt-get", "install", "-y", "libjsoncpp-dev"]
    );
    assert!(install_command("unknown", &pk).is_none());
    assert!(install_command("opensuse", &pk).is_none());
}

#[test]
fn messages_match_debug_formatting() {
    let missing = vec!["libsecret-1-0".to_string(), "libjsoncpp-dev".to_string()];
    let as_strs: Vec<&str> = missing.iter().map(|s| s.as_str()).collect();
    assert_eq!(quoted_list(&missing), format!("{:?}", as_strs));
    assert_eq!(quoted_list(&Vec::new()), "[]");
    assert_eq!(
        missing_line(&missing),
        format!("Missing dependencies: {:?}. Attempting installation...", as_strs)
    );
    let cmd = install_command("ubuntu", &missing).unwrap();
    let cmd_strs: Vec<&str> = cmd.iter().map(|s| s.as_str()).collect();
    assert_eq!(running_line(&cmd), format!("Running: {:?}", cmd_strs));
    assert_eq!(detected_line("arch"), "Detected distro: arch");
    assert_eq!(checking_line(), "Checking system dependencies...");
    assert_eq!(installed_line(), "Dependencies installed successfully.");
    assert_eq!(
        install_failed_line(),
        "Failed to install dependencies. You might need to install them manually."
    );
    assert!(unsupported_line().starts_with("Unsupported distribution"));
    assert_eq!(install_result_line(true), installed_line());
    assert_eq!(install_result_line(false), install_failed_line());
}

#[test]
fn library_presence() {
    let out = "\tlibsecret-1.so.0 (libc6,x86-64) => /lib/x86_64-linux-gnu/libsecret-1.so.0\n";
    assert!(is_library_present(Some(out), &Vec::new(), "libsecret-1"));
    assert!(!is_library_present(Some(out), &vec!["libjsoncpp.so.25".to_string()], "libjsoncpp"));
    let files = vec!["libc.so.6".to_string(), "libjsoncpp.so.25".to_string()];
    assert!(is_library_present(None, &files, "libjsoncpp"));
    assert!(!is_library_present(None, &files, "libsecret-1"));
}

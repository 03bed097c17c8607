use bt::self_update::{
    bearer_token, binary_name, binary_name_for, canary_check_message, cargo_home_bin_from,
    check_message, installer_command, installer_failed_message, is_installer_managed_install,
    paths_equal, paths_equal_resolved, receipt_path_from, stable_check_message,
    unsupported_install_message, updating_message, UpdateChannel,
};
use std::path::Path;

#[test]
fn channel_urls_are_expected() {
    assert_eq!(
        UpdateChannel::Stable.installer_url(),
        "https://github.com/braintrustdata/bt/releases/latest/download/bt-installer.sh"
    );
    assert_eq!(
        UpdateChannel::Canary.installer_url(),
        "https://github.com/braintrustdata/bt/releases/download/canary/bt-installer.sh"
    );
    assert_eq!(
        UpdateChannel::Stable.github_release_api_url(),
        "https://api.github.com/repos/braintrustdata/bt/releases/latest"
    );
    assert_eq!(
        UpdateChannel::Canary.github_release_api_url(),
        "https://api.github.com/repos/braintrustdata/bt/releases/tags/canary"
    );
}

#[test]
fn installer_detection_accepts_receipt() {
    let exe = "/tmp/not-in-cargo-home/bt";
    assert!(is_installer_managed_install(exe, true, None));
}

#[test]
fn installer_detection_accepts_cargo_home_bin_path() {
    let cargo_home_bin = "/tmp/cargo/bin";
    let exe = Path::new(cargo_home_bin).join(binary_name());
    assert!(is_installer_managed_install(
        exe.to_str().unwrap(),
        false,
        Some(cargo_home_bin)
    ));
}

#[test]
fn installer_detection_rejects_non_installer_location() {
    let cargo_home_bin = "/tmp/cargo/bin";
    let exe = "/usr/local/bin/bt";
    assert!(!is_installer_managed_install(
        exe,
        false,
        Some(cargo_home_bin)
    ));
}

#[test]
fn stable_check_message_reports_up_to_date() {
    let msg = stable_check_message("0.1.0", "v0.1.0");
    assert!(msg.contains("up to date"));
    assert!(msg.contains("v0.1.0"));
}

#[test]
fn stable_check_message_reports_update_available() {
    let msg = stable_check_message("0.1.0", "v0.2.0");
    assert!(msg.contains("update available"));
    assert!(msg.contains("current=0.1.0"));
    assert!(msg.contains("latest=v0.2.0"));
}

#[test]
fn canary_check_message_contains_guidance() {
    let msg = canary_check_message("canary-deadbeef");
    assert!(msg.contains("canary-deadbeef"));
    assert!(msg.contains("bt self update --channel canary"));
}

#[test]
fn stable_check_message_is_exact() {
    assert_eq!(
        stable_check_message("0.1.0", "v0.1.0"),
        "bt 0.1.0 is up to date on the stable channel (v0.1.0)"
    );
    assert_eq!(
        stable_check_message("0.1.0", "vv0.1.0"),
        "bt 0.1.0 is up to date on the stable channel (vv0.1.0)"
    );
    assert_eq!(
        stable_check_message("0.1.0", "0.1.0"),
        "bt 0.1.0 is up to date on the stable channel (0.1.0)"
    );
    assert_eq!(
        stable_check_message("0.1.0", "v0.2.0"),
        "update available on stable channel: current=0.1.0, latest=v0.2.0"
    );
    assert_eq!(
        stable_check_message("v0.1.0", "v0.1.0"),
        "update available on stable channel: current=v0.1.0, latest=v0.1.0"
    );
}

#[test]
fn canary_check_message_is_exact() {
    assert_eq!(
        canary_check_message("canary-1"),
        "latest canary release tag: canary-1\nrun `bt self update --channel canary` to install it"
    );
}

#[test]
fn channel_names() {
    assert_eq!(UpdateChannel::Stable.name(), "stable");
    assert_eq!(UpdateChannel::Canary.name(), "canary");
}

#[test]
fn binary_name_follows_the_separator() {
    assert_eq!(binary_name_for('/'), "bt");
    assert_eq!(binary_name_for('\\'), "bt.exe");
    assert_eq!(binary_name(), binary_name_for(std::path::MAIN_SEPARATOR));
}

#[test]
fn paths_compare_by_component() {
    assert!(paths_equal_resolved("/a/b", "/a/b/", None, None));
    assert!(paths_equal_resolved("/a//b", "/a/b", None, None));
    assert!(!paths_equal_resolved("/a/b", "/a/c", None, None));
    assert!(paths_equal_resolved("/x", "/y", Some("/z"), Some("/z")));
    assert!(!paths_equal_resolved("/x", "/x", Some("/z"), None));
    assert!(paths_equal_resolved("/x", "/z", None, Some("/x")));
}

#[test]
fn paths_are_resolved_on_disk() {
    assert!(paths_equal("/", "/."));
    assert!(paths_equal("/..", "/"));
    assert!(!paths_equal_resolved("/..", "/", None, None));
    assert!(paths_equal("/tmp/no-such-dir-for-bt/x", "/tmp/no-such-dir-for-bt/x"));
    assert!(!paths_equal("/tmp/no-such-dir-for-bt/x", "/tmp/no-such-dir-for-bt/y"));
}

#[test]
fn installer_detection_without_receipt_or_cargo_home() {
    assert!(!is_installer_managed_install("/tmp/cargo/bin/bt", false, None));
}

#[test]
fn receipt_lies_in_the_configuration_directory() {
    let sep = std::path::MAIN_SEPARATOR;
    assert_eq!(
        receipt_path_from(Some("/cfg"), Some("/home/u")),
        Some(format!("/cfg{sep}bt{sep}bt-receipt.json"))
    );
    assert_eq!(
        receipt_path_from(None, Some("/home/u")),
        Some(format!("/home/u{sep}.config{sep}bt{sep}bt-receipt.json"))
    );
    assert_eq!(receipt_path_from(None, None), None);
}

#[test]
fn cargo_bin_lies_in_the_cargo_home() {
    let sep = std::path::MAIN_SEPARATOR;
    assert_eq!(
        cargo_home_bin_from(Some("/cargo"), Some("/home/u")),
        Some(format!("/cargo{sep}bin"))
    );
    assert_eq!(
        cargo_home_bin_from(None, Some("/home/u")),
        Some(format!("/home/u{sep}.cargo{sep}bin"))
    );
    assert_eq!(cargo_home_bin_from(None, None), None);
}

#[test]
fn update_messages() {
    assert_eq!(
        check_message(UpdateChannel::Stable, "0.1.0", "v0.1.0"),
        "bt 0.1.0 is up to date on the stable channel (v0.1.0)"
    );
    assert_eq!(
        check_message(UpdateChannel::Canary, "0.1.0", "canary-1"),
        "latest canary release tag: canary-1\nrun `bt self update --channel canary` to install it"
    );
    assert_eq!(bearer_token("  abc \n"), Some("abc"));
    assert_eq!(bearer_token(" \t"), None);
    assert_eq!(bearer_token(""), None);
    assert_eq!(
        installer_command(UpdateChannel::Canary),
        "curl -fsSL 'https://github.com/braintrustdata/bt/releases/download/canary/bt-installer.sh' | sh"
    );
    assert_eq!(updating_message(UpdateChannel::Stable), "updating bt from stable channel...");
    assert_eq!(installer_failed_message("exit status: 1"), "installer exited with status exit status: 1");
    assert_eq!(
        unsupported_install_message("/usr/bin/bt"),
        "self-update is only supported for installer-based installs.\ncurrent executable: /usr/bin/bt\nif this was installed with Homebrew/apt/choco/etc, update with that package manager"
    );
}

#[test]
fn ascii_whitespace_is_space_and_tab_to_carriage_return() {
    for code in 0u8..128 {
        let c = code as char;
        let expected = c == ' ' || ('\t'..='\r').contains(&c);
        let text = c.to_string();
        assert_eq!(bearer_token(&text).is_none(), expected);
        let around = format!("{c}x{c}");
        assert_eq!(bearer_token(&around) == Some("x"), expected);
    }
    assert_eq!(bearer_token("\u{a0}x\u{3000}"), Some("x"));
    assert_eq!(bearer_token("\u{200b}"), Some("\u{200b}"));
}

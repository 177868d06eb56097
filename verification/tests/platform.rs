use xtask_base::platform::Platform;

#[test]
fn latest_lists_the_three_platforms_in_order() {
    assert_eq!(
        Platform::latest(),
        vec![Platform::UbuntuLatest, Platform::MacOSLatest, Platform::WindowsLatest]
    );
}

#[test]
fn labels_are_those_of_the_runner() {
    assert_eq!(Platform::UbuntuLatest.as_str(), "ubuntu-latest");
    assert_eq!(Platform::MacOSLatest.as_str(), "macos-latest");
    assert_eq!(Platform::WindowsLatest.as_str(), "windows-latest");
}

#[test]
fn each_host_is_of_one_platform() {
    for (os, platform) in [
        ("linux", Platform::UbuntuLatest),
        ("macos", Platform::MacOSLatest),
        ("windows", Platform::WindowsLatest),
    ] {
        for candidate in Platform::latest() {
            assert_eq!(candidate.is_current(os), candidate == platform);
        }
    }
}

#[test]
fn unknown_host_is_of_no_platform() {
    for os in ["freebsd", "", "Linux", "linux ", "mac"] {
        for candidate in Platform::latest() {
            assert!(!candidate.is_current(os));
        }
    }
}

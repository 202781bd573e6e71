use adit_ui::style::{parse_hex_color, rgb};
use adit_ui::updater::{is_openable_http_url, pick_installer_asset, version_is_newer, Asset};

fn assets(list: &[(&str, &str)]) -> Vec<Asset> {
    list.iter()
        .map(|(name, url)| Asset { name: String::from(*name), url: String::from(*url) })
        .collect()
}

#[test]
fn installer_asset_is_picked_by_architecture() {
    let all = assets(&[
        ("adit_0.1.61_amd64.deb", "https://x/deb"),
        ("adit-installer-v0.1.61.exe", "https://x/x64"),
        ("adit-installer-v0.1.61_arm64.exe", "https://x/arm"),
    ]);
    assert_eq!(pick_installer_asset(&all, "x86_64").unwrap().0, "https://x/x64");
    assert_eq!(pick_installer_asset(&all, "aarch64").unwrap().0, "https://x/arm");

    let reversed = assets(&[
        ("adit-installer-v0.1.61-arm64.exe", "https://x/arm"),
        ("adit-installer-v0.1.61.exe", "https://x/x64"),
    ]);
    assert_eq!(pick_installer_asset(&reversed, "x86_64").unwrap().0, "https://x/x64");

    let legacy = assets(&[("adit-installer-v0.1.60.exe", "https://x/only")]);
    assert_eq!(pick_installer_asset(&legacy, "x86_64").unwrap().0, "https://x/only");
    assert_eq!(pick_installer_asset(&legacy, "aarch64").unwrap().0, "https://x/only");

    let none = assets(&[("notes.txt", "https://x/t")]);
    assert!(pick_installer_asset(&none, "x86_64").is_none());
}

#[test]
fn installer_asset_ordering_favours_x64() {
    let x64 = "adit-installer-v0.1.62.exe";
    let arm = "adit-installer-v0.1.62_arm64.exe";
    assert!(x64 < arm, "the x64 installer must sort before {arm}");
    assert!(
        "adit-installer-v0.1.62-arm64.exe" < x64,
        "a '-' separator sorts the arm64 build first"
    );
    assert!(arm.contains("arm64"));
    let all = assets(&[(x64, "https://x/x64"), (arm, "https://x/arm")]);
    assert_eq!(pick_installer_asset(&all, "aarch64").unwrap().1, arm);
}

#[test]
fn an_installer_for_another_machine_is_not_offered() {
    let arm_only = assets(&[("adit-installer-v0.1.61_arm64.exe", "https://x/arm")]);
    assert!(pick_installer_asset(&arm_only, "x86_64").is_none());
    assert_eq!(
        pick_installer_asset(&arm_only, "aarch64"),
        Some((String::from("https://x/arm"), String::from("adit-installer-v0.1.61_arm64.exe")))
    );
}

#[test]
fn only_safe_http_urls_are_openable() {
    assert!(is_openable_http_url("https://example.com/a?b=1#c"));
    assert!(is_openable_http_url("http://10.0.0.1:8080/path"));
    assert!(is_openable_http_url("HTTPS://Example.COM"));
    assert!(!is_openable_http_url("file:///C:/Windows/System32/calc.exe"));
    assert!(!is_openable_http_url("javascript:alert(1)"));
    assert!(!is_openable_http_url("ftp://x/y"));
    assert!(!is_openable_http_url(""));
    assert!(!is_openable_http_url("https://x/a b"));
    assert!(!is_openable_http_url("https://x/a\nhttp://y"));
    assert!(!is_openable_http_url("https://x\t& calc"));
    assert!(!is_openable_http_url("https://good.com\u{202e}moc.live"));
    assert!(!is_openable_http_url("https://x\u{2028}evil"));
    assert!(!is_openable_http_url("https://xn--\u{200b}spoof"));
    assert!(!is_openable_http_url("https://ｅxample.com"));
}

#[test]
fn hyperlink_parse_hex_color_is_panic_free() {
    assert!(parse_hex_color("#zzzzzz").is_none());
    assert!(parse_hex_color("#12").is_none());
    assert!(parse_hex_color("１２３４５６").is_none());
    assert_eq!(parse_hex_color("#1a2b3c"), Some(rgb(26, 43, 60)));
}

#[test]
fn version_compare_detects_newer_releases() {
    assert!(version_is_newer("v0.1.10", "0.1.9"));
    assert!(version_is_newer("0.2.0", "0.1.9"));
    assert!(version_is_newer("v1.0.0", "0.9.9"));
    assert!(!version_is_newer("v0.1.9", "0.1.9"));
    assert!(!version_is_newer("v0.1.8", "0.1.9"));
    assert!(!version_is_newer("garbage", "0.1.0"));
}

#[test]
fn newer_is_one_way_and_goes_on() {
    let line = ["0.1.9", "0.1.10", "0.2", "1.0.0"];
    for i in 0..line.len() {
        for j in 0..line.len() {
            assert_eq!(version_is_newer(line[j], line[i]), i < j, "{} {}", line[i], line[j]);
        }
    }
}

//! The driver installation's layout decisions.

use playwright_core::driver::{Driver, Platform};

#[test]
fn install() {
    // Deciding an installation never fails: the driver lives at the chosen
    // destination, and unpacking is needed exactly when it is not yet there.
    let (driver, needs_prepare) =
        Driver::install("/tmp/driver-home".to_string(), Platform::Linux, false);
    assert_eq!(driver.path, "/tmp/driver-home");
    assert!(needs_prepare);
    let (_driver, needs_prepare) =
        Driver::install("/tmp/driver-home".to_string(), Platform::Linux, true);
    assert!(!needs_prepare);
}

#[test]
fn platform_labels() {
    assert_eq!(Platform::from_name("linux"), Some(Platform::Linux));
    assert_eq!(Platform::from_name("linux-arm64"), Some(Platform::LinuxArm64));
    assert_eq!(Platform::from_name("mac"), Some(Platform::Mac));
    assert_eq!(Platform::from_name("mac-arm64"), Some(Platform::MacArm64));
    assert_eq!(Platform::from_name("win32"), Some(Platform::Win32));
    assert_eq!(Platform::from_name("win32_x64"), Some(Platform::Win32x64));
    assert_eq!(Platform::from_name("solaris"), None);
}

#[test]
fn launcher_paths_follow_the_platform() {
    let d = Driver::new("/opt/pw".to_string(), Platform::Linux);
    assert_eq!(d.executable(), "/opt/pw/playwright.sh");
    let d = Driver::new("/opt/pw".to_string(), Platform::Win32x64);
    assert_eq!(d.executable(), "/opt/pw/playwright.cmd");
}

#[test]
fn default_destination_prefers_override_then_cache() {
    assert_eq!(
        Driver::default_dest(Some("/custom".to_string()), Some("/cache".to_string()), "/tmp", true),
        "/custom"
    );
    assert_eq!(
        Driver::default_dest(None, Some("/cache".to_string()), "/tmp", true),
        "/cache/ms-playwright/playwright-rust/driver"
    );
    assert_eq!(
        Driver::default_dest(None, None, "/tmp", true),
        "/tmp/ms-playwright/playwright-rust/driver"
    );
    assert_eq!(
        Driver::default_dest(None, Some("/cache".to_string()), "/tmp", false),
        "/tmp/playwright-rust/driver"
    );
}

#[test]
fn launcher_stub_parks_the_event_loop() {
    let d = Driver::new("/opt/pw".to_string(), Platform::Linux);
    let stub = d.launcher_stub("node");
    assert!(stub.starts_with("#!/bin/sh\n"));
    assert!(stub.contains("run-driver"));
    assert!(stub.contains("driver.runDriver();setInterval(()=>{},2147483647);"));

    let d = Driver::new("C:\\pw".to_string(), Platform::Win32);
    let stub = d.launcher_stub("node.exe");
    assert!(stub.starts_with("@echo off\r\n"));
    assert!(stub.contains("\"node.exe\""));
    assert!(stub.contains("run-driver"));
}

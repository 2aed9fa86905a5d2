use webview_host::navigation::{missing_window, navigation_failure, state, HttpsAddress, NavigationMemory};

#[test]
fn state_reports_visibility_and_last_request() {
    let mut memory = NavigationMemory::new();
    let s = state(false, Some(&memory));
    assert!(!s.open);
    assert_eq!(s.url, "");
    memory.record(&HttpsAddress::new("https://chat.deepseek.com/".to_string()));
    let s = state(true, Some(&memory));
    assert!(s.open);
    assert_eq!(s.url, "https://chat.deepseek.com/");
    assert_eq!(memory.requested_url(), "https://chat.deepseek.com/");
    let s = state(true, None);
    assert_eq!(s.url, "");
}

#[test]
fn open_errors() {
    assert_eq!(navigation_failure("boom"), "FAILED: 导航失败（boom）");
    assert_eq!(
        missing_window(),
        "NOT_FOUND: 外部网页窗口不存在（启动期预创建失败），重启 x-hub 后可用"
    );
}

use webview_host::open_flow::{OpenAction, OpenFlow, OpenReport};

fn step(flow: &mut OpenFlow, report: OpenReport) -> OpenAction {
    assert!(flow.expects(&report));
    flow.advance(report)
}

#[test]
fn refused_address_ends_before_any_window_work() {
    let (_, action) = OpenFlow::start("http://a.com/", None, false);
    match action {
        OpenAction::Finish(Err(e)) => assert_eq!(e, "INVALID_ARGUMENT: 只允许 https 地址"),
        other => panic!("unexpected {other:?}"),
    }
}

#[test]
fn missing_window_is_reported_first() {
    let (mut flow, action) = OpenFlow::start("https://chat.deepseek.com/", None, false);
    assert!(matches!(action, OpenAction::FindWindow));
    match step(&mut flow, OpenReport::Answer(false)) {
        OpenAction::Finish(Err(e)) => {
            assert_eq!(e, "NOT_FOUND: 外部网页窗口不存在（启动期预创建失败），重启 x-hub 后可用")
        }
        other => panic!("unexpected {other:?}"),
    }
}

#[test]
fn full_open_in_order() {
    let (mut flow, action) = OpenFlow::start("  https://chat.deepseek.com  ", Some("DeepSeek"), false);
    assert!(matches!(action, OpenAction::FindWindow));
    assert!(matches!(step(&mut flow, OpenReport::Answer(true)), OpenAction::CheckPlacement));
    assert!(matches!(step(&mut flow, OpenReport::Answer(true)), OpenAction::PlaceAtCenter));
    assert!(matches!(step(&mut flow, OpenReport::Done), OpenAction::CheckMinimized));
    assert!(matches!(step(&mut flow, OpenReport::Answer(true)), OpenAction::Unminimize));
    assert!(matches!(step(&mut flow, OpenReport::Done), OpenAction::CheckVisible));
    assert!(matches!(step(&mut flow, OpenReport::Answer(false)), OpenAction::Show));
    assert!(matches!(step(&mut flow, OpenReport::Done), OpenAction::Focus));
    match step(&mut flow, OpenReport::Done) {
        OpenAction::SetTitle(t) => assert_eq!(t, "DeepSeek"),
        other => panic!("unexpected {other:?}"),
    }
    assert!(matches!(step(&mut flow, OpenReport::Done), OpenAction::ReadMemory));
    match step(&mut flow, OpenReport::Remembered(Some(String::new()))) {
        OpenAction::Navigate(u) => assert_eq!(u, "https://chat.deepseek.com/"),
        other => panic!("unexpected {other:?}"),
    }
    match step(&mut flow, OpenReport::Navigated(Ok(()))) {
        OpenAction::Record(t) => assert_eq!(t.as_str(), "https://chat.deepseek.com/"),
        other => panic!("unexpected {other:?}"),
    }
    match step(&mut flow, OpenReport::Done) {
        OpenAction::Finish(Ok(t)) => assert_eq!(t, "https://chat.deepseek.com/"),
        other => panic!("unexpected {other:?}"),
    }
    assert!(!flow.expects(&OpenReport::Done));
}

#[test]
fn same_address_again_does_not_navigate() {
    let (mut flow, _) = OpenFlow::start("https://chat.deepseek.com/", None, false);
    step(&mut flow, OpenReport::Answer(true));
    step(&mut flow, OpenReport::Answer(false));
    step(&mut flow, OpenReport::Answer(false));
    assert!(matches!(step(&mut flow, OpenReport::Answer(true)), OpenAction::Focus));
    assert!(matches!(step(&mut flow, OpenReport::Done), OpenAction::ReadMemory));
    match step(&mut flow, OpenReport::Remembered(Some("https://chat.deepseek.com/".to_string()))) {
        OpenAction::Finish(Ok(t)) => assert_eq!(t, "https://chat.deepseek.com/"),
        other => panic!("unexpected {other:?}"),
    }
}

#[test]
fn reload_or_unreadable_memory_navigates() {
    for (reload, memory) in [(true, Some("https://chat.deepseek.com/".to_string())), (false, None)] {
        let (mut flow, _) = OpenFlow::start("https://chat.deepseek.com/", None, reload);
        step(&mut flow, OpenReport::Answer(true));
        step(&mut flow, OpenReport::Answer(false));
        step(&mut flow, OpenReport::Answer(false));
        step(&mut flow, OpenReport::Answer(true));
        step(&mut flow, OpenReport::Done);
        assert!(matches!(step(&mut flow, OpenReport::Remembered(memory)), OpenAction::Navigate(_)));
    }
}

#[test]
fn failed_navigation_is_not_remembered() {
    let (mut flow, _) = OpenFlow::start("https://chat.deepseek.com/", None, false);
    step(&mut flow, OpenReport::Answer(true));
    step(&mut flow, OpenReport::Answer(false));
    step(&mut flow, OpenReport::Answer(false));
    step(&mut flow, OpenReport::Answer(true));
    step(&mut flow, OpenReport::Done);
    step(&mut flow, OpenReport::Remembered(None));
    match step(&mut flow, OpenReport::Navigated(Err("boom".to_string()))) {
        OpenAction::Finish(Err(e)) => assert_eq!(e, "FAILED: 导航失败（boom）"),
        other => panic!("unexpected {other:?}"),
    }
}

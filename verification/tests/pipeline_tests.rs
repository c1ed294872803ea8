use macos_watcher::attribute::attribute_result;
use macos_watcher::event::{EventKind, RawInputEvent, ScreenPosition};
use macos_watcher::orchestrate::{begin, step, Action, AttributeName, Outcome, Phase};
use macos_watcher::record::{format_record, EnrichedRecord, LogLevel};
use macos_watcher::subject::{fallback_process_name, owner_pid_or_fallback, subject_without_element};

fn mouse_event() -> RawInputEvent {
    RawInputEvent {
        kind: EventKind::PrimaryMouseDown,
        reported_pid: 42,
        position: Some(ScreenPosition { x_tenths: 1000, y_tenths: 2000 }),
        key_code: None,
    }
}

#[test]
fn attribute_failure_reads_not_found() {
    let r = attribute_result(-25205, Some("ignored".to_string()));
    assert!(!r.found);
    assert!(r.value.is_none());
    let r = attribute_result(0, None);
    assert!(!r.found);
    assert!(r.value.is_none());
    let r = attribute_result(0, Some("submit".to_string()));
    assert!(r.found);
    assert_eq!(r.value, Some("submit".to_string()));
}

#[test]
fn point_failure_falls_back_to_reported_pid() {
    let s = subject_without_element(42);
    assert_eq!(s.process_id, 42);
    assert!(!s.element_found);
    assert!(s.identifier.is_none());
    assert!(s.role.is_none());
    assert!(s.description.is_none());
    assert_eq!(s.process_name, "PID_42");
}

#[test]
fn point_failure_stops_the_run() {
    let (phase, action) = begin(&mouse_event());
    match &action {
        Action::ResolveElementAtPoint { x_tenths, y_tenths } => {
            assert_eq!(*x_tenths, 1000);
            assert_eq!(*y_tenths, 2000);
        }
        other => panic!("unexpected action {:?}", other),
    }
    let (phase, action) = step(phase, Outcome::ElementAtPoint { status: -25200, element_found: false });
    assert!(matches!(phase, Phase::Done));
    match action {
        Action::Finish { release_element, record } => {
            assert!(!release_element);
            assert!(record.is_none());
        }
        other => panic!("unexpected action {:?}", other),
    }
}

#[test]
fn owner_pid_fallback_keeps_reported_pid() {
    assert_eq!(owner_pid_or_fallback(0, 77, 42), 77);
    assert_eq!(owner_pid_or_fallback(-25204, 77, 42), 42);
}

#[test]
fn name_lookup_failure_yields_placeholder() {
    assert_eq!(fallback_process_name(42), "PID_42");
    assert_eq!(fallback_process_name(-7), "PID_-7");
}

/// Drives the mouse path up to the identifier query.
fn run_to_identifier(name: &str) -> Phase {
    let (phase, _) = begin(&mouse_event());
    let (phase, action) = step(phase, Outcome::ElementAtPoint { status: 0, element_found: true });
    assert!(matches!(action, Action::ResolveOwnerPid));
    let (phase, action) = step(phase, Outcome::OwnerPid { status: 0, pid: 42 });
    match &action {
        Action::LookupProcessName { pid } => assert_eq!(*pid, 42),
        other => panic!("unexpected action {:?}", other),
    }
    let (phase, action) = step(phase, Outcome::ProcessName { name: Some(name.to_string()) });
    match &action {
        Action::ObserveNetwork { target_key } => assert_eq!(target_key, "42"),
        other => panic!("unexpected action {:?}", other),
    }
    let (phase, action) = step(phase, Outcome::NetworkObserved);
    assert!(matches!(
        action,
        Action::QueryAttribute { attribute: AttributeName::Identifier }
    ));
    phase
}

#[test]
fn button_click_is_fully_enriched() {
    let phase = run_to_identifier("MyApp");
    let (phase, action) = step(phase, Outcome::Attribute { status: 0, value: Some("submit".to_string()) });
    assert!(matches!(action, Action::QueryAttribute { attribute: AttributeName::Role }));
    let (phase, action) = step(phase, Outcome::Attribute { status: 0, value: Some("AXButton".to_string()) });
    assert!(matches!(
        action,
        Action::QueryAttribute { attribute: AttributeName::Description }
    ));
    let (phase, action) = step(phase, Outcome::Attribute { status: 0, value: Some("Submit Form".to_string()) });
    assert!(matches!(phase, Phase::Done));
    match action {
        Action::Finish { release_element, record } => {
            assert!(release_element);
            match record {
                Some(EnrichedRecord::ButtonClick { app_name, pid, identifier, label, pos }) => {
                    assert_eq!(app_name, "MyApp");
                    assert_eq!(pid, 42);
                    assert_eq!(identifier, Some("submit".to_string()));
                    assert_eq!(label, Some("Submit Form".to_string()));
                    assert_eq!(pos.x_tenths, 1000);
                    assert_eq!(pos.y_tenths, 2000);
                }
                other => panic!("unexpected record {:?}", other),
            }
        }
        other => panic!("unexpected action {:?}", other),
    }
}

#[test]
fn element_click_without_role_keeps_identifier() {
    let phase = run_to_identifier("MyApp");
    let (phase, _) = step(phase, Outcome::Attribute { status: 0, value: Some("login-link".to_string()) });
    let (phase, action) = step(phase, Outcome::Attribute { status: -25205, value: None });
    assert!(matches!(phase, Phase::Done));
    match action {
        Action::Finish { release_element, record } => {
            assert!(release_element);
            match record {
                Some(EnrichedRecord::ElementClick { app_name, pid, identifier, role, pos }) => {
                    assert_eq!(app_name, "MyApp");
                    assert_eq!(pid, 42);
                    assert_eq!(identifier, "login-link");
                    assert!(role.is_none());
                    assert_eq!(pos.x_tenths, 1000);
                    assert_eq!(pos.y_tenths, 2000);
                }
                other => panic!("unexpected record {:?}", other),
            }
        }
        other => panic!("unexpected action {:?}", other),
    }
}

#[test]
fn no_role_and_no_identifier_emits_nothing() {
    let phase = run_to_identifier("MyApp");
    let (phase, _) = step(phase, Outcome::Attribute { status: -25205, value: None });
    let (phase, action) = step(phase, Outcome::Attribute { status: -25205, value: None });
    assert!(matches!(phase, Phase::Done));
    match action {
        Action::Finish { release_element, record } => {
            assert!(release_element);
            assert!(record.is_none());
        }
        other => panic!("unexpected action {:?}", other),
    }
}

#[test]
fn key_down_yields_one_key_press_and_no_enrichment() {
    let event = RawInputEvent {
        kind: EventKind::KeyDown,
        reported_pid: 42,
        position: None,
        key_code: Some(36),
    };
    let (phase, action) = begin(&event);
    match &action {
        Action::LookupProcessName { pid } => assert_eq!(*pid, 42),
        other => panic!("unexpected action {:?}", other),
    }
    let (phase, action) = step(phase, Outcome::ProcessName { name: Some("Terminal".to_string()) });
    assert!(matches!(phase, Phase::Done));
    match action {
        Action::Finish { release_element, record } => {
            assert!(!release_element);
            match record {
                Some(EnrichedRecord::KeyPress { app_name, pid, key_code }) => {
                    assert_eq!(app_name, "Terminal");
                    assert_eq!(pid, 42);
                    assert_eq!(key_code, 36);
                }
                other => panic!("unexpected record {:?}", other),
            }
        }
        other => panic!("unexpected action {:?}", other),
    }
}

#[test]
fn tap_disabled_warns_and_stops() {
    for (kind, timeout) in [
        (EventKind::TapDisabledTimeout, true),
        (EventKind::TapDisabledUserInput, false),
    ] {
        let event = RawInputEvent { kind, reported_pid: 0, position: None, key_code: None };
        let (phase, action) = begin(&event);
        assert!(matches!(phase, Phase::Done));
        match action {
            Action::Finish { release_element, record } => {
                assert!(!release_element);
                match record {
                    Some(EnrichedRecord::TapDisabled { timeout: t }) => {
                        assert_eq!(t, timeout);
                        let (level, _) = format_record(&EnrichedRecord::TapDisabled { timeout: t });
                        assert_eq!(level, LogLevel::Warn);
                    }
                    other => panic!("unexpected record {:?}", other),
                }
            }
            other => panic!("unexpected action {:?}", other),
        }
    }
}

#[test]
fn other_events_are_ignored() {
    let event = RawInputEvent { kind: EventKind::Other, reported_pid: 9, position: None, key_code: None };
    let (phase, action) = begin(&event);
    assert!(matches!(phase, Phase::Done));
    match action {
        Action::Finish { release_element, record } => {
            assert!(!release_element);
            assert!(record.is_none());
        }
        other => panic!("unexpected action {:?}", other),
    }
}

#[test]
fn records_format_to_log_lines() {
    let pos = ScreenPosition { x_tenths: 1000, y_tenths: 2000 };
    let (level, line) = format_record(&EnrichedRecord::ButtonClick {
        app_name: "MyApp".to_string(),
        pid: 42,
        identifier: Some("submit".to_string()),
        label: Some("Submit Form".to_string()),
        pos,
    });
    assert_eq!(level, LogLevel::Info);
    assert_eq!(
        line,
        "Button Clicked: App='MyApp' (PID=42), ID='submit', Label='Submit Form', Pos=(100.0, 200.0)"
    );

    let (level, line) = format_record(&EnrichedRecord::ButtonClick {
        app_name: "MyApp".to_string(),
        pid: 42,
        identifier: None,
        label: None,
        pos,
    });
    assert_eq!(level, LogLevel::Info);
    assert_eq!(
        line,
        "Button Clicked: App='MyApp' (PID=42), ID='<No ID>', Label='<No Label>', Pos=(100.0, 200.0)"
    );

    let (level, line) = format_record(&EnrichedRecord::ElementClick {
        app_name: "MyApp".to_string(),
        pid: 42,
        identifier: "login-link".to_string(),
        role: Some("AXLink".to_string()),
        pos,
    });
    assert_eq!(level, LogLevel::Info);
    assert_eq!(
        line,
        "Element Clicked: App='MyApp' (PID=42), ID='login-link', Role='AXLink', Pos=(100.0, 200.0)"
    );

    let (level, line) = format_record(&EnrichedRecord::KeyPress {
        app_name: "Terminal".to_string(),
        pid: 42,
        key_code: 36,
    });
    assert_eq!(level, LogLevel::Info);
    assert_eq!(line, "Key Down: App='Terminal' (PID=42), KeyCode=36");

    let (level, line) = format_record(&EnrichedRecord::TapDisabled { timeout: true });
    assert_eq!(level, LogLevel::Warn);
    assert_eq!(line, "Event tap disabled (timeout); input monitoring stopped");
}

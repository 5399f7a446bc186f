use agwaita::privacy::{
    node_for_global, ApplicationNode, Media, PipeWireMonitor, PrivacyEvent, PrivacyService, PrivacyUsage,
    LOCATION_IN_USE, WEBCAM_DIRECT,
};
use agwaita::wm::{
    detect_wm, monitor_step, niri_spawn_command, parse_exec, spawn_reply_result, switch_reply_result,
    LaunchPlan, MonitorStep, NiriEvent, NiriReply, NiriWMService, NiriWorkspace, UnsupportedWMService,
    WMService, WMType,
};
use std::sync::{Arc, Mutex};

fn niri_ws(idx: u8, name: Option<&str>, output: &str, active: bool) -> NiriWorkspace {
    NiriWorkspace {
        idx,
        name: name.map(|s| s.to_string()),
        is_active: active,
        is_focused: active,
        output: Some(output.to_string()),
    }
}

#[test]
fn window_manager_is_detected() {
    assert_eq!(detect_wm(true, false, None), WMType::Niri);
    assert_eq!(detect_wm(false, true, None), WMType::Niri);
    assert_eq!(detect_wm(false, false, Some("GNOME:NIRI".to_string())), WMType::Niri);
    assert_eq!(detect_wm(false, false, Some("GNOME".to_string())), WMType::Unsupported);
    assert_eq!(detect_wm(false, false, None), WMType::Unsupported);
}

#[test]
fn exec_lines_lose_field_codes() {
    let (cmd, args) = parse_exec("firefox %u --new-window");
    assert_eq!(cmd, "firefox");
    assert_eq!(args, vec!["--new-window".to_string()]);
    let (cmd, args) = parse_exec("  %F ");
    assert_eq!(cmd, "");
    assert!(args.is_empty());
    assert_eq!(niri_spawn_command("gimp %U -n  --x", false), Ok("gimp -n --x".to_string()));
    assert_eq!(niri_spawn_command("%f", false), Err("Empty command".to_string()));
    assert_eq!(
        niri_spawn_command("htop", true),
        Err("Terminal launch not supported via Niri IPC".to_string())
    );
}

#[test]
fn niri_replies_become_results() {
    assert_eq!(spawn_reply_result(NiriReply::Handled), Ok(()));
    assert_eq!(
        spawn_reply_result(NiriReply::Rejected("no".to_string())),
        Err("Niri rejected spawn: no".to_string())
    );
    assert_eq!(
        switch_reply_result(NiriReply::SendFailed("io".to_string())),
        Err("Failed to send workspace switch request: io".to_string())
    );
    assert_eq!(
        switch_reply_result(NiriReply::Unexpected),
        Err("Unexpected response from Niri".to_string())
    );
    assert_eq!(monitor_step(NiriEvent::WorkspacesChanged), MonitorStep::EmitCarried);
    assert_eq!(monitor_step(NiriEvent::WorkspaceActivated), MonitorStep::Requery);
    assert_eq!(monitor_step(NiriEvent::Other), MonitorStep::Ignore);
    assert_eq!(monitor_step(NiriEvent::Failed), MonitorStep::Stop);
}

#[test]
fn workspaces_are_filtered_and_named() {
    let ws = vec![
        niri_ws(1, Some("web"), "DP-1", true),
        niri_ws(2, None, "HDMI-1", false),
        niri_ws(3, None, "DP-1", false),
    ];
    let all = NiriWMService::convert_workspaces(ws.clone(), None);
    assert_eq!(all.len(), 3);
    let dp = NiriWMService::convert_workspaces(ws, Some("DP-1".to_string()));
    assert_eq!(dp.len(), 2);
    assert_eq!(dp[0].name, "web");
    assert!(dp[0].is_active && dp[0].is_focused && !dp[0].is_urgent);
    assert_eq!(dp[1].name, "3");
    assert_eq!(dp[1].output_name.as_deref(), Some("DP-1"));
}

#[test]
fn service_caches_and_announces_workspaces() {
    let mut svc = WMService::new(WMType::Niri);
    assert_eq!(svc.wm_type(), WMType::Niri);
    let seen = Arc::new(Mutex::new(0usize));
    let s = Arc::clone(&seen);
    let h = svc.connect_workspaces_changed(move |w| *s.lock().unwrap() += w.len());
    svc.workspaces_reported(vec![niri_ws(1, None, "A", true), niri_ws(2, None, "B", false)], None);
    assert_eq!(svc.get_workspaces().len(), 2);
    assert_eq!(*seen.lock().unwrap(), 2);
    svc.disconnect_workspaces_changed(h);
    svc.workspaces_reported(vec![niri_ws(1, None, "A", true)], None);
    assert_eq!(svc.get_workspaces().len(), 1);
    assert_eq!(*seen.lock().unwrap(), 2);
}

#[test]
fn service_keeps_only_the_followed_output() {
    let mut svc = WMService::new(WMType::Niri);
    let seen = Arc::new(Mutex::new(Vec::new()));
    let s = Arc::clone(&seen);
    svc.connect_workspaces_changed(move |w| s.lock().unwrap().push(w.len()));
    svc.workspaces_reported(
        vec![niri_ws(1, None, "DP-1", true), niri_ws(2, None, "HDMI-A-1", true), niri_ws(3, None, "DP-1", false)],
        Some("DP-1".to_string()),
    );
    let ws = svc.get_workspaces();
    assert_eq!(ws.len(), 2);
    assert_eq!(ws[0].name, "1");
    assert_eq!(ws[1].name, "3");
    assert!(ws.iter().all(|w| w.output_name.as_deref() == Some("DP-1")));
    assert_eq!(*seen.lock().unwrap(), vec![2]);
}

#[test]
fn terminal_is_found_in_order() {
    let n = UnsupportedWMService::terminal_candidates().len();
    let mut avail = vec![false; n];
    assert_eq!(
        UnsupportedWMService::detect_terminal(None, false, &avail),
        Err("No terminal emulator found".to_string())
    );
    avail[3] = true;
    avail[5] = true;
    assert_eq!(UnsupportedWMService::detect_terminal(None, false, &avail), Ok("foot -e".to_string()));
    assert_eq!(
        UnsupportedWMService::detect_terminal(Some("wezterm".to_string()), true, &avail),
        Ok("wezterm -e".to_string())
    );
    assert_eq!(
        UnsupportedWMService::detect_terminal(Some("wezterm".to_string()), false, &avail),
        Ok("foot -e".to_string())
    );
    assert_eq!(UnsupportedWMService::command_name("wezterm start --"), "wezterm");
}

#[test]
fn fallback_launch_plans() {
    match UnsupportedWMService::plan_launch("vim %F", Some(Ok("foot -e".to_string()))) {
        Ok(LaunchPlan::Shell(s)) => assert_eq!(s, "foot -e vim"),
        _ => panic!("expected a shell line"),
    }
    match UnsupportedWMService::plan_launch("nautilus --new-window %U", None) {
        Ok(LaunchPlan::Program(p, args)) => {
            assert_eq!(p, "nautilus");
            assert_eq!(args, vec!["--new-window".to_string()]);
        }
        _ => panic!("expected a program"),
    }
    assert!(matches!(
        UnsupportedWMService::plan_launch("%u", None),
        Err(e) if e == "Empty exec command"
    ));
    assert!(matches!(
        UnsupportedWMService::plan_launch("vim", Some(Err("No terminal emulator found".to_string()))),
        Err(e) if e == "No terminal emulator found"
    ));
    let u = UnsupportedWMService::new();
    assert_eq!(u.switch_to_workspace(1), Err("Workspace switching not supported".to_string()));
    assert!(u.get_current_workspaces(None).is_empty());
}

fn node(id: u32, class: &str, app: &str, node_name: &str, role: Option<&str>) -> ApplicationNode {
    node_for_global(id, class, app.to_string(), node_name.to_string(), role.map(|r| r.to_string()), None)
        .expect("a counted stream")
}

#[test]
fn app_names_and_lines() {
    assert!(PipeWireMonitor::should_include_app("Firefox"));
    assert!(!PipeWireMonitor::should_include_app("WirePlumber"));
    assert!(!PipeWireMonitor::should_include_app("Monitor of Speakers"));
    assert!(!PipeWireMonitor::should_include_app("Unknown"));
    assert_eq!(PipeWireMonitor::format_app_name("Firefox", "Firefox"), "∙ Firefox");
    assert_eq!(PipeWireMonitor::format_app_name("Firefox", "AudioIPC"), "∙ Firefox <i>(AudioIPC)</i>");
    assert_eq!(PipeWireMonitor::format_app_name("Zoom", "Unknown"), "∙ Zoom");
    assert_eq!(PipeWireMonitor::format_app_name("Zoom", ""), "∙ Zoom");
}

#[test]
fn streams_are_recognised() {
    assert!(node_for_global(1, "Audio/Sink", "x".to_string(), "y".to_string(), None, None).is_none());
    assert!(node_for_global(1, "Stream/Input/Audio", "pipewire".to_string(), "y".to_string(), None, None).is_none());
    let mic = node(2, "Stream/Input/Audio", "Zoom", "Zoom", None);
    assert_eq!(mic.media, Media::Audio("Stream/Input/Audio".to_string()));
    let cast = node(3, "Stream/Input/Video", "Chrome", "webrtc-consume-stream", None);
    assert!(PipeWireMonitor::is_screencast(&cast, "Stream/Input/Video"));
    let cam = node(4, "Stream/Input/Video", "Cheese", "Cheese", Some("Camera"));
    assert!(!PipeWireMonitor::is_screencast(&cam, "Stream/Input/Video"));
}

#[test]
fn nodes_are_categorised() {
    let nodes = vec![
        node(1, "Stream/Input/Video", "Cheese", "Cheese", None),
        node(2, "Stream/Input/Audio", "Zoom", "Zoom", None),
        node(3, "Stream/Output/Video", "OBS", "OBS", None),
        node(4, "Stream/Input/Audio", "Zoom", "Zoom", None),
    ];
    let (camera, mic, screen) = PipeWireMonitor::categorize_nodes(&nodes, 1);
    assert_eq!(camera, vec![WEBCAM_DIRECT.to_string(), "∙ Cheese".to_string()]);
    assert_eq!(mic, vec!["∙ Zoom".to_string()]);
    assert_eq!(screen, vec!["∙ OBS".to_string()]);
}

#[test]
fn monitor_reports_changes_only() {
    let mut m = PipeWireMonitor::new(0);
    let mic = node(7, "Stream/Input/Audio", "Zoom", "Zoom", None);
    let r = m.handle_event(PrivacyEvent::AddNode(mic), 0).expect("a change");
    assert_eq!(r.1, vec!["∙ Zoom".to_string()]);
    assert!(m.handle_event(PrivacyEvent::RemoveNode(99), 0).is_none());
    let r = m.handle_event(PrivacyEvent::WebcamOpen, 2).expect("a change");
    assert_eq!(r.0, vec![WEBCAM_DIRECT.to_string()]);
    let r = m.handle_event(PrivacyEvent::RemoveNode(7), 0).expect("a change");
    assert!(r.1.is_empty());
    let r = m.handle_event(PrivacyEvent::WebcamClose, 0).expect("a change");
    assert!(r.0.is_empty());
}

#[test]
fn privacy_service_emits_on_change() {
    let mut svc = PrivacyService::new();
    let seen = Arc::new(Mutex::new(Vec::new()));
    let s = Arc::clone(&seen);
    svc.connect_usage_changed(move |u: PrivacyUsage| s.lock().unwrap().push(u.camera.len()));
    assert!(svc.media_usage_changed(vec!["∙ Cheese".to_string()], vec![], vec![]));
    assert!(!svc.media_usage_changed(vec!["∙ Cheese".to_string()], vec![], vec![]));
    assert!(svc.location_in_use_changed(true));
    assert_eq!(svc.get_usage().location, vec![LOCATION_IN_USE.to_string()]);
    assert_eq!(svc.get_usage().camera, vec!["∙ Cheese".to_string()]);
    assert!(!svc.location_in_use_changed(true));
    assert!(svc.location_in_use_changed(false));
    assert!(svc.get_usage().location.is_empty());
    assert!(svc.update_usage(PrivacyUsage::empty()));
    assert!(svc.get_usage().camera.is_empty());
    assert!(!svc.update_usage(PrivacyUsage::empty()));
    assert_eq!(seen.lock().unwrap().len(), 4);
}

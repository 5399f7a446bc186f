use agwaita::network::{HybridMonitor, NetworkPlan, NetworkService, NetworkState, NetworkType};

const IW_CONNECTED: &str = "Connected to 00:11:22:33:44:55 (on wlp2s0)\n\tSSID: Home\n\tfreq: 5180\n\tsignal: -60 dBm\n\ttx bitrate: 400.0 MBit/s\n";

fn wifi_state(connected: bool, strength: u8) -> NetworkState {
    NetworkState {
        network_type: NetworkType::Wifi,
        connected,
        wifi_strength: strength,
        interface: Some("wlp2s0".to_string()),
    }
}

#[test]
fn signal_level_is_read_from_iw() {
    assert_eq!(NetworkService::extract_signal_dbm(IW_CONNECTED), Some(-60));
    assert_eq!(NetworkService::extract_signal_dbm("Not connected."), None);
    assert_eq!(NetworkService::extract_signal_dbm("signal: strong\nsignal: -71 dBm"), Some(-71));
}

#[test]
fn wifi_strength_is_linear_between_bounds() {
    assert_eq!(NetworkService::parse_wifi_strength(IW_CONNECTED), 50);
    assert_eq!(NetworkService::parse_wifi_strength("\tsignal: -45 dBm"), 75);
    assert_eq!(NetworkService::parse_wifi_strength("\tsignal: -20 dBm"), 100);
    assert_eq!(NetworkService::parse_wifi_strength("\tsignal: -95 dBm"), 0);
    assert_eq!(NetworkService::parse_wifi_strength("no level here"), 50);
}

#[test]
fn plan_asks_iw_about_wireless_interface() {
    let link = "lo               UNKNOWN        00:00:00:00:00:00 <LOOPBACK,UP,LOWER_UP>\nwlp2s0           UP             aa:bb:cc:dd:ee:ff <BROADCAST,MULTICAST,UP,LOWER_UP>\n";
    let route = "default via 192.168.1.1 dev wlp2s0 proto dhcp metric 600\n";
    match NetworkService::plan(link, route) {
        NetworkPlan::QueryIw { interface, has_default_route } => {
            assert_eq!(interface, "wlp2s0");
            assert!(has_default_route);
        }
        _ => panic!("expected an iw query"),
    }
}

#[test]
fn plan_settles_wired_connection() {
    let link = "lo UNKNOWN\nenp3s0 UP 11:22:33:44:55:66\n";
    let route = "default via 10.0.0.1 dev enp3s0 proto dhcp\n";
    match NetworkService::plan(link, route) {
        NetworkPlan::Done(Some(s)) => {
            assert_eq!(s.network_type, NetworkType::Wired);
            assert!(s.connected);
            assert_eq!(s.wifi_strength, 0);
            assert_eq!(s.interface.as_deref(), Some("enp3s0"));
        }
        _ => panic!("expected a wired state"),
    }
}

#[test]
fn plan_without_interfaces_is_disconnected() {
    match NetworkService::plan("lo UNKNOWN 00:00:00:00:00:00\n", "") {
        NetworkPlan::Done(Some(s)) => {
            assert_eq!(s.network_type, NetworkType::Disconnected);
            assert!(!s.connected);
            assert!(s.interface.is_none());
        }
        _ => panic!("expected no network"),
    }
}

#[test]
fn after_iw_decides_wifi_connection() {
    let s = NetworkService::after_iw("wlp2s0".to_string(), true, Some(IW_CONNECTED.to_string()));
    assert_eq!(s.network_type, NetworkType::Wifi);
    assert!(s.connected);
    assert_eq!(s.wifi_strength, 50);
    let s = NetworkService::after_iw("wlp2s0".to_string(), true, Some("Not connected.".to_string()));
    assert!(!s.connected);
    assert_eq!(s.wifi_strength, 0);
    let s = NetworkService::after_iw("wlp2s0".to_string(), true, None);
    assert!(s.connected);
    assert_eq!(s.wifi_strength, 50);
    let s = NetworkService::after_iw("wlp2s0".to_string(), false, None);
    assert!(!s.connected);
    let s = NetworkService::after_iw("wlp2s0".to_string(), false, Some(IW_CONNECTED.to_string()));
    assert!(s.connected);
}

#[test]
fn service_keeps_state_when_probe_fails() {
    let mut svc = NetworkService::new(None);
    assert_eq!(svc.get_state().network_type, NetworkType::Disconnected);
    assert!(svc.refresh_state(Some(wifi_state(true, 80))));
    assert!(!svc.refresh_state(None));
    let st = svc.get_state();
    assert_eq!(st.wifi_strength, 80);
    assert!(NetworkService::wifi_polling_wanted(&st));
    assert!(!NetworkService::wifi_polling_wanted(&wifi_state(false, 0)));
}

#[test]
fn iwd_changes_that_matter() {
    let changed = vec!["State".to_string(), "Scanning".to_string()];
    assert!(NetworkService::iwd_change_is_relevant("net.connman.iwd.Station", &changed));
    assert!(!NetworkService::iwd_change_is_relevant("net.connman.iwd.Network", &changed));
    assert!(NetworkService::iwd_change_is_relevant("net.connman.iwd.Adapter", &vec!["Powered".to_string()]));
}

#[test]
fn monitor_reports_only_real_changes() {
    let svc = NetworkService::new(Some(wifi_state(true, 50)));
    let mut m = svc.monitor_network();
    assert_eq!(m.check(Some(wifi_state(true, 53))), None);
    assert_eq!(m.check(Some(wifi_state(true, 60))), Some((NetworkType::Wifi, true, 60)));
    assert_eq!(m.check(Some(wifi_state(true, 60))), None);
    assert_eq!(m.check(None), None);
    assert_eq!(m.check(Some(wifi_state(false, 60))), Some((NetworkType::Wifi, false, 60)));
}

#[test]
fn hybrid_monitor_polls_only_connected_wifi() {
    let wifi = NetworkState { network_type: NetworkType::Wifi, connected: true, wifi_strength: 60, interface: Some("wlan0".to_string()) };
    let wired = NetworkState { network_type: NetworkType::Wired, connected: true, wifi_strength: 0, interface: Some("eth0".to_string()) };
    let mut m = HybridMonitor::new();
    assert!(!m.polling());
    assert!(!m.polled(&wifi));
    assert!(m.changed(&wifi));
    assert!(m.polling());
    assert!(m.polled(&wifi));
    assert!(!m.polled(&wired));
    assert!(m.changed(&wired));
    assert!(!m.polling());
    assert!(!m.polled(&wifi));
}

use agwaita::bluetooth::{
    agent_reply, count_connected, device_dbus_path, format_modalias, pairing_envelope, AgentReply,
    BluetoothDevice, BluetoothError, BluetoothMonitor, BluetoothService, PairingEnvelope, PairingRequest,
    PairingRequestKind, PairingResponse, ScanStep,
};
use std::sync::{Arc, Mutex};
use tokio::sync::oneshot;

fn device(address: &str, connected: bool) -> BluetoothDevice {
    BluetoothDevice {
        path: device_dbus_path("hci0", address),
        address: address.to_string(),
        name: "Headset".to_string(),
        alias: "Headset".to_string(),
        icon: None,
        adapter: "hci0".to_string(),
        connected,
        paired: true,
        trusted: false,
        blocked: false,
        battery_percentage: Some(80),
        rssi: None,
        modalias: None,
    }
}

#[test]
fn test_pairing_envelope_display() {
    let envelope = PairingEnvelope {
        request: PairingRequest {
            device_address: "00:11:22:33:44:55".to_string(),
            kind: PairingRequestKind::DisplayPinCode { pincode: "123456".to_string() },
        },
        responder: None,
    };

    assert_eq!(envelope.request.device_address, "00:11:22:33:44:55");
    assert!(matches!(
        envelope.request.kind,
        PairingRequestKind::DisplayPinCode { ref pincode } if pincode == "123456"
    ));
    assert!(envelope.responder.is_none());
}

#[test]
fn test_pairing_envelope_interactive_response() {
    let (tx, rx) = oneshot::channel();
    let envelope = PairingEnvelope {
        request: PairingRequest {
            device_address: "AA:BB:CC:DD:EE:FF".to_string(),
            kind: PairingRequestKind::RequestConfirmation { passkey: 654321 },
        },
        responder: Some(tx),
    };

    assert!(envelope.responder.is_some());
    if let Some(responder) = envelope.responder {
        responder.send(PairingResponse::Confirm).unwrap();
    }

    let response = rx.blocking_recv().unwrap();
    assert!(matches!(response, PairingResponse::Confirm));
}

#[test]
fn envelopes_carry_a_responder_exactly_when_an_answer_is_awaited() {
    let e = pairing_envelope(
        "00:11:22:33:44:55".to_string(),
        PairingRequestKind::DisplayPasskey { passkey: 42, entered: 0 },
        None,
    )
    .expect("display requests need no responder");
    assert!(e.responder.is_none());
    assert_eq!(e.request.device_address, "00:11:22:33:44:55");
    let (tx, _rx) = oneshot::channel();
    assert!(pairing_envelope("a".to_string(), PairingRequestKind::DisplayPinCode { pincode: "1".to_string() }, Some(tx)).is_none());
    assert!(pairing_envelope("a".to_string(), PairingRequestKind::RequestPinCode, None).is_none());
    let (tx, _rx) = oneshot::channel();
    assert!(pairing_envelope("a".to_string(), PairingRequestKind::RequestAuthorization, Some(tx)).is_some());
    assert!(PairingRequestKind::RequestPasskey.waits_for_answer());
    assert!(!PairingRequestKind::DisplayPinCode { pincode: String::new() }.waits_for_answer());
}

#[test]
fn agent_replies_follow_the_response() {
    let confirm = PairingRequestKind::RequestConfirmation { passkey: 1 };
    assert_eq!(agent_reply(&confirm, Some(PairingResponse::Confirm)), AgentReply::Accepted);
    assert_eq!(agent_reply(&confirm, Some(PairingResponse::Reject)), AgentReply::Rejected);
    assert_eq!(agent_reply(&confirm, None), AgentReply::Rejected);
    assert_eq!(
        agent_reply(&PairingRequestKind::RequestPinCode, Some(PairingResponse::PinCode("0000".to_string()))),
        AgentReply::PinCode("0000".to_string())
    );
    assert_eq!(agent_reply(&PairingRequestKind::RequestPinCode, Some(PairingResponse::Passkey(5))), AgentReply::Rejected);
    assert_eq!(agent_reply(&PairingRequestKind::RequestPasskey, Some(PairingResponse::Passkey(5))), AgentReply::Passkey(5));
    assert_eq!(
        agent_reply(&PairingRequestKind::DisplayPinCode { pincode: "1".to_string() }, None),
        AgentReply::Accepted
    );
    let service = PairingRequestKind::RequestServiceAuthorization { service: "0000110b".to_string() };
    assert_eq!(agent_reply(&service, None), AgentReply::Rejected);
}

#[test]
fn paths_and_modaliases_are_formatted() {
    assert_eq!(device_dbus_path("hci0", "00:11:22:33:44:55"), "/org/bluez/hci0/dev_00_11_22_33_44_55");
    assert_eq!(format_modalias("usb", 0x1D6B, 0x0246, 0x0540), "usb:v1D6Bp0246d0540");
    assert_eq!(format_modalias("bluetooth", 0x4C, 0x12345, 0), "bluetooth:v004Cp12345d0000");
}

#[test]
fn errors_have_messages() {
    assert_eq!(BluetoothError::Adapter("down".to_string()).message(), "bluetooth adapter error: down");
    assert_eq!(BluetoothError::InvalidAddress("zz".to_string()).message(), "invalid bluetooth address: zz");
    assert_eq!(
        BluetoothError::NotMonitoring.message(),
        "no adapter currently monitored, start_dbus_monitor() first"
    );
}

#[test]
fn connected_devices_are_counted() {
    let devs = vec![device("00:00:00:00:00:01", true), device("00:00:00:00:00:02", false), device("00:00:00:00:00:03", true)];
    assert_eq!(count_connected(&devs), 2);
    let mut svc = BluetoothService::new();
    assert!(!svc.get_powered());
    svc.state_refreshed(Some(true), Some(devs));
    assert!(svc.get_powered());
    assert_eq!(svc.get_connected_count(), 2);
    svc.state_refreshed(None, None);
    assert_eq!(svc.get_devices().len(), 3);
    assert!(!svc.toggled_power());
    svc.powered_set(false);
    assert!(svc.toggled_power());
}

#[test]
fn discovery_needs_a_monitored_adapter() {
    let mut svc = BluetoothService::new();
    assert_eq!(svc.start_discovery(), Err(BluetoothError::NotMonitoring));
    assert_eq!(svc.monitored_adapter_name(), Err(BluetoothError::NotMonitoring));
    assert!(!svc.monitor_connected("hci0".to_string(), true));
    assert_eq!(svc.monitored_adapter_name(), Ok("hci0".to_string()));
    assert_eq!(svc.scan_toggled(false), ScanStep::Start);
    assert_eq!(svc.scan_toggled(true), ScanStep::Keep);
    assert_eq!(svc.stop_discovery(), Ok(()));
    assert_eq!(svc.scan_toggled(true), ScanStep::Stop);
    assert_eq!(svc.start_discovery(), Ok(()));
    svc.monitor_lost();
    assert_eq!(svc.stop_discovery(), Err(BluetoothError::NotMonitoring));
}

#[test]
fn scan_override_is_used_once() {
    let mut svc = BluetoothService::new();
    svc.set_scan_override(Some(true));
    assert!(svc.monitor_connected("hci0".to_string(), false));
    assert_eq!(svc.scan_toggled(true), ScanStep::Keep);
    assert!(!svc.monitor_connected("hci0".to_string(), false));
    assert_eq!(svc.scan_toggled(true), ScanStep::Stop);
    svc.set_scan_override(Some(false));
    assert!(!svc.monitor_connected("hci1".to_string(), true));
    assert_eq!(svc.scan_toggled(false), ScanStep::Stop);
}

#[test]
fn adapter_selection_and_device_signal() {
    let mut svc = BluetoothService::new();
    assert_eq!(svc.current_adapter_name(), None);
    let known = vec!["hci0".to_string(), "hci1".to_string()];
    assert!(svc.select_adapter("hci1".to_string(), &known).is_ok());
    assert_eq!(svc.current_adapter_name(), Some("hci1".to_string()));
    match svc.select_adapter("hci7".to_string(), &known) {
        Err(BluetoothError::Adapter(m)) => assert_eq!(m, "the target object was either not present or removed"),
        _ => panic!("an unknown adapter is refused"),
    }
    assert_eq!(svc.current_adapter_name(), Some("hci1".to_string()));
    let seen = Arc::new(Mutex::new(Vec::new()));
    let s = Arc::clone(&seen);
    svc.connect_device_added(move |d: BluetoothDevice| s.lock().unwrap().push(d.address));
    svc.announce_device_added(device("00:00:00:00:00:09", false));
    assert_eq!(*seen.lock().unwrap(), vec!["00:00:00:00:00:09".to_string()]);
}

#[test]
fn monitor_reports_power_and_count_changes() {
    let mut m = BluetoothMonitor::new(true, 1);
    assert_eq!(m.check(Some((true, 1))), None);
    assert_eq!(m.check(None), None);
    assert_eq!(m.check(Some((true, 2))), Some((true, 2)));
    assert_eq!(m.check(Some((false, 2))), Some((false, 2)));
    assert_eq!(m.check(Some((false, 2))), None);
}

#[test]
fn selecting_an_adapter_asks_the_monitor_to_switch() {
    let mut svc = BluetoothService::new();
    let known = vec!["hci0".to_string()];
    assert!(!svc.take_switch_request());
    assert!(svc.select_adapter("hci9".to_string(), &known).is_err());
    assert!(!svc.take_switch_request());
    assert!(svc.select_adapter("hci0".to_string(), &known).is_ok());
    assert!(svc.take_switch_request());
    assert!(!svc.take_switch_request());
    assert!(svc.refresh_outcome(Ok((Some(true), Some(vec![device("00:00:00:00:00:01", true)])))).is_ok());
    assert!(svc.get_powered());
    assert_eq!(svc.get_devices().len(), 1);
    match svc.refresh_outcome(Err(BluetoothError::NotMonitoring)) {
        Err(BluetoothError::NotMonitoring) => {},
        _ => panic!("the connection error is the result"),
    }
    assert!(svc.get_powered());
    assert!(svc.refresh_outcome(Ok((None, None))).is_ok());
    assert_eq!(svc.get_devices().len(), 1);
}

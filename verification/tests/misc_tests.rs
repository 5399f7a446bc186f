use agwaita::audio::{sink_listed, AudioSink, AudioState, PortAvailability};
use agwaita::battery::BatteryService;
use agwaita::brightness::{should_ignore, BrightnessState, DEBOUNCE_MS};
use agwaita::calendar::moment::{Date, Moment, WallClock};
use agwaita::cli::{BarAction, CliAction, CliStep, DndAction, NotificationAction};
use agwaita::systray::{Category, Status, StatusNotifierWatcher};
use agwaita::text::{chars_of, lines_of, parse_i32, parse_u32, push_padded, split_words, string_of, to_lower, trim_text};
use agwaita::time::{ClockReading, TimeService, TimeUnit};
use std::sync::{Arc, Mutex};

fn reading(ts: i64, year: i32, month: u32, day: u32, hour: u32, minute: u32, second: u32, week: (i32, u32)) -> ClockReading {
    ClockReading {
        now: Moment { timestamp: ts, local: WallClock { year, month, day, hour, minute, second } },
        second,
        minute,
        hour,
        day: Date { year, month, day },
        week_year: week.0,
        week: week.1,
        month_year: year,
        month,
        year,
    }
}

#[test]
fn text_helpers_behave() {
    assert_eq!(string_of(&trim_text(&chars_of("  a b \n"))), "a b");
    let ws = split_words(&chars_of(" one\ttwo  three "));
    assert_eq!(ws.len(), 3);
    assert_eq!(string_of(&ws[2]), "three");
    assert_eq!(parse_i32(&chars_of("-42")), Some(-42));
    assert_eq!(parse_i32(&chars_of("+7")), Some(7));
    assert_eq!(parse_i32(&chars_of("4x")), None);
    assert_eq!(parse_i32(&chars_of("2147483648")), None);
    assert_eq!(parse_u32(&chars_of("4294967295")), Some(u32::MAX));
    assert_eq!(parse_u32(&chars_of("")), None);
    let ls = lines_of(&chars_of("a\r\nb\nc"));
    assert_eq!(ls.iter().map(|l| string_of(l)).collect::<Vec<_>>(), vec!["a", "b", "c"]);
    let mut out = Vec::new();
    push_padded(0xAB, 16, 4, &mut out);
    assert_eq!(string_of(&out), "00AB");
    assert_eq!(to_lower("NiRi"), "niri");
}

#[test]
fn tray_categories_and_statuses() {
    assert_eq!(Category::try_from_str("Hardware"), Ok(Category::Hardware));
    assert_eq!(Category::try_from_str("Games"), Err("Unknown category: Games".to_string()));
    assert_eq!(Status::try_from_str("NeedsAttention"), Ok(Status::NeedsAttention));
    assert_eq!(Status::try_from_str("Sleeping"), Err("Unknown status: Sleeping".to_string()));
}

#[test]
fn watcher_registers_each_service_once() {
    let mut w = StatusNotifierWatcher::new();
    assert_eq!(
        w.register_status_notifier_item("/StatusNotifierItem", ":1.42"),
        Some(":1.42/StatusNotifierItem".to_string())
    );
    assert_eq!(w.register_status_notifier_item("org.kde.app", ":1.50"), Some("org.kde.app".to_string()));
    assert_eq!(w.register_status_notifier_item("org.kde.app", ":1.51"), None);
    assert_eq!(
        w.registered_status_notifier_items(),
        vec![":1.42/StatusNotifierItem".to_string(), "org.kde.app".to_string()]
    );
    assert!(w.is_status_notifier_host_registered());
    assert_eq!(w.protocol_version(), 0);
    assert_eq!(StatusNotifierWatcher::service_bus_name(":1.42/StatusNotifierItem"), ":1.42");
    assert_eq!(StatusNotifierWatcher::service_bus_name("org.kde.app"), "org.kde.app");
    assert_eq!(w.owner_vanished(":1.42"), Some(":1.42/StatusNotifierItem".to_string()));
    assert_eq!(w.owner_vanished(":1.42"), None);
    assert_eq!(w.registered_status_notifier_items(), vec!["org.kde.app".to_string()]);
}

#[test]
fn time_service_announces_changed_units() {
    let mut t = TimeService::with_reading(reading(0, 2024, 12, 31, 23, 59, 59, (2025, 1)));
    let minutes = Arc::new(Mutex::new(Vec::new()));
    let m = Arc::clone(&minutes);
    t.subscribe(TimeUnit::Minute, move |x: Moment| m.lock().unwrap().push(x.timestamp));
    let years = Arc::new(Mutex::new(0));
    let y = Arc::clone(&years);
    t.subscribe(TimeUnit::Year, move |_| *y.lock().unwrap() += 1);
    let c = t.tick_with(reading(1, 2025, 1, 1, 0, 0, 0, (2025, 1)));
    assert!(c.second && c.minute && c.hour && c.day && c.month && c.year);
    assert!(!c.week);
    let c = t.tick_with(reading(1, 2025, 1, 1, 0, 0, 0, (2025, 1)));
    assert!(!(c.second || c.minute || c.hour || c.day || c.week || c.month || c.year));
    let c = t.tick_with(reading(2, 2025, 1, 1, 0, 0, 1, (2025, 1)));
    assert!(c.second && !c.minute);
    assert_eq!(*minutes.lock().unwrap(), vec![1]);
    assert_eq!(*years.lock().unwrap(), 1);
}

#[test]
fn battery_signals_that_matter() {
    assert!(BatteryService::is_valid_path("/org/freedesktop/UPower/devices/DisplayDevice"));
    assert!(BatteryService::is_valid_path("/org/freedesktop/UPower/devices/battery_BAT0"));
    assert!(BatteryService::is_valid_path("/org/freedesktop/UPower"));
    assert!(!BatteryService::is_valid_path("/org/freedesktop/UPower/devices/line_power_AC"));
    assert!(BatteryService::is_relevant("org.freedesktop.UPower.Device", &vec!["State".to_string()]));
    assert!(!BatteryService::is_relevant("org.freedesktop.UPower.Device", &vec!["OnBattery".to_string()]));
    assert!(BatteryService::is_relevant("org.freedesktop.UPower", &vec!["OnBattery".to_string()]));
    assert!(BatteryService::is_charging(1));
    assert!(BatteryService::is_charging(5));
    assert!(!BatteryService::is_charging(2));
}

#[test]
fn cli_actions_map_to_daemon_commands() {
    assert_eq!(CliAction::AppLauncher.step(), CliStep::SendDaemonCommand("app-launcher toggle"));
    assert_eq!(
        CliAction::Bar { command: BarAction::Hide }.step(),
        CliStep::SendDaemonCommand("topbar hide")
    );
    assert_eq!(
        CliAction::Notification { command: NotificationAction::Dnd { command: DndAction::Status } }.step(),
        CliStep::SendDaemonCommand("dnd status")
    );
    assert_eq!(
        CliAction::Notification { command: NotificationAction::CloseLast }.step(),
        CliStep::SendDaemonCommand("notification close-last")
    );
    assert_eq!(CliAction::Session.step(), CliStep::StartSession);
    assert_eq!(CliAction::WallpaperManager.step(), CliStep::OpenWallpaperManager);
}

#[test]
fn brightness_files_are_read() {
    let s = BrightnessState::from_files(Some((Some("255\n".to_string()), Some(" 128 ".to_string()))));
    assert_eq!((s.max_brightness(), s.current_brightness()), (255, 128));
    let s = BrightnessState::from_files(Some((Some("bad".to_string()), None)));
    assert_eq!((s.max_brightness(), s.current_brightness()), (100, 50));
    let mut s = BrightnessState::from_files(None);
    assert_eq!((s.max_brightness(), s.current_brightness()), (100, 50));
    assert_eq!(BrightnessState::read_brightness_value("  42\n"), Some(42));
    assert_eq!(BrightnessState::read_brightness_value("-1"), None);
    s.set_raw(70);
    assert!(!s.observed(70));
    assert!(s.observed(71));
    assert!(should_ignore(Some(DEBOUNCE_MS - 1)));
    assert!(!should_ignore(Some(DEBOUNCE_MS)));
    assert!(!should_ignore(None));
}

fn sink(name: &str, vol: u32, mute: bool) -> AudioSink {
    AudioSink { name: name.to_string(), description: name.to_uppercase(), volume_raw: vol, is_mute: mute }
}

#[test]
fn audio_state_follows_default_sink() {
    assert!(!sink_listed(&vec![PortAvailability::No, PortAvailability::No]));
    assert!(sink_listed(&vec![PortAvailability::No, PortAvailability::Unknown]));
    assert!(!sink_listed(&vec![]));
    let mut a = AudioState::new(32768);
    assert_eq!((a.volume_raw(), a.is_muted()), (32768, false));
    assert_eq!(a.toggle_mute_command(), None);
    assert_eq!(a.sinks_listed(vec![sink("hdmi", 1000, false)]), None);
    a.server_info(Some("speakers".to_string()));
    assert_eq!(a.sinks_listed(vec![sink("hdmi", 1000, false), sink("speakers", 40000, true)]), Some((40000, true)));
    assert!(a.is_muted());
    assert_eq!(a.toggle_mute_command(), Some(("speakers".to_string(), false)));
    assert_eq!(a.volume_target().map(|s| s.volume_raw), Some(40000));
    assert_eq!(a.sinks_listed(vec![sink("hdmi", 1, false)]), None);
    assert_eq!(a.volume_raw(), 40000);
    assert!(a.volume_target().is_none());
}

#[test]
fn time_service_starts_once() {
    let mut t = TimeService::with_reading(reading(0, 2024, 12, 31, 23, 59, 59, (2025, 1)));
    assert!(t.start());
    assert!(!t.start());
    assert!(!t.start());
}

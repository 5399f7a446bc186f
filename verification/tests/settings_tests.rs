use agwaita::accent_color::{AccentColor, AccentColorService};
use agwaita::airplane_mode::{AirplaneModeService, DeviceStatus, RadioType, RfkillAction, RfkillCommand};
use agwaita::dark_mode::DarkModeService;
use agwaita::dnd::DndService;
use agwaita::error::{AgwError, FAILURE, SERVICE_ERROR, SIGINT, SUCCESS};
use agwaita::power_mode::{PowerModeService, PowerProfile};

#[test]
fn exit_codes_have_their_values() {
    assert_eq!(SUCCESS, 0);
    assert_eq!(FAILURE, 1);
    assert_eq!(SIGINT, 130);
    assert_eq!(SERVICE_ERROR, 50);
}

#[test]
fn error_renders_code_message_and_help() {
    let e = AgwError::with_help(1, "msg".to_string(), "h".to_string());
    assert_eq!(e.render(), "Error(1): msg\nhelp: h");
    let e = AgwError::new(-3, "boom".to_string());
    assert_eq!(e.render(), "Error(-3): boom");
    assert!(e.help.is_none());
    assert!(e.source.is_none());
}

#[test]
fn error_with_source_renders_debug_line() {
    let e = AgwError::with_source(50, "failed".to_string(), "io".to_string());
    assert_eq!(
        e.render(),
        "Error(50): failed\ndebug: Set `AGWAITA_LOG_LEVEL` to debug to view source error"
    );
    let e = AgwError::with_all(2, "m".to_string(), "h".to_string(), "s".to_string());
    assert_eq!(
        e.render(),
        "Error(2): m\nhelp: h\ndebug: Set `AGWAITA_LOG_LEVEL` to debug to view source error"
    );
    assert_eq!(e.source.as_deref(), Some("s"));
}

#[test]
fn accent_names_round_trip() {
    for c in AccentColor::all() {
        assert_eq!(AccentColor::from_str(c.as_str()), Some(c));
    }
    assert_eq!(AccentColor::all().len(), 9);
    assert_eq!(AccentColor::from_str("magenta"), None);
    assert_eq!(AccentColor::Slate.as_str(), "slate");
}

#[test]
fn accent_setting_is_trimmed_and_unquoted() {
    assert_eq!(AccentColorService::get_accent_color(Ok("'teal'\n".to_string())), AccentColor::Teal);
    assert_eq!(AccentColorService::get_accent_color(Ok("  'purple' ".to_string())), AccentColor::Purple);
    assert_eq!(AccentColorService::get_accent_color(Ok("'neon'".to_string())), AccentColor::Blue);
    assert_eq!(AccentColorService::get_accent_color(Err("no gsettings".to_string())), AccentColor::Blue);
    assert_eq!(AccentColorService::color_from_change("red"), AccentColor::Red);
    assert_eq!(AccentColorService::color_from_change("'red'"), AccentColor::Blue);
}

#[test]
fn dark_mode_reads_and_toggles() {
    assert!(DarkModeService::is_enabled(Ok("prefer-dark".to_string())));
    assert!(!DarkModeService::is_enabled(Ok("default".to_string())));
    assert!(!DarkModeService::is_enabled(Err("x".to_string())));
    assert_eq!(DarkModeService::enable(), "prefer-dark");
    assert_eq!(DarkModeService::disable(), "prefer-light");
    assert_eq!(DarkModeService::toggle(Ok("prefer-dark".to_string())), "prefer-light");
    assert_eq!(DarkModeService::toggle(Ok("prefer-light".to_string())), "prefer-dark");
    assert_eq!(DarkModeService::toggle(Err("x".to_string())), "prefer-dark");
    assert_eq!(DarkModeService::scheme_changed("prefer-dark"), Some(true));
    assert_eq!(DarkModeService::scheme_changed("prefer-light"), Some(false));
    assert_eq!(DarkModeService::scheme_changed("default"), None);
}

#[test]
fn dnd_follows_show_banners() {
    let mut s = DndService::new(Ok(true));
    assert!(!s.get_dont_disturb());
    assert!(!DndService::new(Err("x".to_string())).get_dont_disturb());
    assert!(DndService::new(Ok(false)).get_dont_disturb());
    assert_eq!(s.set_dont_disturb(true), false);
    assert!(s.get_dont_disturb());
    assert_eq!(s.toggle_dont_disturb(), true);
    assert!(!s.get_dont_disturb());
    assert_eq!(s.banners_changed(false), (true, true));
    assert_eq!(s.banners_changed(false), (true, false));
}

#[test]
fn dnd_toggle_twice_restores() {
    let mut s = DndService::new(Ok(false));
    let before = s.get_dont_disturb();
    s.toggle_dont_disturb();
    s.toggle_dont_disturb();
    assert_eq!(s.get_dont_disturb(), before);
}

#[test]
fn power_profiles_map_names() {
    assert_eq!(PowerProfile::from_str("power-saver"), PowerProfile::PowerSaver);
    assert_eq!(PowerProfile::from_str("performance"), PowerProfile::Performance);
    assert_eq!(PowerProfile::from_str("turbo"), PowerProfile::Balanced);
    for p in [PowerProfile::PowerSaver, PowerProfile::Balanced, PowerProfile::Performance] {
        assert_eq!(PowerProfile::from_str(p.as_str()), p);
    }
}

#[test]
fn power_service_keeps_profile_until_daemon_accepts() {
    let mut s = PowerModeService::new(Ok("performance".to_string()));
    assert_eq!(s.get_active_profile(), PowerProfile::Performance);
    assert_eq!(PowerModeService::new(Err("x".to_string())).get_active_profile(), PowerProfile::Balanced);
    let r = s.set_active_profile(PowerProfile::PowerSaver, Err("denied".to_string()));
    assert_eq!(r, Err("denied".to_string()));
    assert_eq!(s.get_active_profile(), PowerProfile::Performance);
    assert_eq!(s.set_active_profile(PowerProfile::PowerSaver, Ok(())), Ok(()));
    assert_eq!(s.get_active_profile(), PowerProfile::PowerSaver);
    assert_eq!(s.profile_changed("power-saver"), None);
    assert_eq!(s.profile_changed("balanced"), Some(PowerProfile::Balanced));
    assert_eq!(PowerModeService::profile_from_reading(Ok("performance".to_string())), PowerProfile::Performance);
}

fn dev(enabled: bool) -> DeviceStatus {
    DeviceStatus { device_type: "wlan".to_string(), device_name: "phy0".to_string(), enabled }
}

#[test]
fn airplane_mode_is_on_when_all_blocked() {
    assert!(AirplaneModeService::is_enabled_static(Ok(vec![dev(false), dev(false)])));
    assert!(!AirplaneModeService::is_enabled_static(Ok(vec![dev(false), dev(true)])));
    assert!(AirplaneModeService::is_enabled_static(Ok(vec![])));
    assert!(!AirplaneModeService::is_enabled_static(Err("no rfkill".to_string())));
    let d = DeviceStatus::from_rfkill("bluetooth".to_string(), "hci0".to_string(), "unblocked", "blocked");
    assert!(!d.enabled);
    let d = DeviceStatus::from_rfkill("bluetooth".to_string(), "hci0".to_string(), "unblocked", "unblocked");
    assert!(d.enabled);
    assert_eq!(d.device_name, "hci0");
}

#[test]
fn airplane_commands_block_then_unblock() {
    let on = AirplaneModeService::enable();
    assert_eq!(
        on,
        vec![
            RfkillCommand { action: RfkillAction::Block, radio: RadioType::Wifi },
            RfkillCommand { action: RfkillAction::Block, radio: RadioType::Bluetooth },
        ]
    );
    let off = AirplaneModeService::disable();
    assert_eq!(off[0].action_arg(), "unblock");
    assert_eq!(off[1].radio_arg(), "bluetooth");
    let s = AirplaneModeService::new(Ok(vec![dev(true)]));
    assert_eq!(s.toggle(Ok(vec![dev(true)])), on);
    assert_eq!(s.toggle(Ok(vec![dev(false)])), off);
    assert_eq!(on[0].failure("exit 1"), "Failed to block wifi: exit 1");
}

#[test]
fn airplane_plan_result_reports_first_error() {
    assert_eq!(AirplaneModeService::plan_result(&vec![Ok(()), Ok(())]), Ok(()));
    assert_eq!(
        AirplaneModeService::plan_result(&vec![Ok(()), Err("a".to_string()), Err("b".to_string())]),
        Err("a".to_string())
    );
}

#[test]
fn airplane_observe_reports_changes_once() {
    let mut s = AirplaneModeService::new(Ok(vec![dev(true)]));
    assert!(!s.observe(false));
    assert!(s.observe(true));
    assert!(!s.observe(true));
    assert!(s.observe(false));
}

#[test]
fn airplane_plan_stops_at_the_first_failure() {
    let plan = AirplaneModeService::enable();
    assert_eq!(AirplaneModeService::next_command(&plan, &vec![]), Some(0));
    assert_eq!(AirplaneModeService::next_command(&plan, &vec![Ok(())]), Some(1));
    assert_eq!(AirplaneModeService::next_command(&plan, &vec![Ok(()), Ok(())]), None);
    let failed = vec![Err("Failed to block wifi: no rfkill".to_string())];
    assert_eq!(AirplaneModeService::next_command(&plan, &failed), None);
    assert_eq!(AirplaneModeService::plan_result(&failed), Err("Failed to block wifi: no rfkill".to_string()));
}

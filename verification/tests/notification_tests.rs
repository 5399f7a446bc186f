use agwaita::notifications::action::Action;
use agwaita::notifications::daemon::{Daemon, DAEMON_NAME, DEFAULT_TIMEOUT};
use agwaita::notifications::notification::Notification;
use agwaita::notifications::send::{
    mark_sent, on_action_invoked, on_notification_closed, prepare_send, NotificationSender, NOT_A_DRAFT,
};
use agwaita::notifications::types::{ClosedReason, HintValue, State, Urgency};
use std::sync::{Arc, Mutex};

fn notify(d: &mut Daemon, replaces: u32, summary: &str, timeout: i32) -> (u32, bool, Option<u64>) {
    let o = d.notify_at(
        "app".to_string(),
        replaces,
        "icon".to_string(),
        summary.to_string(),
        "body".to_string(),
        vec!["ok".to_string(), "OK".to_string(), "dangling".to_string()],
        vec![
            ("urgency".to_string(), HintValue::Byte(2)),
            ("image-data".to_string(), HintValue::Other),
            ("category".to_string(), HintValue::Str("a".to_string())),
            ("category".to_string(), HintValue::Str("b".to_string())),
        ],
        timeout,
        1_700_000_000,
    );
    (o.id, o.replaced, o.expire_after_ms)
}

#[test]
fn urgency_and_reason_codes() {
    assert_eq!(Urgency::from_u8(0), Urgency::Low);
    assert_eq!(Urgency::from_u8(2), Urgency::Critical);
    assert_eq!(Urgency::from_u8(7), Urgency::Normal);
    assert_eq!(Urgency::from_i64(-1), Urgency::Normal);
    assert_eq!(Urgency::Critical.as_u8(), 2);
    assert_eq!(Urgency::default(), Urgency::Normal);
    for r in [ClosedReason::Expired, ClosedReason::DismissedByUser, ClosedReason::Closed, ClosedReason::Undefined] {
        assert_eq!(ClosedReason::from_u32(r.code()), r);
    }
    assert_eq!(ClosedReason::from_u32(99), ClosedReason::Undefined);
    for u in [Urgency::Low, Urgency::Normal, Urgency::Critical] {
        assert_eq!(Urgency::from_u8(u.as_u8()), u);
    }
}

#[test]
fn action_list_pairs_ids_and_labels() {
    let actions = Action::new_list(vec!["a".to_string(), "A".to_string(), "b".to_string(), "B".to_string(), "c".to_string()]);
    assert_eq!(actions.len(), 2);
    assert_eq!(actions[1].id(), "b");
    assert_eq!(actions[1].label(), "B");
    let mut a = Action::new("x".to_string(), "X".to_string());
    let hits = Arc::new(Mutex::new(0));
    let h = Arc::clone(&hits);
    a.connect_invoked(move |_| *h.lock().unwrap() += 1);
    a.invoke();
    a.invoke();
    assert_eq!(*hits.lock().unwrap(), 2);
}

#[test]
fn draft_fields_and_hints() {
    let mut n = Notification::new();
    assert_eq!(n.state(), State::Draft);
    assert_eq!(n.expire_timeout(), -1);
    n.set_summary("hello".to_string());
    n.set_urgency(Urgency::Low);
    n.set_category("im".to_string());
    n.set_resident(true);
    n.set_x(10);
    assert_eq!(n.summary(), "hello");
    assert_eq!(n.urgency(), Urgency::Low);
    assert_eq!(n.category(), "im");
    assert!(n.resident());
    assert_eq!(n.x(), 10);
    assert_eq!(n.y(), 0);
    assert_eq!(n.image(), "");
    n.set_category("email".to_string());
    assert_eq!(n.category(), "email");
    assert_eq!(n.get_hint("category"), Some(HintValue::Str("email".to_string())));
    n.add_action(Action::new("open".to_string(), "Open".to_string()));
    assert_eq!(n.action_pairs(), vec![("open".to_string(), "Open".to_string())]);
}

#[test]
fn sent_notification_is_frozen() {
    let mut n = Notification::new();
    n.set_summary("s".to_string());
    mark_sent(&mut n, 7, 1234);
    assert_eq!(n.state(), State::Sent);
    assert_eq!(n.id(), 7);
    assert_eq!(n.time(), 1234);
    n.set_summary("changed".to_string());
    assert_eq!(n.summary(), "s");
    assert!(!n.dismiss());
    assert!(!n.invoke("x"));
    match prepare_send(&n, "fallback".to_string()) {
        Err(e) => assert_eq!(e, NOT_A_DRAFT),
        Ok(_) => panic!("a sent notification is no draft"),
    }
}

#[test]
fn prepare_send_flattens_actions_and_names_app() {
    let n = NotificationSender::new()
        .summary("Hi".to_string())
        .body("there".to_string())
        .urgency(Urgency::Critical)
        .timeout(3000)
        .add_action(Action::new("reply".to_string(), "Reply".to_string()))
        .into_notification();
    let o = prepare_send(&n, "agw".to_string()).expect("a draft");
    assert_eq!(o.app_name, "agw");
    assert_eq!(o.summary, "Hi");
    assert_eq!(o.body, "there");
    assert_eq!(o.expire_timeout, 3000);
    assert_eq!(o.actions, vec!["reply".to_string(), "Reply".to_string()]);
    assert_eq!(o.hints, vec![("urgency".to_string(), HintValue::Byte(2))]);
    let n = NotificationSender::new().app_name("mine".to_string()).into_notification();
    assert_eq!(prepare_send(&n, "agw".to_string()).expect("draft").app_name, "mine");
}

#[test]
fn server_answers_reach_the_sent_notification() {
    let mut n = Notification::new();
    let closed = Arc::new(Mutex::new(Vec::new()));
    let c = Arc::clone(&closed);
    n.connect_resolved(move |r| c.lock().unwrap().push(r));
    let invoked = Arc::new(Mutex::new(Vec::new()));
    let i = Arc::clone(&invoked);
    n.connect_invoked(move |a| i.lock().unwrap().push(a));
    assert!(!on_notification_closed(&mut n, 5, 6, 1));
    assert!(on_notification_closed(&mut n, 5, 5, 2));
    assert!(on_action_invoked(&mut n, 5, 5, "reply".to_string()));
    assert!(!on_action_invoked(&mut n, 5, 4, "other".to_string()));
    assert_eq!(*closed.lock().unwrap(), vec![ClosedReason::DismissedByUser]);
    assert_eq!(*invoked.lock().unwrap(), vec!["reply".to_string()]);
}

#[test]
fn daemon_reports_capabilities_and_identity() {
    let d = Daemon::new();
    assert_eq!(d.get_capabilities(), vec!["actions", "body", "body-markup", "icon-static"]);
    let info = d.get_server_information();
    assert_eq!(info.0, DAEMON_NAME);
    assert_eq!((info.1.as_str(), info.2.as_str(), info.3.as_str()), ("agwaita", "0.1", "1.2"));
}

#[test]
fn daemon_assigns_ids_and_replaces() {
    let mut d = Daemon::new();
    let seen = Arc::new(Mutex::new(Vec::new()));
    let s = Arc::clone(&seen);
    d.connect_notified(move |x| s.lock().unwrap().push(x));
    assert_eq!(notify(&mut d, 0, "first", 0), (1, false, Some(DEFAULT_TIMEOUT as u64)));
    assert_eq!(notify(&mut d, 0, "second", -1), (2, false, None));
    assert_eq!(notify(&mut d, 1, "first again", 1500), (1, true, Some(1500)));
    assert_eq!(notify(&mut d, 42, "third", 0), (3, false, Some(5000)));
    assert_eq!(*seen.lock().unwrap(), vec![(1, false), (2, false), (1, true), (3, false)]);
    assert_eq!(d.notifications().len(), 3);
    let n = d.get_notif(1).expect("stored");
    assert_eq!(n.summary(), "first again");
    assert_eq!(n.state(), State::Received);
    assert_eq!(n.urgency(), Urgency::Critical);
    assert_eq!(n.category(), "b");
    assert!(n.get_hint("image-data").is_none());
    assert_eq!(n.action_pairs().len(), 1);
}

#[test]
fn get_notification_answers_or_refuses() {
    let mut d = Daemon::new();
    notify(&mut d, 0, "hello", 0);
    let data = d.get_notification(1).expect("found");
    assert_eq!(data.summary, "hello");
    assert_eq!(data.app_name, "app");
    assert_eq!(data.expire_timeout, 5000);
    assert_eq!(data.time, 1_700_000_000);
    assert_eq!(data.actions, vec!["ok".to_string(), "OK".to_string()]);
    match d.get_notification(9) {
        Err(e) => assert_eq!(e, "notification not found"),
        Ok(_) => panic!("no notification 9"),
    }
}

#[test]
fn resolving_removes_and_signals() {
    let mut d = Daemon::new();
    let resolved = Arc::new(Mutex::new(Vec::new()));
    let r = Arc::clone(&resolved);
    d.connect_resolved(move |x| r.lock().unwrap().push(x));
    notify(&mut d, 0, "a", 0);
    notify(&mut d, 0, "b", 0);
    notify(&mut d, 0, "c", 0);
    d.close_notification(2);
    assert!(d.get_notif(2).is_none());
    assert!(!d.dismiss_notification(2));
    assert!(d.dismiss_notification(1));
    assert!(d.expire_timed_out(3));
    assert!(d.notifications().is_empty());
    assert_eq!(
        *resolved.lock().unwrap(),
        vec![(2, ClosedReason::Closed), (1, ClosedReason::DismissedByUser), (3, ClosedReason::Expired)]
    );
    assert_eq!(notify(&mut d, 0, "d", 0).0, 4);
}

#[test]
fn invoking_an_action_closes_unless_resident() {
    let mut d = Daemon::new();
    notify(&mut d, 0, "plain", 0);
    d.notify_at(
        "app".to_string(),
        0,
        String::new(),
        "resident".to_string(),
        String::new(),
        vec![],
        vec![("resident".to_string(), HintValue::Bool(true))],
        0,
        0,
    );
    assert!(d.invoke_action(2, "default"));
    assert!(d.get_notif(2).is_some());
    assert!(d.invoke_action(1, "ok"));
    assert!(d.get_notif(1).is_none());
    assert!(!d.invoke_action(1, "ok"));
}

#[test]
fn notify_stamps_the_current_time() {
    let mut d = Daemon::new();
    let o = d.notify(
        "app".to_string(),
        0,
        String::new(),
        "now".to_string(),
        String::new(),
        vec![],
        vec![],
        0,
    );
    assert_eq!(o.id, 1);
    assert!(d.get_notification(1).expect("stored").time > 1_600_000_000);
}

#[test]
fn activating_an_added_action_reaches_both_handlers() {
    let mut n = Notification::new();
    let own = Arc::new(Mutex::new(0));
    let o = Arc::clone(&own);
    let mut action = Action::new("open".to_string(), "Open".to_string());
    action.connect_invoked(move |_| *o.lock().unwrap() += 1);
    n.add_action(action);
    let seen = Arc::new(Mutex::new(Vec::new()));
    let s = Arc::clone(&seen);
    n.connect_invoked(move |id| s.lock().unwrap().push(id));
    assert!(n.activate_action(0));
    assert!(!n.activate_action(1));
    assert_eq!(*own.lock().unwrap(), 1);
    assert_eq!(*seen.lock().unwrap(), vec!["open".to_string()]);
}

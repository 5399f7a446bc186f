use agwaita::calendar::event::CalendarEvent;
use agwaita::calendar::ical::{
    parse_components, recurrence_rule_to_string, CalValue, DateParts, Property, Frequency, RecurrenceRule, RuleDay,
    RuleMonth, Weekday,
};
use agwaita::calendar::moment::{is_valid_date, Date, Moment, WallClock};
use agwaita::calendar::service::{assemble_month, month_from_outcomes, number_occurrences, year_around, CalendarService, OccurrenceTemplate};

const SOURCE: &str = "[Data Source]\nDisplayName=Work\n\n[Calendar]\nBackendName=caldav\nColor= #ff0000 \nSelected=true\n";

fn calendar(body: &str) -> String {
    format!("BEGIN:VCALENDAR\r\nVERSION:2.0\r\nPRODID:-//test//EN\r\n{}END:VCALENDAR\r\n", body)
}

fn single_event() -> String {
    calendar(
        "BEGIN:VEVENT\r\nUID:evt-1\r\nSUMMARY:Standup\r\nDTSTART:20240315T100000\r\nDTEND:20240315T103000\r\nLOCATION:Room 1\r\nEND:VEVENT\r\n",
    )
}

fn daily_event() -> String {
    calendar(
        "BEGIN:VEVENT\r\nUID:rec-1\r\nSUMMARY:Gym\r\nDTSTART:20240301T090000\r\nDTEND:20240301T093000\r\nRRULE:FREQ=DAILY;COUNT=3\r\nEND:VEVENT\r\n",
    )
}

fn wall(year: i32, month: u32, day: u32, hour: u32, minute: u32) -> WallClock {
    WallClock { year, month, day, hour, minute, second: 0 }
}

fn moment(ts: i64, w: WallClock) -> Moment {
    Moment { timestamp: ts, local: w }
}

fn event(uid: &str, start: Moment) -> CalendarEvent {
    CalendarEvent::builder()
        .uid(uid.to_string())
        .summary("s".to_string())
        .all_day(false)
        .start(start)
        .end(start)
        .build()
}

#[test]
fn source_data_is_recognised_and_colored() {
    assert!(CalendarService::is_calendar_source(SOURCE));
    assert!(!CalendarService::is_calendar_source("[Calendar]\nBackendName=contacts\n"));
    assert_eq!(CalendarService::extract_calendar_color(SOURCE), Some("#ff0000".to_string()));
    assert_eq!(
        CalendarService::extract_calendar_color("[Calendar]\nBackendName=local\n[Other]\nColor=#00ff00\n"),
        None
    );
    assert_eq!(CalendarService::extract_calendar_color("Color=#123456\n"), None);
}

#[test]
fn register_calendar_only_once() {
    let mut svc = CalendarService::new();
    assert!(svc.register_calendar_uid("cal1", SOURCE));
    assert!(!svc.register_calendar_uid("cal1", SOURCE));
}

#[test]
fn ical_text_is_parsed_into_components() {
    let comps = parse_components(&single_event()).expect("a calendar");
    assert_eq!(comps.len(), 2);
    assert_eq!(comps.iter().filter(|c| c.is_event).count(), 1);
    assert!(parse_components("this is not a calendar").is_none());
    let raw = CalendarService::parse_raw_components(&vec![single_event(), daily_event()], "cal1");
    assert_eq!(raw.len(), 2);
    assert!(raw.iter().all(|(cal, c)| cal == "cal1" && c.is_event));
}

#[test]
fn single_event_appears_on_its_day() {
    let mut svc = CalendarService::new();
    svc.register_calendar_uid("cal1", SOURCE);
    let raw = CalendarService::parse_raw_components(&vec![single_event()], "cal1");
    assert!(svc.objects_added(raw));
    let evs = svc.get_events_for_date(Date { year: 2024, month: 3, day: 15 });
    assert_eq!(evs.len(), 1);
    let e = &evs[0];
    assert_eq!(e.uid, "evt-1");
    assert_eq!(e.summary, "Standup");
    assert_eq!(e.color.as_deref(), Some("#ff0000"));
    assert_eq!(e.location.as_deref(), Some("Room 1"));
    assert_eq!(e.description.as_deref(), Some(""));
    assert!(!e.is_all_day);
    assert_eq!((e.start.local.hour, e.start.local.minute), (10, 0));
    assert_eq!(e.end.timestamp - e.start.timestamp, 1800);
    assert!(svc.get_events_for_date(Date { year: 2024, month: 3, day: 16 }).is_empty());
    let days = svc.get_days_with_events(2024, 3);
    assert_eq!(days.len(), 1);
    assert!(days.contains(&15));
    assert!(svc.get_days_with_events(2024, 4).is_empty());
}

#[test]
fn recurring_event_expands_into_named_occurrences() {
    let mut svc = CalendarService::new();
    let raw = CalendarService::parse_raw_components(&vec![daily_event()], "cal1");
    svc.objects_added(raw);
    let days = svc.get_days_with_events(2024, 3);
    assert_eq!(days.len(), 3);
    for d in 1..=3u32 {
        assert!(days.contains(&d));
        let evs = svc.get_events_for_date(Date { year: 2024, month: 3, day: d });
        assert_eq!(evs.len(), 1);
        assert_eq!(evs[0].uid, format!("rec-1-occurrence-{}", d - 1));
        assert_eq!(evs[0].summary, "Gym");
        assert_eq!(evs[0].color.as_deref(), Some("@accent_color"));
        assert_eq!(evs[0].end.timestamp - evs[0].start.timestamp, 1800);
    }
}

#[test]
fn all_day_events_come_first() {
    let body = "BEGIN:VEVENT\r\nUID:late\r\nSUMMARY:Late\r\nDTSTART:20240510T180000\r\nEND:VEVENT\r\n\
BEGIN:VEVENT\r\nUID:early\r\nSUMMARY:Early\r\nDTSTART:20240510T080000\r\nEND:VEVENT\r\n\
BEGIN:VEVENT\r\nUID:holiday\r\nSUMMARY:Holiday\r\nDTSTART;VALUE=DATE:20240510\r\nEND:VEVENT\r\n";
    let mut svc = CalendarService::new();
    svc.objects_added(CalendarService::parse_raw_components(&vec![calendar(body)], "c"));
    let evs = svc.get_events_for_date(Date { year: 2024, month: 5, day: 10 });
    let uids: Vec<&str> = evs.iter().map(|e| e.uid.as_str()).collect();
    assert_eq!(uids, vec!["holiday", "early", "late"]);
    assert!(evs[0].is_all_day);
}

#[test]
fn later_component_with_same_uid_wins() {
    let first = calendar("BEGIN:VEVENT\r\nUID:dup\r\nSUMMARY:Old\r\nDTSTART:20240601T100000\r\nEND:VEVENT\r\n");
    let second = calendar("BEGIN:VEVENT\r\nUID:dup\r\nSUMMARY:New\r\nDTSTART:20240601T110000\r\nEND:VEVENT\r\n");
    let mut svc = CalendarService::new();
    svc.objects_added(CalendarService::parse_raw_components(&vec![first, second], "c"));
    let evs = svc.get_events_for_date(Date { year: 2024, month: 6, day: 1 });
    assert_eq!(evs.len(), 1);
    assert_eq!(evs[0].summary, "New");
}

#[test]
fn modified_components_replace_and_removal_rereads() {
    let mut svc = CalendarService::new();
    svc.objects_added(CalendarService::parse_raw_components(&vec![single_event()], "c"));
    assert_eq!(svc.get_events_for_date(Date { year: 2024, month: 3, day: 15 }).len(), 1);
    let moved = calendar("BEGIN:VEVENT\r\nUID:evt-1\r\nSUMMARY:Standup\r\nDTSTART:20240318T100000\r\nEND:VEVENT\r\n");
    svc.objects_modified(CalendarService::parse_raw_components(&vec![moved], "c"));
    assert!(svc.get_events_for_date(Date { year: 2024, month: 3, day: 15 }).is_empty());
    assert_eq!(svc.get_events_for_date(Date { year: 2024, month: 3, day: 18 }).len(), 1);
    svc.objects_removed();
    let days = svc.get_days_with_events(2024, 3);
    assert_eq!(days.len(), 1);
    assert!(days.contains(&18));
}

#[test]
fn empty_addition_changes_nothing() {
    let mut svc = CalendarService::new();
    assert!(!svc.objects_added(Vec::new()));
}

#[test]
fn recurrence_rule_is_written_back() {
    let rule = RecurrenceRule {
        freq: Frequency::Weekly,
        until: Some(DateParts {
            year: Some(2024),
            month: Some(12),
            day: Some(31),
            hour: None,
            minute: None,
            second: None,
            tz_hour: None,
            tz_minute: None,
        }),
        count: None,
        interval: Some(2),
        byday: vec![
            RuleDay { ordwk: None, weekday: Weekday::Monday },
            RuleDay { ordwk: Some(-1), weekday: Weekday::Friday },
        ],
        bymonthday: vec![1, -1],
        bymonth: vec![RuleMonth { month: 3, leap: false }],
    };
    assert_eq!(
        recurrence_rule_to_string(&rule),
        "FREQ=WEEKLY;UNTIL=20241231T000000Z;INTERVAL=2;BYDAY=MO,-1FR;BYMONTHDAY=1,-1;BYMONTH=3"
    );
    let simple = RecurrenceRule {
        freq: Frequency::Daily,
        until: None,
        count: Some(3),
        interval: None,
        byday: vec![],
        bymonthday: vec![],
        bymonth: vec![],
    };
    assert_eq!(recurrence_rule_to_string(&simple), "FREQ=DAILY;COUNT=3");
}

#[test]
fn rule_set_text_lists_exdates() {
    let ex = moment(0, wall(2024, 3, 2, 9, 0));
    let s = CalendarService::rule_set_string(&wall(2024, 3, 1, 9, 0), "FREQ=DAILY;COUNT=3", &vec![ex]);
    assert_eq!(s, "DTSTART:20240301T090000\nRRULE:FREQ=DAILY;COUNT=3\nEXDATE:20240302T090000");
}

#[test]
fn occurrences_are_numbered() {
    let t = OccurrenceTemplate {
        uid: "u".to_string(),
        summary: "S".to_string(),
        description: "D".to_string(),
        location: "L".to_string(),
        color: "C".to_string(),
        is_all_day: true,
    };
    let a = moment(100, wall(2024, 1, 1, 0, 0));
    let b = moment(200, wall(2024, 1, 2, 0, 0));
    let evs = CalendarService::occurrence_events(&t, &vec![(0, a, a), (7, b, b)]);
    assert_eq!(evs[0].uid, "u-occurrence-0");
    assert_eq!(evs[1].uid, "u-occurrence-7");
    assert_eq!(evs[1].location.as_deref(), Some("L"));
    assert_eq!(evs[1].calendar_name.as_deref(), Some(""));
    assert!(evs[0].is_all_day);
}

#[test]
fn exception_replaces_its_occurrence() {
    let a = moment(1000, wall(2024, 3, 1, 9, 0));
    let b = moment(2000, wall(2024, 3, 2, 9, 0));
    let events = vec![event("rec-1-occurrence-0", a), event("rec-1-occurrence-1", b), event("other", b)];
    let moved = event("rec-1", moment(3000, wall(2024, 3, 2, 14, 0)));
    let out = CalendarService::apply_exception(&events, "rec-1", Some(b), moved.clone());
    let uids: Vec<&str> = out.iter().map(|e| e.uid.as_str()).collect();
    assert_eq!(uids, vec!["rec-1-occurrence-0", "other", "rec-1"]);
    let kept = CalendarService::apply_exception(&events, "rec-1", None, moved);
    assert_eq!(kept.len(), 4);
}

#[test]
fn events_sort_all_day_then_by_start() {
    let mut all_day = event("a", moment(500, wall(2024, 1, 1, 0, 0)));
    all_day.is_all_day = true;
    let early = event("b", moment(100, wall(2024, 1, 1, 8, 0)));
    let late = event("c", moment(900, wall(2024, 1, 1, 18, 0)));
    let sorted = CalendarService::sort_day_events(vec![late, all_day, early]);
    let uids: Vec<&str> = sorted.iter().map(|e| e.uid.as_str()).collect();
    assert_eq!(uids, vec!["a", "b", "c"]);
}

#[test]
fn builder_requires_mandatory_fields() {
    assert!(CalendarEvent::builder().uid("x".to_string()).try_build().is_none());
    let m = moment(0, wall(2024, 2, 29, 12, 0));
    let e = CalendarEvent::builder()
        .uid("x".to_string())
        .summary("y".to_string())
        .all_day(false)
        .start(m)
        .end(m)
        .location("here".to_string())
        .try_build()
        .expect("complete");
    assert_eq!(e.location.as_deref(), Some("here"));
    assert!(e.description.is_none());
    assert!(e.is_on_date(&moment(5, wall(2024, 2, 29, 23, 0))));
    assert!(!e.is_on_date(&moment(5, wall(2024, 3, 1, 0, 0))));
    assert!(e.is_happening_at(&m));
    assert!(!e.is_upcoming_at(&m));
}

#[test]
fn dates_are_checked() {
    assert!(is_valid_date(2024, 2, 29));
    assert!(!is_valid_date(2023, 2, 29));
    assert!(!is_valid_date(2024, 13, 1));
    assert!(!is_valid_date(2024, 4, 31));
}

#[test]
fn utc_start_is_read_as_an_instant() {
    let body = "BEGIN:VEVENT\r\nUID:utc-1\r\nSUMMARY:Call\r\nDTSTART:20240315T100000Z\r\nDTEND:20240315T110000Z\r\nEND:VEVENT\r\n";
    let comps = CalendarService::parse_raw_components(&vec![calendar(body)], "c");
    assert_eq!(comps.len(), 1);
    let from = Date { year: 2024, month: 3, day: 1 };
    let to = Date { year: 2024, month: 4, day: 1 };
    let e = CalendarService::parse_component_to_event(&comps[0].1, from, to, "c", &vec![])
        .expect("starts in March");
    assert_eq!(e.start.timestamp, 1_710_496_800);
    assert_eq!(e.end.timestamp, 1_710_500_400);
    assert!(!e.is_all_day);
    assert!(CalendarService::parse_component_to_event(&comps[0].1, to, Date { year: 2024, month: 5, day: 1 }, "c", &vec![]).is_none());
}

#[test]
fn utc_values_read_as_their_instant() {
    let v = CalValue::DateTime(DateParts {
        year: Some(2024),
        month: Some(1),
        day: Some(15),
        hour: Some(10),
        minute: Some(0),
        second: Some(0),
        tz_hour: Some(0),
        tz_minute: Some(0),
    });
    let (m, all_day) = CalendarService::parse_datetime_value(&v).expect("a UTC value always reads");
    assert_eq!(m.timestamp, 1705312800);
    assert!(!all_day);
    let leap = CalValue::DateTime(DateParts {
        year: Some(2000),
        month: Some(2),
        day: Some(29),
        hour: Some(23),
        minute: Some(59),
        second: Some(59),
        tz_hour: Some(0),
        tz_minute: None,
    });
    assert_eq!(CalendarService::parse_datetime_value(&leap).unwrap().0.timestamp, 951868799);
    let before_epoch = CalValue::DateTime(DateParts {
        year: Some(1969),
        month: Some(12),
        day: Some(31),
        hour: Some(0),
        minute: Some(0),
        second: Some(0),
        tz_hour: Some(0),
        tz_minute: Some(0),
    });
    assert_eq!(CalendarService::parse_datetime_value(&before_epoch).unwrap().0.timestamp, -86400);
}

#[test]
fn occurrences_are_numbered_within_the_month() {
    let w = wall(2024, 3, 1, 9, 0);
    let found = vec![moment(100, w), moment(200, w), moment(300, w), moment(400, w)];
    let ends = vec![Some(moment(150, w)), None, Some(moment(350, w)), Some(moment(450, w))];
    let occ = number_occurrences(&found, &ends, 400);
    assert_eq!(occ.len(), 2);
    assert_eq!(occ[0], (0, moment(100, w), moment(150, w)));
    assert_eq!(occ[1], (2, moment(300, w), moment(350, w)));
    assert!(number_occurrences(&found, &ends, 100).is_empty());
}

#[test]
fn month_is_assembled_with_exceptions() {
    let w = wall(2024, 3, 1, 9, 0);
    let a0 = event("rec-occurrence-0", moment(100, w));
    let a1 = event("rec-occurrence-1", moment(200, w));
    let b = event("single", moment(150, w));
    let moved = event("rec", moment(250, w));
    let bases = vec![vec![a0.clone(), a1.clone()], vec![], vec![b.clone()]];
    let plain = assemble_month(&bases, &vec![]);
    let uids: Vec<String> = plain.iter().map(|e| e.uid.clone()).collect();
    assert_eq!(uids, vec!["rec-occurrence-0", "rec-occurrence-1", "single"]);
    let exs = vec![("rec".to_string(), Some(moment(200, w)), moved.clone())];
    let month = assemble_month(&bases, &exs);
    let uids: Vec<String> = month.iter().map(|e| e.uid.clone()).collect();
    assert_eq!(uids, vec!["rec-occurrence-0", "single", "rec"]);
}

#[test]
fn exception_replaces_the_occurrence_it_moved() {
    let body = "BEGIN:VEVENT\r\nUID:rec-1\r\nSUMMARY:Gym\r\nDTSTART:20240301T090000\r\nDTEND:20240301T093000\r\nRRULE:FREQ=DAILY;COUNT=3\r\nEND:VEVENT\r\n\
BEGIN:VEVENT\r\nUID:rec-1\r\nRECURRENCE-ID:20240302T090000\r\nSUMMARY:Gym (moved)\r\nDTSTART:20240302T170000\r\nDTEND:20240302T173000\r\nEND:VEVENT\r\n";
    let mut svc = CalendarService::new();
    svc.objects_added(CalendarService::parse_raw_components(&vec![calendar(body)], "c"));
    let second = svc.get_events_for_date(Date { year: 2024, month: 3, day: 2 });
    assert_eq!(second.len(), 1);
    assert_eq!(second[0].uid, "rec-1");
    assert_eq!(second[0].summary, "Gym (moved)");
    let first = svc.get_events_for_date(Date { year: 2024, month: 3, day: 1 });
    assert_eq!(first.len(), 1);
    assert_eq!(first[0].uid, "rec-1-occurrence-0");
    let third = svc.get_events_for_date(Date { year: 2024, month: 3, day: 3 });
    assert_eq!(third.len(), 1);
    assert_eq!(third[0].uid, "rec-1-occurrence-2");
}

#[test]
fn parsed_components_keep_their_property_lines() {
    let cs = parse_components(&single_event()).expect("a calendar");
    let events: Vec<_> = cs.iter().filter(|c| c.is_event).collect();
    assert_eq!(events.len(), 1);
    assert_eq!(events[0].entries.len(), 5);
    let uid = events[0].entries.iter().find(|e| e.name == Property::Uid).expect("a UID line");
    match &uid.values[0] {
        CalValue::Text(t) => assert_eq!(t, "evt-1"),
        _ => panic!("the UID is text"),
    }
    let start = events[0].entries.iter().find(|e| e.name == Property::Dtstart).expect("a DTSTART line");
    match &start.values[0] {
        CalValue::DateTime(p) => assert_eq!((p.year, p.month, p.day, p.hour), (Some(2024), Some(3), Some(15), Some(10))),
        _ => panic!("DTSTART is a date-time"),
    }
    assert!(parse_components("not a calendar").is_none());
}

#[test]
fn query_covers_a_year_each_way() {
    assert_eq!(
        year_around(1710000000),
        Some("(occur-in-time-range? (make-time \"20230310T160000Z\") (make-time \"20250309T160000Z\"))".to_string())
    );
    assert_eq!(year_around(i64::MAX), None);
}

#[test]
fn utc_event_inside_the_month_is_always_there() {
    let body = "BEGIN:VEVENT\r\nUID:utc-1\r\nSUMMARY:Call\r\nDTSTART:20240315T100000Z\r\nEND:VEVENT\r\n";
    let raw = CalendarService::parse_raw_components(&vec![calendar(body)], "c");
    let month = CalendarService::expand_month(&raw, &vec![], 2024, 3);
    assert_eq!(month.len(), 1);
    assert_eq!(month[0].uid, "utc-1");
    assert_eq!(month[0].start.timestamp, 1710496800);
    assert!(CalendarService::expand_month(&raw, &vec![], 2024, 5).is_empty());
}

#[test]
fn outcomes_are_placed_in_order() {
    let w = wall(2024, 3, 1, 9, 0);
    let a = event("a", moment(100, w));
    let b = event("b", moment(200, w));
    let c = event("c", moment(300, w));
    let moved = event("a", moment(400, w));
    let month = month_from_outcomes(
        vec![Some(vec![a.clone()]), None, Some(vec![b.clone(), c.clone()])],
        vec![None, Some(("a".to_string(), Some(moment(100, w)), moved.clone()))],
    );
    let uids: Vec<String> = month.iter().map(|e| e.uid.clone()).collect();
    assert_eq!(uids, vec!["b", "c", "a"]);
    assert_eq!(month[2].start.timestamp, 400);
}

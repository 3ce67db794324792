use chrono::{Datelike, Timelike};
use core::cmp::Ordering;
use mp_calendar::adapter::{
    extract_events_from_ical, extract_events_from_ical_with_notices, ParsedCalendar, ParsedEvent,
    ParsedProperty, StatusTokenError,
};
use mp_calendar::config::{create_greeting_string_from_config, parse_config_str_to_struct, Config};
use mp_calendar::event::{create_new_MPEvent, EventStatus, MpEvent};
use mp_calendar::report::{format_message_to_str, format_message_with_time, Message};
use mp_calendar::serialize::deserialise_mpevents_to_ics_string;
use mp_calendar::timestamp::FixedOffsetDateTime;

fn ts_from_epoch(secs: i64) -> FixedOffsetDateTime {
    let dt = chrono::TimeZone::timestamp_opt(&chrono::FixedOffset::west_opt(0).unwrap(), secs, 0)
        .unwrap();
    FixedOffsetDateTime::new(
        dt.year() as u16,
        dt.month() as u8,
        dt.day() as u8,
        dt.hour() as u8,
        dt.minute() as u8,
        dt.second() as u8,
    )
    .unwrap()
}

fn empty_event() -> MpEvent {
    create_new_MPEvent(None, None, None, None, None, None)
}

fn prop(name: &str, value: Option<&str>) -> ParsedProperty {
    ParsedProperty {
        name: String::from(name),
        value: value.map(String::from),
        params: None,
    }
}

#[test]
fn test_format_message_to_str() {
    let message = Message {
        body: String::from("This is a test string."),
        output_time: false,
        sender: String::from("Test module"),
    };
    let expected_output = String::from("[Test module] This is a test string.");
    assert_eq!(expected_output, format_message_to_str(message));
    let message_time = Message {
        body: String::from("This is another test string."),
        output_time: true,
        sender: String::from("Test module"),
    };
    let re = regex::Regex::new(
        r#"\[Test module\] [A-Za-z]+ +[0-9]+ [0-9]+:[0-9]+:[0-9]+: This is another test string."#,
    )
    .unwrap();
    assert!(re.is_match(&format_message_to_str(message_time)));
}

#[test]
fn test_format_message_with_time_exact() {
    assert_eq!(
        "[Core] Aug  2 20:00:00: hello",
        format_message_with_time("Core", "Aug  2 20:00:00", "hello")
    );
}

#[test]
fn test_create_greeting_string_from_config() {
    let test_string = String::from("I HAVE NO GREETING, Tom");
    let test_config = Config {
        name: String::from("Tom"),
        greeting: String::from("I HAVE NO GREETING"),
    };
    assert_eq!(test_string, create_greeting_string_from_config(test_config));
}

#[test]
fn test_parse_config_str_to_struct() {
    let parsed =
        parse_config_str_to_struct("name = \"Tom\"\ngreeting = \"I HAVE NO GREETING\"\n").unwrap();
    assert_eq!("Tom", parsed.name);
    assert_eq!("I HAVE NO GREETING", parsed.greeting);
    assert!(parse_config_str_to_struct("name = \"Tom\"\n").is_none());
    assert!(parse_config_str_to_struct("greeting = 3\nname = \"Tom\"\n").is_none());
    assert!(parse_config_str_to_struct("this is not toml [").is_none());
}

#[test]
fn test_event_status_from_str() {
    assert_eq!(Ok(EventStatus::Tentative), EventStatus::from_str("TENTATIVE"));
    assert_eq!(Ok(EventStatus::Confirmed), EventStatus::from_str("CONFIRMED"));
    assert_eq!(Ok(EventStatus::Cancelled), EventStatus::from_str("CANCELLED"));
    assert_eq!(Err(()), EventStatus::from_str("MAYBE"));
    assert_eq!(Err(()), EventStatus::from_str("confirmed"));
    assert_eq!(Err(()), EventStatus::from_str(""));
}

#[test]
fn test_serialize_name_and_status_only() {
    let mut event = empty_event();
    event.name = Some(String::from("Some event"));
    event.status = Some(EventStatus::Confirmed);
    assert_eq!(
        "BEGIN:VEVENT\nSUMMARY:Some event\nSTATUS:CONFIRMED\nEND:VEVENT\n",
        event.deserialise_to_ics_string()
    );
}

#[test]
fn test_serialize_full_event_field_order() {
    let event = create_new_MPEvent(
        Some(String::from("Party")),
        Some(ts_from_epoch(100)),
        Some(ts_from_epoch(400)),
        Some(String::from("Hall")),
        Some(String::from("Fun")),
        Some(EventStatus::Tentative),
    );
    assert_eq!(
        "BEGIN:VEVENT\nSUMMARY:Party\nDTSTART:19700101T000140\nDTEND:19700101T000640\n\
         LOCATION:Hall\nDESCRIPTION:Fun\nSTATUS:TENTATIVE\nEND:VEVENT\n",
        event.deserialise_to_ics_string()
    );
}

#[test]
fn test_serialize_document() {
    let empty: Vec<MpEvent> = vec![];
    assert_eq!(
        "BEGIN:VCALENDAR\nVERSION:2.0\nCALSCALE:GREGORIAN\nEND:VCALENDAR",
        deserialise_mpevents_to_ics_string(&empty)
    );
    let mut event = empty_event();
    event.name = Some(String::from("A"));
    let one = vec![event];
    assert_eq!(
        "BEGIN:VCALENDAR\nVERSION:2.0\nCALSCALE:GREGORIAN\n\
         BEGIN:VEVENT\nSUMMARY:A\nEND:VEVENT\nEND:VCALENDAR",
        deserialise_mpevents_to_ics_string(&one)
    );
}

#[test]
fn test_adapter_status_policy() {
    // An absent STATUS value falls back to Tentative by policy.
    let cal = ParsedCalendar {
        events: vec![ParsedEvent {
            properties: vec![prop("STATUS", None)],
        }],
    };
    let events = extract_events_from_ical(cal).unwrap();
    assert_eq!(Some(EventStatus::Tentative), events[0].status);
    // An explicit recognized token is taken as it stands.
    let cal = ParsedCalendar {
        events: vec![ParsedEvent {
            properties: vec![prop("STATUS", Some("CANCELLED"))],
        }],
    };
    let events = extract_events_from_ical(cal).unwrap();
    assert_eq!(Some(EventStatus::Cancelled), events[0].status);
    // An explicit unrecognized token is a hard failure.
    let cal = ParsedCalendar {
        events: vec![ParsedEvent {
            properties: vec![prop("STATUS", Some("MAYBE"))],
        }],
    };
    assert_eq!(Err(StatusTokenError), extract_events_from_ical(cal));
}

#[test]
fn test_adapter_field_dispatch() {
    let cal = ParsedCalendar {
        events: vec![ParsedEvent {
            properties: vec![
                prop("SUMMARY", Some("Picnic")),
                prop("DTSTART", Some("20130802T200000Z")),
                prop("DTEND", Some("not a time")),
                prop("LOCATION", Some("Park")),
                prop("DESCRIPTION", Some("Bring food")),
                prop("X-UNKNOWN", Some("ignored")),
            ],
        }],
    };
    let events = extract_events_from_ical(cal).unwrap();
    assert_eq!(1, events.len());
    let e = &events[0];
    assert_eq!(Some(String::from("Picnic")), e.name);
    assert_eq!(
        Some(FixedOffsetDateTime::new(2013, 8, 2, 20, 0, 0).unwrap()),
        e.start_time
    );
    // A failed decode leaves the field absent rather than failing the record.
    assert_eq!(None, e.end_time);
    assert_eq!(Some(String::from("Park")), e.location);
    assert_eq!(Some(String::from("Bring food")), e.description);
    assert_eq!(None, e.status);
}

#[test]
fn test_adapter_last_write_wins() {
    let cal = ParsedCalendar {
        events: vec![ParsedEvent {
            properties: vec![prop("SUMMARY", Some("First")), prop("SUMMARY", Some("Second"))],
        }],
    };
    let events = extract_events_from_ical(cal).unwrap();
    assert_eq!(Some(String::from("Second")), events[0].name);
}

#[test]
fn test_adapter_keeps_component_order() {
    let cal = ParsedCalendar {
        events: vec![
            ParsedEvent {
                properties: vec![prop("SUMMARY", Some("B"))],
            },
            ParsedEvent {
                properties: vec![prop("SUMMARY", Some("A"))],
            },
            ParsedEvent { properties: vec![] },
        ],
    };
    let events = extract_events_from_ical(cal).unwrap();
    assert_eq!(3, events.len());
    assert_eq!(Some(String::from("B")), events[0].name);
    assert_eq!(Some(String::from("A")), events[1].name);
    assert_eq!(None, events[2].name);
}

#[test]
fn test_total_cmp_tie_breaks() {
    let start = ts_from_epoch(100);
    let end_early = ts_from_epoch(200);
    let end_late = ts_from_epoch(300);
    let a = create_new_MPEvent(
        Some(String::from("A")),
        Some(start),
        Some(end_early),
        None,
        None,
        None,
    );
    let b = create_new_MPEvent(
        Some(String::from("A")),
        Some(start),
        Some(end_late),
        None,
        None,
        None,
    );
    // Equal starts: the later-finishing event is the later one.
    assert_eq!(Ordering::Less, a.cmp(&b));
    assert_eq!(Ordering::Greater, b.cmp(&a));
    // Equal starts and ends: the name decides.
    let c = create_new_MPEvent(
        Some(String::from("B")),
        Some(start),
        Some(end_early),
        None,
        None,
        None,
    );
    assert_eq!(Ordering::Less, a.cmp(&c));
    // Fully equal keys with present names report equality.
    let a2 = create_new_MPEvent(
        Some(String::from("A")),
        Some(start),
        Some(end_early),
        None,
        None,
        None,
    );
    assert_eq!(Ordering::Equal, a.cmp(&a2));
}

#[test]
fn test_sort_puts_absent_start_last() {
    let named = |n: &str| {
        let mut e = empty_event();
        e.name = Some(String::from(n));
        e
    };
    let mut no_start = named("Unscheduled");
    no_start.end_time = Some(ts_from_epoch(50));
    let mut early = named("Early");
    early.start_time = Some(ts_from_epoch(100));
    let mut late = named("Late");
    late.start_time = Some(ts_from_epoch(900));
    let sorted = mp_calendar::ordering::sort_mpevents_chronologically_by_start(vec![
        no_start, late, early,
    ]);
    // The record equality predicate needs a present start, so compare names.
    assert_eq!(Some(String::from("Early")), sorted[0].name);
    assert_eq!(Some(String::from("Late")), sorted[1].name);
    assert_eq!(Some(String::from("Unscheduled")), sorted[2].name);
}

#[test]
fn test_sort_with_two_absent_starts() {
    let named = |n: &str| {
        let mut e = empty_event();
        e.name = Some(String::from(n));
        e
    };
    // Two unscheduled records tie on both time keys; the name breaks the
    // tie, and both sort after the scheduled one.
    let mut scheduled = named("Scheduled");
    scheduled.start_time = Some(ts_from_epoch(100));
    let sorted = mp_calendar::ordering::sort_mpevents_chronologically_by_start(vec![
        named("B"),
        scheduled,
        named("A"),
    ]);
    assert_eq!(Some(String::from("Scheduled")), sorted[0].name);
    assert_eq!(Some(String::from("A")), sorted[1].name);
    assert_eq!(Some(String::from("B")), sorted[2].name);
}

#[test]
fn test_extract_reports_decode_failures() {
    let cal = ParsedCalendar {
        events: vec![
            ParsedEvent {
                properties: vec![
                    prop("DTSTART", Some("not a time")),
                    prop("DTEND", Some("20130802T200000Z")),
                ],
            },
            ParsedEvent {
                properties: vec![prop("DTEND", Some("20131402T200000"))],
            },
        ],
    };
    let (events, notices) = extract_events_from_ical_with_notices(cal).unwrap();
    // The failed fields are absent, the good one decoded, and each failed
    // raw value is reported in order.
    assert_eq!(None, events[0].start_time);
    assert!(events[0].end_time.is_some());
    assert_eq!(None, events[1].end_time);
    assert_eq!(
        vec![String::from("not a time"), String::from("20131402T200000")],
        notices
    );
    // A clean calendar reports nothing.
    let clean = ParsedCalendar {
        events: vec![ParsedEvent {
            properties: vec![prop("DTSTART", Some("20130802T200000Z"))],
        }],
    };
    let (_, clean_notices) = extract_events_from_ical_with_notices(clean).unwrap();
    assert!(clean_notices.is_empty());
}

use chrono::{Datelike, Timelike};
use core::cmp::Ordering;
use mp_calendar::event::MpEvent;
use mp_calendar::ordering::sort_mpevents_chronologically_by_start;
use mp_calendar::timestamp::{
    convert_fixed_offset_to_ical_time, convert_ical_time_to_fixed_offset, FixedOffsetDateTime,
};

fn ts_from_chrono(dt: chrono::DateTime<chrono::FixedOffset>) -> FixedOffsetDateTime {
    FixedOffsetDateTime::new(
        dt.year() as u16,
        dt.month() as u8,
        dt.day() as u8,
        dt.hour() as u8,
        dt.minute() as u8,
        dt.second() as u8,
    )
    .unwrap()
}

fn ts_from_epoch(secs: i64) -> FixedOffsetDateTime {
    let dt = chrono::TimeZone::timestamp_opt(&chrono::FixedOffset::west_opt(0).unwrap(), secs, 0)
        .unwrap();
    ts_from_chrono(dt)
}

fn ts_from_rfc3339(text: &str) -> FixedOffsetDateTime {
    ts_from_chrono(chrono::DateTime::parse_from_rfc3339(text).unwrap())
}

fn make_event(start_secs: i64, end_secs: i64) -> MpEvent {
    let dt1 = ts_from_epoch(start_secs);
    let dt2 = ts_from_epoch(end_secs);
    MpEvent {
        name: None,
        start_time: Some(dt1),
        end_time: Some(dt2),
        location: None,
        description: None,
        status: None,
    }
}

#[test]
fn test_cmp_start_time() {
    let event1 = make_event(100, 300);
    let event2 = make_event(400, 500);
    let event3 = make_event(100, 200);
    let cmp_1_2 = event1.cmp_start_time(&event2);
    assert_eq!(Ordering::Less, cmp_1_2.unwrap());
    let cmp_2_1 = event2.cmp_start_time(&event1);
    assert_eq!(Ordering::Greater, cmp_2_1.unwrap());
    let cmp_1_3 = event1.cmp_start_time(&event3);
    assert_eq!(Ordering::Equal, cmp_1_3.unwrap());
}

#[test]
fn test_cmp_end_time() {
    let event1 = make_event(100, 300);
    let event2 = make_event(100, 500);
    let event3 = make_event(200, 300);
    let cmp_1_2 = event1.cmp_end_time(&event2);
    assert_eq!(Ordering::Less, cmp_1_2.unwrap());
    let cmp_2_1 = event2.cmp_end_time(&event1);
    assert_eq!(Ordering::Greater, cmp_2_1.unwrap());
    let cmp_1_3 = event1.cmp_end_time(&event3);
    assert_eq!(Ordering::Equal, cmp_1_3.unwrap());
}

#[test]
fn test_ordered_has_overlap() {
    let event1 = make_event(100, 300);
    let event2 = make_event(200, 400);
    let event3 = make_event(500, 600);
    let event4 = make_event(600, 700);
    let overlap_1_2 = event1.ordered_has_overlap(&event2);
    assert_eq!(true, overlap_1_2);
    let overlap_2_3 = event2.ordered_has_overlap(&event3);
    assert_eq!(false, overlap_2_3);
    let overlap_3_4 = event3.ordered_has_overlap(&event4);
    assert_eq!(true, overlap_3_4);
}

#[test]
fn test_convert_ical_time_to_fixed_offset() {
    let test_ical_time = Some(String::from("20130802T200000Z"));
    let test_ical_tz_vec: Option<&Vec<(String, Vec<String>)>> = None;
    let test_time_fixed_offset =
        convert_ical_time_to_fixed_offset(test_ical_time.as_ref(), test_ical_tz_vec).unwrap();
    let expected_time_fixed_offset = ts_from_rfc3339("2013-08-02T20:00:00-00:00");
    assert_eq!(expected_time_fixed_offset, test_time_fixed_offset);
}

#[test]
fn test_convert_fixed_offset_to_ical_time() {
    let time_fixedoff = ts_from_rfc3339("2013-08-02T20:00:00-00:00");
    let expected_ical_time = String::from("20130802T200000");
    let test_ical_time = convert_fixed_offset_to_ical_time(time_fixedoff);
    assert_eq!(expected_ical_time, test_ical_time);
}

#[test]
fn test_sort_mpevents_chronologically_by_start() {
    let time_1 = ts_from_rfc3339("2013-08-02T20:00:00-00:00");
    let time_2 = ts_from_rfc3339("2013-08-03T20:00:00-00:00");
    let time_3 = ts_from_rfc3339("2013-08-03T22:00:00-00:00");
    let time_4 = ts_from_rfc3339("2013-08-04T22:00:00-00:00");
    let event_1 = MpEvent {
        name: Some(String::from("Event1")),
        start_time: Some(time_1),
        end_time: None,
        description: None,
        location: None,
        status: None,
    };
    let event_2 = MpEvent {
        name: Some(String::from("Event2")),
        start_time: Some(time_2),
        end_time: Some(time_3),
        description: None,
        location: None,
        status: None,
    };
    let event_3 = MpEvent {
        name: Some(String::from("Event3")),
        start_time: Some(time_2),
        end_time: Some(time_4),
        description: None,
        location: None,
        status: None,
    };
    let event_4 = MpEvent {
        name: Some(String::from("Event4")),
        start_time: Some(time_3),
        end_time: None,
        description: None,
        location: None,
        status: None,
    };
    let unsorted_events: Vec<MpEvent> = vec![
        event_3.clone(),
        event_2.clone(),
        event_4.clone(),
        event_1.clone(),
    ];
    let exp_sorted_events: Vec<MpEvent> = vec![event_1, event_2, event_3, event_4];
    let sorted_events = sort_mpevents_chronologically_by_start(unsorted_events);
    assert_eq!(exp_sorted_events, sorted_events);
}

#[test]
fn test_round_trip_decode_of_encode() {
    let t = ts_from_epoch(100);
    let encoded = convert_fixed_offset_to_ical_time(t);
    let tz: Option<&Vec<(String, Vec<String>)>> = None;
    let decoded = convert_ical_time_to_fixed_offset(Some(&encoded), tz).unwrap();
    assert_eq!(t, decoded);
    let t2 = FixedOffsetDateTime::new(2024, 2, 29, 23, 59, 59).unwrap();
    let encoded2 = convert_fixed_offset_to_ical_time(t2);
    assert_eq!("20240229T235959", encoded2);
    let decoded2 = convert_ical_time_to_fixed_offset(Some(&encoded2), tz).unwrap();
    assert_eq!(t2, decoded2);
}

#[test]
fn test_encode_zero_pads_every_field() {
    let t = FixedOffsetDateTime::new(1, 2, 3, 4, 5, 6).unwrap();
    assert_eq!("00010203T040506", convert_fixed_offset_to_ical_time(t));
}

#[test]
fn test_decode_rejects_malformed_input() {
    let tz: Option<&Vec<(String, Vec<String>)>> = None;
    let no_separator = Some(String::from("20130802200000"));
    assert!(convert_ical_time_to_fixed_offset(no_separator.as_ref(), tz).is_none());
    let short_date = Some(String::from("2013T200000"));
    assert!(convert_ical_time_to_fixed_offset(short_date.as_ref(), tz).is_none());
    let short_time = Some(String::from("20130802T2000"));
    assert!(convert_ical_time_to_fixed_offset(short_time.as_ref(), tz).is_none());
    let letters = Some(String::from("201308xxT200000"));
    assert!(convert_ical_time_to_fixed_offset(letters.as_ref(), tz).is_none());
    let empty = Some(String::from(""));
    assert!(convert_ical_time_to_fixed_offset(empty.as_ref(), tz).is_none());
    assert!(convert_ical_time_to_fixed_offset(None, tz).is_none());
}

#[test]
fn test_decode_rejects_invalid_calendar_dates() {
    let tz: Option<&Vec<(String, Vec<String>)>> = None;
    let month_13 = Some(String::from("20131302T200000"));
    assert!(convert_ical_time_to_fixed_offset(month_13.as_ref(), tz).is_none());
    let feb_30 = Some(String::from("20130230T200000"));
    assert!(convert_ical_time_to_fixed_offset(feb_30.as_ref(), tz).is_none());
    let feb_29_non_leap = Some(String::from("20190229T120000"));
    assert!(convert_ical_time_to_fixed_offset(feb_29_non_leap.as_ref(), tz).is_none());
    let feb_29_leap = Some(String::from("20200229T120000"));
    assert!(convert_ical_time_to_fixed_offset(feb_29_leap.as_ref(), tz).is_some());
    let hour_24 = Some(String::from("20130802T240000"));
    assert!(convert_ical_time_to_fixed_offset(hour_24.as_ref(), tz).is_none());
}

#[test]
fn test_cmp_with_absent_fields() {
    let with_start = make_event(100, 300);
    let absent = MpEvent {
        name: None,
        start_time: None,
        end_time: None,
        location: None,
        description: None,
        status: None,
    };
    // An absent start sorts after any present start, from either side.
    assert_eq!(
        Ordering::Greater,
        absent.cmp_start_time(&with_start).unwrap()
    );
    assert_eq!(Ordering::Less, with_start.cmp_start_time(&absent).unwrap());
    assert_eq!(Ordering::Greater, absent.cmp_end_time(&with_start).unwrap());
    // Two absent values compare Equal: the self-versus-self special case.
    assert_eq!(Ordering::Equal, absent.cmp_start_time(&absent).unwrap());
    assert_eq!(Ordering::Equal, absent.cmp_end_time(&absent).unwrap());
    // Overlap cannot be established without both bounds.
    assert!(!absent.ordered_has_overlap(&with_start));
    assert!(!with_start.ordered_has_overlap(&absent));
}

#[test]
fn test_cmp_self_is_equal() {
    // Every record compares Equal to itself, whatever fields it lacks.
    let absent = MpEvent {
        name: None,
        start_time: None,
        end_time: None,
        location: None,
        description: None,
        status: None,
    };
    assert_eq!(Ordering::Equal, absent.cmp(&absent));
    let with_times = make_event(100, 300);
    assert_eq!(Ordering::Equal, with_times.cmp(&with_times));
    let mut named = make_event(100, 300);
    named.name = Some(String::from("Named"));
    assert_eq!(Ordering::Equal, named.cmp(&named));
}

#[test]
fn test_event_equality_is_name_and_start_only() {
    let mut a = make_event(100, 300);
    let mut b = make_event(100, 700);
    // Identical but nameless records are not equal.
    assert!(make_event(100, 300) != make_event(100, 300));
    a.name = Some(String::from("Same"));
    b.name = Some(String::from("Same"));
    b.location = Some(String::from("Elsewhere"));
    // Equal name and start: end, location and the rest are ignored.
    assert!(a == b);
    b.name = Some(String::from("Other"));
    assert!(a != b);
}

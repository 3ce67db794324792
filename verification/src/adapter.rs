//! The ingestion adapter: maps the external parser's component tree, handed
//! over as plain property tuples, onto a list of event records, one per
//! event component, in the same order.

use vstd::prelude::*;

verus! {

use crate::event::{MpEvent, EventStatus, spec_status_from_chars};
use crate::text::str_eq;
use crate::timestamp::{
    FixedOffsetDateTime,
    spec_decode_ical_time,
    convert_ical_time_to_fixed_offset,
};

/// One property tuple as the external parser reports it: a name, an optional
/// raw value, and an optional raw parameter list.
#[derive(Debug)]
pub struct ParsedProperty {
    pub name: String,
    pub value: Option<String>,
    pub params: Option<Vec<(String, Vec<String>)>>,
}

/// One event component: its property tuples in wire order.
#[derive(Debug)]
pub struct ParsedEvent {
    pub properties: Vec<ParsedProperty>,
}

/// One parsed calendar: its event components in wire order.
#[derive(Debug)]
pub struct ParsedCalendar {
    pub events: Vec<ParsedEvent>,
}

/// A STATUS property carried an explicit token outside the closed set; an
/// explicitly present but invalid status is a hard failure, never silently
/// defaulted.
#[derive(Clone, Copy, PartialEq, Eq, Structural, Debug)]
pub struct StatusTokenError;

/// A record with every field absent, the adapter's starting point.
pub open spec fn spec_empty_event() -> MpEvent {
    MpEvent {
        name: None,
        start_time: None,
        end_time: None,
        location: None,
        description: None,
        status: None,
    }
}

pub open spec fn spec_decode_opt(v: Option<String>) -> Option<FixedOffsetDateTime> {
    match v {
        Some(s) => spec_decode_ical_time(s@),
        None => None,
    }
}

/// One property applied to a record: dispatch by exact name, assign into the
/// matching field (so a repeated property overwrites, last write winning),
/// ignore unrecognized names, and treat an absent STATUS value as Tentative
/// by policy while an unrecognized explicit token fails hard.
pub open spec fn spec_apply_property(e: MpEvent, p: ParsedProperty) -> Result<
    MpEvent,
    StatusTokenError,
> {
    if p.name@ == "SUMMARY"@ {
        Ok(MpEvent { name: p.value, ..e })
    } else if p.name@ == "DTSTART"@ {
        Ok(MpEvent { start_time: spec_decode_opt(p.value), ..e })
    } else if p.name@ == "DTEND"@ {
        Ok(MpEvent { end_time: spec_decode_opt(p.value), ..e })
    } else if p.name@ == "LOCATION"@ {
        Ok(MpEvent { location: p.value, ..e })
    } else if p.name@ == "DESCRIPTION"@ {
        Ok(MpEvent { description: p.value, ..e })
    } else if p.name@ == "STATUS"@ {
        match p.value {
            Some(v) => match spec_status_from_chars(v@) {
                Ok(st) => Ok(MpEvent { status: Some(st), ..e }),
                Err(_) => Err(StatusTokenError),
            },
            None => Ok(MpEvent { status: Some(EventStatus::Tentative), ..e }),
        }
    } else {
        Ok(e)
    }
}

/// A record built up from a property sequence, first property first, or the
/// first hard failure.
pub open spec fn spec_extract_event(e: MpEvent, props: Seq<ParsedProperty>) -> Result<
    MpEvent,
    StatusTokenError,
>
    decreases props.len(),
{
    if props.len() == 0 {
        Ok(e)
    } else {
        match spec_apply_property(e, props[0]) {
            Ok(e2) => spec_extract_event(e2, props.drop_first()),
            Err(err) => Err(err),
        }
    }
}

/// The records of a calendar, one per event component in order, or the first
/// hard failure.
pub open spec fn spec_extract_events(events: Seq<ParsedEvent>) -> Result<
    Seq<MpEvent>,
    StatusTokenError,
>
    decreases events.len(),
{
    if events.len() == 0 {
        Ok(Seq::<MpEvent>::empty())
    } else {
        match spec_extract_event(spec_empty_event(), events[0].properties@) {
            Ok(e) => match spec_extract_events(events.drop_first()) {
                Ok(rest) => Ok(seq![e] + rest),
                Err(err) => Err(err),
            },
            Err(err) => Err(err),
        }
    }
}

/// The raw value of a DTSTART or DTEND property whose present value fails
/// to decode. Such a failure is non-fatal — the field is simply left absent —
/// but it must stay observable, so the extraction collects these values.
pub open spec fn spec_property_decode_failure(p: ParsedProperty) -> Option<Seq<char>> {
    match p.value {
        Some(v) => if (p.name@ == "DTSTART"@ || p.name@ == "DTEND"@) && spec_decode_ical_time(v@)
            is None {
            Some(v@)
        } else {
            None
        },
        None => None,
    }
}

/// The raw values of every failed timestamp decode in a property sequence,
/// in wire order.
pub open spec fn spec_decode_failures(props: Seq<ParsedProperty>) -> Seq<Seq<char>>
    decreases props.len(),
{
    if props.len() == 0 {
        Seq::<Seq<char>>::empty()
    } else {
        (match spec_property_decode_failure(props[0]) {
            Some(v) => seq![v],
            None => Seq::<Seq<char>>::empty(),
        }) + spec_decode_failures(props.drop_first())
    }
}

/// The failed timestamp decodes of a whole calendar, event by event in
/// order.
pub open spec fn spec_calendar_decode_failures(events: Seq<ParsedEvent>) -> Seq<Seq<char>>
    decreases events.len(),
{
    if events.len() == 0 {
        Seq::<Seq<char>>::empty()
    } else {
        spec_decode_failures(events[0].properties@) + spec_calendar_decode_failures(
            events.drop_first(),
        )
    }
}

proof fn lemma_decode_failures_take_succ(props: Seq<ParsedProperty>, i: int)
    requires
        0 <= i < props.len(),
    ensures
        spec_decode_failures(props.take(i + 1)) == spec_decode_failures(props.take(i)) + (
        match spec_property_decode_failure(props[i]) {
            Some(v) => seq![v],
            None => Seq::<Seq<char>>::empty(),
        }),
    decreases i,
{
    if i == 0 {
        assert(props.take(1).drop_first() =~= props.take(0));
        assert(props.take(1)[0] == props[0]);
        assert(props.take(0).len() == 0);
        assert(spec_decode_failures(props.take(1)) =~= spec_decode_failures(props.take(0)) + (
        match spec_property_decode_failure(props[0]) {
            Some(v) => seq![v],
            None => Seq::<Seq<char>>::empty(),
        }));
    } else {
        lemma_decode_failures_take_succ(props.drop_first(), i - 1);
        assert(props.take(i + 1).drop_first() =~= props.drop_first().take(i));
        assert(props.take(i).drop_first() =~= props.drop_first().take(i - 1));
        assert(props.take(i + 1)[0] == props[0]);
        assert(props.take(i)[0] == props[0]);
        assert(props.drop_first()[i - 1] == props[i]);
        assert(spec_decode_failures(props.take(i + 1)) =~= spec_decode_failures(props.take(i)) + (
        match spec_property_decode_failure(props[i]) {
            Some(v) => seq![v],
            None => Seq::<Seq<char>>::empty(),
        }));
    }
}

proof fn lemma_calendar_failures_take_succ(events: Seq<ParsedEvent>, i: int)
    requires
        0 <= i < events.len(),
    ensures
        spec_calendar_decode_failures(events.take(i + 1)) == spec_calendar_decode_failures(
            events.take(i),
        ) + spec_decode_failures(events[i].properties@),
    decreases i,
{
    if i == 0 {
        assert(events.take(1).drop_first() =~= events.take(0));
        assert(events.take(1)[0] == events[0]);
        assert(events.take(0).len() == 0);
        assert(spec_calendar_decode_failures(events.take(1)) =~= spec_calendar_decode_failures(
            events.take(0),
        ) + spec_decode_failures(events[0].properties@));
    } else {
        lemma_calendar_failures_take_succ(events.drop_first(), i - 1);
        assert(events.take(i + 1).drop_first() =~= events.drop_first().take(i));
        assert(events.take(i).drop_first() =~= events.drop_first().take(i - 1));
        assert(events.take(i + 1)[0] == events[0]);
        assert(events.take(i)[0] == events[0]);
        assert(events.drop_first()[i - 1] == events[i]);
        assert(spec_calendar_decode_failures(events.take(i + 1)) =~= spec_calendar_decode_failures(
            events.take(i),
        ) + spec_decode_failures(events[i].properties@));
    }
}

proof fn lemma_extract_event_take_succ(e0: MpEvent, props: Seq<ParsedProperty>, i: int)
    requires
        0 <= i < props.len(),
    ensures
        spec_extract_event(e0, props.take(i + 1)) == (match spec_extract_event(
            e0,
            props.take(i),
        ) {
            Ok(e) => spec_apply_property(e, props[i]),
            Err(err) => Err(err),
        }),
    decreases i,
{
    reveal_with_fuel(spec_extract_event, 3);
    if i == 0 {
        assert(props.take(1).drop_first() =~= props.take(0));
        assert(props.take(1)[0] == props[0]);
        assert(props.take(0).len() == 0);
    } else {
        match spec_apply_property(e0, props[0]) {
            Ok(e2) => {
                lemma_extract_event_take_succ(e2, props.drop_first(), i - 1);
                assert(props.take(i + 1).drop_first() =~= props.drop_first().take(i));
                assert(props.take(i).drop_first() =~= props.drop_first().take(i - 1));
                assert(props.take(i + 1)[0] == props[0]);
                assert(props.take(i)[0] == props[0]);
                assert(props.drop_first()[i - 1] == props[i]);
            },
            Err(_) => {
                assert(props.take(i + 1)[0] == props[0]);
                assert(props.take(i)[0] == props[0]);
            },
        }
    }
}

proof fn lemma_extract_event_err_persists(e0: MpEvent, props: Seq<ParsedProperty>, i: int)
    requires
        0 <= i <= props.len(),
        spec_extract_event(e0, props.take(i)) is Err,
    ensures
        spec_extract_event(e0, props) == spec_extract_event(e0, props.take(i)),
    decreases i,
{
    assert(i != 0) by {
        if i == 0 {
            assert(props.take(0).len() == 0);
        }
    }
    assert(props.take(i)[0] == props[0]);
    match spec_apply_property(e0, props[0]) {
        Ok(e2) => {
            assert(props.take(i).drop_first() =~= props.drop_first().take(i - 1));
            lemma_extract_event_err_persists(e2, props.drop_first(), i - 1);
        },
        Err(_) => {},
    }
}

/// Every record the extraction yields carries only valid timestamps: the
/// codec never hands a field an invalid calendar value, so the records can
/// be rendered without further checks.
pub proof fn lemma_extract_event_wf(e0: MpEvent, props: Seq<ParsedProperty>)
    requires
        e0.wf(),
    ensures
        match spec_extract_event(e0, props) {
            Ok(e) => e.wf(),
            Err(_) => true,
        },
    decreases props.len(),
{
    if props.len() != 0 {
        match spec_apply_property(e0, props[0]) {
            Ok(e2) => {
                lemma_extract_event_wf(e2, props.drop_first());
            },
            Err(_) => {},
        }
    }
}

fn clone_opt_string(v: &Option<String>) -> (r: Option<String>)
    ensures
        r == *v,
{
    match v {
        Some(s) => Some(s.clone()),
        None => None,
    }
}

/// Builds one record from one event component's properties, collecting the
/// raw value of every failed timestamp decode alongside it. The notices are
/// only pinned down on the Ok side: a hard failure discards the record and
/// its notices alike.
fn extract_event_from_props(props: &Vec<ParsedProperty>) -> (r: (
    Result<MpEvent, StatusTokenError>,
    Vec<String>,
))
    ensures
        r.0 == spec_extract_event(spec_empty_event(), props@),
        r.0 is Ok ==> r.1@.map_values(|s: String| s@) == spec_decode_failures(props@),
{
    let mut mp_event = MpEvent {
        name: None,
        start_time: None,
        end_time: None,
        location: None,
        description: None,
        status: None,
    };
    let mut notices: Vec<String> = Vec::new();
    let n = props.len();
    let mut i: usize = 0;
    proof {
        assert(props@.take(0).len() == 0);
        assert(notices@.map_values(|s: String| s@) =~= spec_decode_failures(props@.take(0)));
    }
    while i < n
        invariant
            i <= n,
            n == props@.len(),
            spec_extract_event(spec_empty_event(), props@.take(i as int)) == Ok::<
                MpEvent,
                StatusTokenError,
            >(mp_event),
            notices@.map_values(|s: String| s@) == spec_decode_failures(props@.take(i as int)),
        decreases n - i,
    {
        proof {
            lemma_extract_event_take_succ(spec_empty_event(), props@, i as int);
            lemma_decode_failures_take_succ(props@, i as int);
        }
        let ghost old_notices = notices@;
        let p = &props[i];
        if str_eq(p.name.as_str(), "SUMMARY") {
            mp_event.name = clone_opt_string(&p.value);
            proof {
                reveal_strlit("SUMMARY");
                reveal_strlit("DTSTART");
                reveal_strlit("DTEND");
                assert("SUMMARY"@[0] == 'S' && "DTSTART"@[0] == 'D' && "DTEND"@[0] == 'D');
                assert(p.name@ != "DTSTART"@ && p.name@ != "DTEND"@);
            }
        } else if str_eq(p.name.as_str(), "DTSTART") {
            let decoded = convert_ical_time_to_fixed_offset(p.value.as_ref(), p.params.as_ref());
            match (&decoded, &p.value) {
                (None, Some(v)) => {
                    notices.push(v.clone());
                    proof {
                        assert(notices@.map_values(|s: String| s@) =~= old_notices.map_values(
                            |s: String| s@,
                        ).push(v@));
                    }
                },
                _ => {},
            }
            mp_event.start_time = decoded;
        } else if str_eq(p.name.as_str(), "DTEND") {
            let decoded = convert_ical_time_to_fixed_offset(p.value.as_ref(), p.params.as_ref());
            match (&decoded, &p.value) {
                (None, Some(v)) => {
                    notices.push(v.clone());
                    proof {
                        assert(notices@.map_values(|s: String| s@) =~= old_notices.map_values(
                            |s: String| s@,
                        ).push(v@));
                    }
                },
                _ => {},
            }
            mp_event.end_time = decoded;
        } else if str_eq(p.name.as_str(), "LOCATION") {
            mp_event.location = clone_opt_string(&p.value);
        } else if str_eq(p.name.as_str(), "DESCRIPTION") {
            mp_event.description = clone_opt_string(&p.value);
        } else if str_eq(p.name.as_str(), "STATUS") {
            match &p.value {
                Some(v) => {
                    match EventStatus::from_str(v.as_str()) {
                        Ok(st) => {
                            mp_event.status = Some(st);
                        },
                        Err(_) => {
                            proof {
                                lemma_extract_event_err_persists(
                                    spec_empty_event(),
                                    props@,
                                    i as int + 1,
                                );
                            }
                            return (Err(StatusTokenError), notices);
                        },
                    }
                },
                None => {
                    mp_event.status = Some(EventStatus::Tentative);
                },
            }
        }
        proof {
            assert(notices@.map_values(|s: String| s@) =~= spec_decode_failures(
                props@.take(i as int + 1),
            ));
        }
        i = i + 1;
    }
    proof {
        assert(props@.take(n as int) =~= props@);
    }
    (Ok(mp_event), notices)
}

proof fn lemma_extract_events_take_succ(events: Seq<ParsedEvent>, i: int)
    requires
        0 <= i < events.len(),
    ensures
        spec_extract_events(events.take(i + 1)) == (match spec_extract_events(events.take(i)) {
            Ok(rest) => match spec_extract_event(spec_empty_event(), events[i].properties@) {
                Ok(e) => Ok::<Seq<MpEvent>, StatusTokenError>(rest.push(e)),
                Err(err) => Err(err),
            },
            Err(err) => Err(err),
        }),
    decreases i,
{
    if i == 0 {
        assert(events.take(1).drop_first() =~= events.take(0));
        assert(events.take(1)[0] == events[0]);
        assert(events.take(0).len() == 0);
        match spec_extract_event(spec_empty_event(), events[0].properties@) {
            Ok(e) => {
                assert(seq![e] + Seq::<MpEvent>::empty() =~= Seq::<MpEvent>::empty().push(e));
            },
            Err(_) => {},
        }
    } else {
        lemma_extract_events_take_succ(events.drop_first(), i - 1);
        assert(events.take(i + 1).drop_first() =~= events.drop_first().take(i));
        assert(events.take(i).drop_first() =~= events.drop_first().take(i - 1));
        assert(events.take(i + 1)[0] == events[0]);
        assert(events.take(i)[0] == events[0]);
        assert(events.drop_first()[i - 1] == events[i]);
        match spec_extract_event(spec_empty_event(), events[0].properties@) {
            Ok(e) => {
                match spec_extract_events(events.drop_first().take(i - 1)) {
                    Ok(rest) => {
                        assert(seq![e] + rest.push(
                            spec_extract_event(
                                spec_empty_event(),
                                events[i].properties@,
                            ).unwrap(),
                        ) =~= (seq![e] + rest).push(
                            spec_extract_event(spec_empty_event(), events[i].properties@).unwrap(),
                        ));
                    },
                    Err(_) => {},
                }
            },
            Err(_) => {},
        }
    }
}

proof fn lemma_extract_events_err_persists(events: Seq<ParsedEvent>, i: int)
    requires
        0 <= i <= events.len(),
        spec_extract_events(events.take(i)) is Err,
    ensures
        spec_extract_events(events) == spec_extract_events(events.take(i)),
    decreases i,
{
    assert(i != 0) by {
        if i == 0 {
            assert(events.take(0).len() == 0);
        }
    }
    assert(events.take(i)[0] == events[0]);
    match spec_extract_event(spec_empty_event(), events[0].properties@) {
        Ok(_) => {
            assert(events.take(i).drop_first() =~= events.drop_first().take(i - 1));
            lemma_extract_events_err_persists(events.drop_first(), i - 1);
        },
        Err(_) => {},
    }
}

/// Maps a parsed calendar onto event records, one per event component in
/// the same order, with no reordering or filtering, and returns alongside
/// them, in order, the raw DTSTART/DTEND values whose decoding failed: those
/// fields are set absent, best effort, and the notices keep the failures
/// observable so a caller can report them. The first explicitly present but
/// unrecognized STATUS token fails the whole extraction.
pub fn extract_events_from_ical_with_notices(cal: ParsedCalendar) -> (r: Result<
    (Vec<MpEvent>, Vec<String>),
    StatusTokenError,
>)
    ensures
        match r {
            Ok(out) => spec_extract_events(cal.events@) == Ok::<Seq<MpEvent>, StatusTokenError>(
                out.0@,
            ) && (forall|i: int| 0 <= i < out.0@.len() ==> (#[trigger] out.0@[i]).wf())
                && out.1@.map_values(|s: String| s@) == spec_calendar_decode_failures(cal.events@),
            Err(err) => spec_extract_events(cal.events@) == Err::<Seq<MpEvent>, StatusTokenError>(
                err,
            ),
        },
{
    let mut mp_events: Vec<MpEvent> = Vec::new();
    let mut notices: Vec<String> = Vec::new();
    let n = cal.events.len();
    let mut i: usize = 0;
    proof {
        assert(cal.events@.take(0).len() == 0);
        assert(mp_events@ =~= Seq::<MpEvent>::empty());
        assert(notices@.map_values(|s: String| s@) =~= spec_calendar_decode_failures(
            cal.events@.take(0),
        ));
    }
    while i < n
        invariant
            i <= n,
            n == cal.events@.len(),
            spec_extract_events(cal.events@.take(i as int)) == Ok::<Seq<MpEvent>, StatusTokenError>(
                mp_events@,
            ),
            forall|k: int| 0 <= k < mp_events@.len() ==> (#[trigger] mp_events@[k]).wf(),
            notices@.map_values(|s: String| s@) == spec_calendar_decode_failures(
                cal.events@.take(i as int),
            ),
        decreases n - i,
    {
        proof {
            lemma_extract_events_take_succ(cal.events@, i as int);
            lemma_calendar_failures_take_succ(cal.events@, i as int);
        }
        let ghost old_notices = notices@;
        let (extracted, mut event_notices) = extract_event_from_props(&cal.events[i].properties);
        match extracted {
            Ok(mp_event) => {
                proof {
                    lemma_extract_event_wf(spec_empty_event(), cal.events@[i as int].properties@);
                }
                mp_events.push(mp_event);
                let ghost en = event_notices@;
                notices.append(&mut event_notices);
                proof {
                    assert(notices@.map_values(|s: String| s@) =~= old_notices.map_values(
                        |s: String| s@,
                    ) + en.map_values(|s: String| s@));
                    assert(notices@.map_values(|s: String| s@) =~= spec_calendar_decode_failures(
                        cal.events@.take(i as int + 1),
                    ));
                }
            },
            Err(err) => {
                proof {
                    lemma_extract_events_err_persists(cal.events@, i as int + 1);
                }
                return Err(err);
            },
        }
        i = i + 1;
    }
    proof {
        assert(cal.events@.take(n as int) =~= cal.events@);
    }
    Ok((mp_events, notices))
}

/// Maps a parsed calendar onto event records, one per event component in the
/// same order, with no reordering or filtering; the first explicitly
/// present but unrecognized STATUS token fails the whole extraction. Decode
/// failures leave their field absent; a caller that must report them uses
/// `extract_events_from_ical_with_notices`.
pub fn extract_events_from_ical(cal: ParsedCalendar) -> (r: Result<Vec<MpEvent>, StatusTokenError>)
    ensures
        match r {
            Ok(v) => spec_extract_events(cal.events@) == Ok::<Seq<MpEvent>, StatusTokenError>(v@)
                && forall|i: int| 0 <= i < v@.len() ==> (#[trigger] v@[i]).wf(),
            Err(err) => spec_extract_events(cal.events@) == Err::<Seq<MpEvent>, StatusTokenError>(
                err,
            ),
        },
{
    match extract_events_from_ical_with_notices(cal) {
        Ok(out) => Ok(out.0),
        Err(err) => Err(err),
    }
}

} // verus!

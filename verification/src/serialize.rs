//! The ICS serializer: renders one event record as a `VEVENT` block and a
//! record sequence as a whole `VCALENDAR` document.

use vstd::prelude::*;

verus! {

use crate::event::{MpEvent, EventStatus, spec_status_token};
use crate::timestamp::{FixedOffsetDateTime, spec_encode_ical_time, convert_fixed_offset_to_ical_time};

/// The `VEVENT` block for one record: one `NAME:value` line per present
/// field, in the fixed order name, start, end, location, description,
/// status; absent fields emit no line.
pub open spec fn spec_ics_event_string(e: MpEvent) -> Seq<char> {
    "BEGIN:VEVENT\n"@ + (match e.name {
        Some(n) => "SUMMARY:"@ + n@ + "\n"@,
        None => Seq::<char>::empty(),
    }) + (match e.start_time {
        Some(t) => "DTSTART:"@ + spec_encode_ical_time(t) + "\n"@,
        None => Seq::<char>::empty(),
    }) + (match e.end_time {
        Some(t) => "DTEND:"@ + spec_encode_ical_time(t) + "\n"@,
        None => Seq::<char>::empty(),
    }) + (match e.location {
        Some(l) => "LOCATION:"@ + l@ + "\n"@,
        None => Seq::<char>::empty(),
    }) + (match e.description {
        Some(d) => "DESCRIPTION:"@ + d@ + "\n"@,
        None => Seq::<char>::empty(),
    }) + (match e.status {
        Some(st) => "STATUS:"@ + spec_status_token(st) + "\n"@,
        None => Seq::<char>::empty(),
    }) + "END:VEVENT\n"@
}

/// The event blocks of a document, in the input order, with no separators
/// beyond what each block already emits.
pub open spec fn spec_ics_events_concat(events: Seq<MpEvent>) -> Seq<char>
    decreases events.len(),
{
    if events.len() == 0 {
        Seq::<char>::empty()
    } else {
        spec_ics_event_string(events[0]) + spec_ics_events_concat(events.drop_first())
    }
}

/// A whole document: the fixed header, each event's block in order, and the
/// fixed footer.
pub open spec fn spec_ics_document(events: Seq<MpEvent>) -> Seq<char> {
    "BEGIN:VCALENDAR\nVERSION:2.0\nCALSCALE:GREGORIAN\n"@ + spec_ics_events_concat(events)
        + "END:VCALENDAR"@
}

fn append_opt_text_line(out: &mut String, label: &str, v: &Option<String>)
    ensures
        final(out)@ == old(out)@ + (match v {
            Some(x) => label@ + x@ + "\n"@,
            None => Seq::<char>::empty(),
        }),
{
    match v {
        Some(x) => {
            out.append(label);
            out.append(x.as_str());
            out.append("\n");
            proof {
                assert(out@ =~= old(out)@ + (label@ + x@ + "\n"@));
            }
        },
        None => {
            proof {
                assert(out@ =~= old(out)@ + Seq::<char>::empty());
            }
        },
    }
}

fn append_opt_time_line(out: &mut String, label: &str, v: &Option<FixedOffsetDateTime>)
    requires
        match v {
            Some(t) => t.wf(),
            None => true,
        },
    ensures
        final(out)@ == old(out)@ + (match v {
            Some(t) => label@ + spec_encode_ical_time(*t) + "\n"@,
            None => Seq::<char>::empty(),
        }),
{
    match v {
        Some(t) => {
            let encoded = convert_fixed_offset_to_ical_time(*t);
            out.append(label);
            out.append(encoded.as_str());
            out.append("\n");
            proof {
                assert(out@ =~= old(out)@ + (label@ + spec_encode_ical_time(*t) + "\n"@));
            }
        },
        None => {
            proof {
                assert(out@ =~= old(out)@ + Seq::<char>::empty());
            }
        },
    }
}

fn append_opt_status_line(out: &mut String, v: &Option<EventStatus>)
    ensures
        final(out)@ == old(out)@ + (match v {
            Some(st) => "STATUS:"@ + spec_status_token(*st) + "\n"@,
            None => Seq::<char>::empty(),
        }),
{
    match v {
        Some(enum_status) => {
            out.append("STATUS:");
            out.append(enum_status.to_token());
            out.append("\n");
            proof {
                assert(out@ =~= old(out)@ + ("STATUS:"@ + spec_status_token(*enum_status) + "\n"@));
            }
        },
        None => {
            proof {
                assert(out@ =~= old(out)@ + Seq::<char>::empty());
            }
        },
    }
}

impl MpEvent {
    /// Renders this record as its `VEVENT` block.
    pub fn deserialise_to_ics_string(&self) -> (r: String)
        requires
            self.wf(),
        ensures
            r@ == spec_ics_event_string(*self),
    {
        let mut ics_event = String::from_str("BEGIN:VEVENT\n");
        append_opt_text_line(&mut ics_event, "SUMMARY:", &self.name);
        append_opt_time_line(&mut ics_event, "DTSTART:", &self.start_time);
        append_opt_time_line(&mut ics_event, "DTEND:", &self.end_time);
        append_opt_text_line(&mut ics_event, "LOCATION:", &self.location);
        append_opt_text_line(&mut ics_event, "DESCRIPTION:", &self.description);
        append_opt_status_line(&mut ics_event, &self.status);
        ics_event.append("END:VEVENT\n");
        proof {
            assert(ics_event@ =~= spec_ics_event_string(*self));
        }
        ics_event
    }
}

proof fn lemma_ics_concat_take_succ(s: Seq<MpEvent>, i: int)
    requires
        0 <= i < s.len(),
    ensures
        spec_ics_events_concat(s.take(i + 1)) == spec_ics_events_concat(s.take(i))
            + spec_ics_event_string(s[i]),
    decreases i,
{
    if i == 0 {
        assert(s.take(1).drop_first() =~= s.take(0));
        assert(s.take(1)[0] == s[0]);
        assert(spec_ics_events_concat(s.take(1)) =~= spec_ics_events_concat(s.take(0))
            + spec_ics_event_string(s[0]));
    } else {
        lemma_ics_concat_take_succ(s.drop_first(), i - 1);
        assert(s.take(i + 1).drop_first() =~= s.drop_first().take(i));
        assert(s.take(i).drop_first() =~= s.drop_first().take(i - 1));
        assert(s.take(i + 1)[0] == s[0]);
        assert(s.take(i)[0] == s[0]);
        assert(s.drop_first()[i - 1] == s[i]);
        assert(spec_ics_events_concat(s.take(i + 1)) =~= spec_ics_events_concat(s.take(i))
            + spec_ics_event_string(s[i]));
    }
}

/// Renders a record sequence as one ICS document string, events in the
/// input order.
pub fn deserialise_mpevents_to_ics_string(events: &Vec<MpEvent>) -> (r: String)
    requires
        forall|i: int| 0 <= i < events@.len() ==> (#[trigger] events@[i]).wf(),
    ensures
        r@ == spec_ics_document(events@),
{
    let mut out = String::from_str("BEGIN:VCALENDAR\nVERSION:2.0\nCALSCALE:GREGORIAN\n");
    proof {
        assert(events@.take(0).len() == 0);
        assert(out@ =~= "BEGIN:VCALENDAR\nVERSION:2.0\nCALSCALE:GREGORIAN\n"@
            + spec_ics_events_concat(events@.take(0)));
    }
    let n = events.len();
    let mut i: usize = 0;
    while i < n
        invariant
            i <= n,
            n == events@.len(),
            forall|k: int| 0 <= k < events@.len() ==> (#[trigger] events@[k]).wf(),
            out@ == "BEGIN:VCALENDAR\nVERSION:2.0\nCALSCALE:GREGORIAN\n"@ + spec_ics_events_concat(
                events@.take(i as int),
            ),
        decreases n - i,
    {
        let event_string = events[i].deserialise_to_ics_string();
        out.append(event_string.as_str());
        proof {
            lemma_ics_concat_take_succ(events@, i as int);
            assert(out@ =~= "BEGIN:VCALENDAR\nVERSION:2.0\nCALSCALE:GREGORIAN\n"@
                + spec_ics_events_concat(events@.take(i as int + 1)));
        }
        i = i + 1;
    }
    out.append("END:VCALENDAR");
    proof {
        assert(events@.take(n as int) =~= events@);
        assert(out@ =~= spec_ics_document(events@));
    }
    out
}

} // verus!

//! The reporting channel's message model and formatting: a structured
//! message rendered to one line, optionally stamped with the current local
//! time. Printing the line is left to the caller, so the channel can be
//! redirected to any sink.

use vstd::prelude::*;

verus! {

/// One report message: a body, a sender tag, and whether the rendering
/// should carry a time stamp.
#[derive(Debug)]
pub struct Message {
    pub body: String,
    pub output_time: bool,
    pub sender: String,
}

/// An untimed rendering: `[sender] body`.
pub open spec fn spec_plain_message(sender: Seq<char>, body: Seq<char>) -> Seq<char> {
    "["@ + sender + "] "@ + body
}

/// A timed rendering: `[sender] time: body`.
pub open spec fn spec_timed_message(sender: Seq<char>, time: Seq<char>, body: Seq<char>) -> Seq<
    char,
> {
    "["@ + sender + "] "@ + time + ": "@ + body
}

/// Relies on chrono's `Local::now` and `DateTime::format` with `%b %e %T`:
/// the current local wall-clock time rendered like `Aug  2 20:00:00`. The
/// result depends on the clock, so nothing is promised of it.
#[verifier::external_body]
pub fn get_time_as_str() -> (r: String) {
    let local_time: chrono::DateTime<chrono::Local> = chrono::Local::now();
    let time = local_time.format("%b %e %T");
    format!("{}", time)
}

/// Renders a message around an explicit time stamp string.
pub fn format_message_with_time(sender: &str, time_str: &str, body: &str) -> (r: String)
    ensures
        r@ == spec_timed_message(sender@, time_str@, body@),
{
    let mut s = String::from_str("[");
    s.append(sender);
    s.append("] ");
    s.append(time_str);
    s.append(": ");
    s.append(body);
    proof {
        assert(s@ =~= spec_timed_message(sender@, time_str@, body@));
    }
    s
}

/// Renders a message to one line: the sender tag in brackets, then the
/// current local time when the message asks for one, then the body.
pub fn format_message_to_str(message: Message) -> (r: String)
    ensures
        !message.output_time ==> r@ == spec_plain_message(message.sender@, message.body@),
        message.output_time ==> exists|t: Seq<char>|
            r@ == spec_timed_message(message.sender@, t, message.body@),
{
    if message.output_time {
        let time_str = get_time_as_str();
        let r = format_message_with_time(
            message.sender.as_str(),
            time_str.as_str(),
            message.body.as_str(),
        );
        proof {
            assert(r@ == spec_timed_message(message.sender@, time_str@, message.body@));
        }
        r
    } else {
        let mut s = String::from_str("[");
        s.append(message.sender.as_str());
        s.append("] ");
        s.append(message.body.as_str());
        proof {
            assert(s@ =~= spec_plain_message(message.sender@, message.body@));
        }
        s
    }
}

} // verus!

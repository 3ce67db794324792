//! The timestamp codec: an offset-aware wall-clock timestamp, decoding from
//! the wire form `YYYYMMDDTHHMMSS[Z]`, and encoding back to `YYYYMMDDTHHMMSS`.
//!
//! Timezone parameters on the wire are accepted but not applied: every value
//! built here carries a zero UTC offset, and decoding reads the wall-clock
//! fields as they stand.

use vstd::prelude::*;

verus! {

use core::cmp::Ordering;

/// A point in civil time: wall-clock fields paired with a UTC offset in
/// seconds. All constructors produce a zero offset; the field exists so that
/// real offset handling can later flow through the codec without a redesign.
#[derive(Clone, Copy, PartialEq, Eq, Structural, Debug)]
pub struct FixedOffsetDateTime {
    pub year: u16,
    pub month: u8,
    pub day: u8,
    pub hour: u8,
    pub minute: u8,
    pub second: u8,
    pub utc_offset_seconds: i32,
}

pub open spec fn spec_is_leap_year(year: int) -> bool {
    (year % 4 == 0 && year % 100 != 0) || year % 400 == 0
}

pub open spec fn spec_days_in_month(year: int, month: int) -> int {
    if month == 2 {
        if spec_is_leap_year(year) {
            29
        } else {
            28
        }
    } else if month == 4 || month == 6 || month == 9 || month == 11 {
        30
    } else {
        31
    }
}

impl FixedOffsetDateTime {
    /// A well-formed value holds a real calendar date and time of day at the
    /// fixed zero offset.
    pub open spec fn wf(self) -> bool {
        &&& self.year <= 9999
        &&& 1 <= self.month <= 12
        &&& 1 <= self.day <= spec_days_in_month(self.year as int, self.month as int)
        &&& self.hour <= 23
        &&& self.minute <= 59
        &&& self.second <= 59
        &&& self.utc_offset_seconds == 0
    }

    /// Builds a timestamp from wall-clock fields at the zero offset, or
    /// reports an invalid calendar date or time of day with `None`.
    pub fn new(year: u16, month: u8, day: u8, hour: u8, minute: u8, second: u8) -> (r: Option<
        FixedOffsetDateTime,
    >)
        ensures
            ({
                let t = (FixedOffsetDateTime {
                    year,
                    month,
                    day,
                    hour,
                    minute,
                    second,
                    utc_offset_seconds: 0,
                });
                r == if t.wf() {
                    Some(t)
                } else {
                    None::<FixedOffsetDateTime>
                }
            }),
    {
        if year > 9999 || month < 1 || month > 12 {
            return None;
        }
        if day < 1 || day > days_in_month(year, month) {
            return None;
        }
        if hour > 23 || minute > 59 || second > 59 {
            return None;
        }
        Some(
            FixedOffsetDateTime {
                year,
                month,
                day,
                hour,
                minute,
                second,
                utc_offset_seconds: 0,
            },
        )
    }
}

pub fn days_in_month(year: u16, month: u8) -> (r: u8)
    requires
        1 <= month <= 12,
    ensures
        r == spec_days_in_month(year as int, month as int),
{
    if month == 2 {
        if (year % 4 == 0 && year % 100 != 0) || year % 400 == 0 {
            29
        } else {
            28
        }
    } else if month == 4 || month == 6 || month == 9 || month == 11 {
        30
    } else {
        31
    }
}

/// Chronological order of two timestamps at equal offsets: lexicographic on
/// the wall-clock fields, most significant first.
pub open spec fn spec_cmp_time(a: FixedOffsetDateTime, b: FixedOffsetDateTime) -> Ordering {
    if a.year != b.year {
        if a.year < b.year {
            Ordering::Less
        } else {
            Ordering::Greater
        }
    } else if a.month != b.month {
        if a.month < b.month {
            Ordering::Less
        } else {
            Ordering::Greater
        }
    } else if a.day != b.day {
        if a.day < b.day {
            Ordering::Less
        } else {
            Ordering::Greater
        }
    } else if a.hour != b.hour {
        if a.hour < b.hour {
            Ordering::Less
        } else {
            Ordering::Greater
        }
    } else if a.minute != b.minute {
        if a.minute < b.minute {
            Ordering::Less
        } else {
            Ordering::Greater
        }
    } else if a.second != b.second {
        if a.second < b.second {
            Ordering::Less
        } else {
            Ordering::Greater
        }
    } else {
        Ordering::Equal
    }
}

impl FixedOffsetDateTime {
    /// Three-way chronological comparison of the wall-clock fields.
    pub fn cmp_chronological(&self, other: &FixedOffsetDateTime) -> (r: Ordering)
        ensures
            r == spec_cmp_time(*self, *other),
    {
        if self.year != other.year {
            if self.year < other.year {
                Ordering::Less
            } else {
                Ordering::Greater
            }
        } else if self.month != other.month {
            if self.month < other.month {
                Ordering::Less
            } else {
                Ordering::Greater
            }
        } else if self.day != other.day {
            if self.day < other.day {
                Ordering::Less
            } else {
                Ordering::Greater
            }
        } else if self.hour != other.hour {
            if self.hour < other.hour {
                Ordering::Less
            } else {
                Ordering::Greater
            }
        } else if self.minute != other.minute {
            if self.minute < other.minute {
                Ordering::Less
            } else {
                Ordering::Greater
            }
        } else if self.second != other.second {
            if self.second < other.second {
                Ordering::Less
            } else {
                Ordering::Greater
            }
        } else {
            Ordering::Equal
        }
    }
}

/// The character for one decimal digit.
pub open spec fn spec_digit_char(d: int) -> char {
    ((d + 48) as u8) as char
}

pub open spec fn spec_two_digits(n: int) -> Seq<char> {
    seq![spec_digit_char(n / 10), spec_digit_char(n % 10)]
}

pub open spec fn spec_four_digits(n: int) -> Seq<char> {
    seq![
        spec_digit_char(n / 1000),
        spec_digit_char((n / 100) % 10),
        spec_digit_char((n / 10) % 10),
        spec_digit_char(n % 10),
    ]
}

/// The wire rendering of a timestamp: `YYYYMMDDTHHMMSS`, zero padded, with no
/// trailing `Z` and no offset suffix. Encoding is lossy with respect to the
/// offset: only the wall-clock fields are rendered.
pub open spec fn spec_encode_ical_time(t: FixedOffsetDateTime) -> Seq<char> {
    spec_four_digits(t.year as int) + spec_two_digits(t.month as int) + spec_two_digits(
        t.day as int,
    ) + seq!['T'] + spec_two_digits(t.hour as int) + spec_two_digits(t.minute as int)
        + spec_two_digits(t.second as int)
}

fn push_digit(s: &mut String, d: u8)
    requires
        d <= 9,
    ensures
        final(s)@ == old(s)@ + seq![spec_digit_char(d as int)],
{
    proof {
        reveal_strlit("0");
        reveal_strlit("1");
        reveal_strlit("2");
        reveal_strlit("3");
        reveal_strlit("4");
        reveal_strlit("5");
        reveal_strlit("6");
        reveal_strlit("7");
        reveal_strlit("8");
        reveal_strlit("9");
    }
    match d {
        0 => s.append("0"),
        1 => s.append("1"),
        2 => s.append("2"),
        3 => s.append("3"),
        4 => s.append("4"),
        5 => s.append("5"),
        6 => s.append("6"),
        7 => s.append("7"),
        8 => s.append("8"),
        _ => s.append("9"),
    }
    proof {
        assert(s@ =~= old(s)@ + seq![spec_digit_char(d as int)]);
    }
}

fn push_two_digits(s: &mut String, n: u8)
    requires
        n <= 99,
    ensures
        final(s)@ == old(s)@ + spec_two_digits(n as int),
{
    push_digit(s, n / 10);
    push_digit(s, n % 10);
    proof {
        assert(s@ =~= old(s)@ + spec_two_digits(n as int));
    }
}

fn push_four_digits(s: &mut String, n: u16)
    requires
        n <= 9999,
    ensures
        final(s)@ == old(s)@ + spec_four_digits(n as int),
{
    push_digit(s, (n / 1000) as u8);
    push_digit(s, ((n / 100) % 10) as u8);
    push_digit(s, ((n / 10) % 10) as u8);
    push_digit(s, (n % 10) as u8);
    proof {
        assert(s@ =~= old(s)@ + spec_four_digits(n as int));
    }
}

/// Renders a timestamp in the wire form `YYYYMMDDTHHMMSS`.
pub fn convert_fixed_offset_to_ical_time(fo_time: FixedOffsetDateTime) -> (r: String)
    requires
        fo_time.wf(),
    ensures
        r@ == spec_encode_ical_time(fo_time),
{
    let mut s = String::new();
    push_four_digits(&mut s, fo_time.year);
    push_two_digits(&mut s, fo_time.month);
    push_two_digits(&mut s, fo_time.day);
    s.append("T");
    proof {
        reveal_strlit("T");
    }
    push_two_digits(&mut s, fo_time.hour);
    push_two_digits(&mut s, fo_time.minute);
    push_two_digits(&mut s, fo_time.second);
    proof {
        assert(s@ =~= spec_encode_ical_time(fo_time));
    }
    s
}


/// `i` is the index of the first `T` separator in `s`.
pub open spec fn spec_is_first_t(s: Seq<char>, i: int) -> bool {
    &&& 0 <= i < s.len()
    &&& s[i] == 'T'
    &&& forall|k: int| 0 <= k < i ==> s[k] != 'T'
}

pub open spec fn spec_wire_digit(c: char) -> bool {
    48 <= c as u32 <= 57
}

pub open spec fn spec_digit_val(c: char) -> int {
    c as u32 - 48
}

/// With the first `T` at index `i`: the date half before it holds at least
/// eight characters, of which the first eight are digits, and at least six
/// characters follow the `T` before any second `T`, all of them digits.
pub open spec fn spec_wire_shape_at(s: Seq<char>, i: int) -> bool {
    &&& 8 <= i
    &&& i + 7 <= s.len()
    &&& forall|k: int| 0 <= k < 8 ==> spec_wire_digit(s[k])
    &&& forall|k: int| i + 1 <= k < i + 7 ==> spec_wire_digit(s[k])
}

/// The fields read positionally from a well-shaped wire string: 4/2/2 digit
/// substrings before the `T`, 2/2/2 after it; anything further is ignored.
pub open spec fn spec_wire_timestamp(s: Seq<char>, i: int) -> FixedOffsetDateTime {
    FixedOffsetDateTime {
        year: (spec_digit_val(s[0]) * 1000 + spec_digit_val(s[1]) * 100 + spec_digit_val(s[2]) * 10
            + spec_digit_val(s[3])) as u16,
        month: (spec_digit_val(s[4]) * 10 + spec_digit_val(s[5])) as u8,
        day: (spec_digit_val(s[6]) * 10 + spec_digit_val(s[7])) as u8,
        hour: (spec_digit_val(s[i + 1]) * 10 + spec_digit_val(s[i + 2])) as u8,
        minute: (spec_digit_val(s[i + 3]) * 10 + spec_digit_val(s[i + 4])) as u8,
        second: (spec_digit_val(s[i + 5]) * 10 + spec_digit_val(s[i + 6])) as u8,
        utc_offset_seconds: 0,
    }
}

/// What decoding a wire string yields: the positional fields when the string
/// is well shaped around its first `T` and they form a valid calendar date
/// and time, and absence otherwise.
pub open spec fn spec_decode_ical_time(s: Seq<char>) -> Option<FixedOffsetDateTime> {
    if exists|i: int| spec_is_first_t(s, i) {
        let i = choose|i: int| spec_is_first_t(s, i);
        if spec_wire_shape_at(s, i) && spec_wire_timestamp(s, i).wf() {
            Some(spec_wire_timestamp(s, i))
        } else {
            None
        }
    } else {
        None
    }
}

proof fn lemma_first_t_unique(s: Seq<char>, i: int, j: int)
    requires
        spec_is_first_t(s, i),
        spec_is_first_t(s, j),
    ensures
        i == j,
{
    if i < j {
        assert(s[i] != 'T');
    }
    if j < i {
        assert(s[j] != 'T');
    }
}

/// Reads the digit at character position `k`, or reports a non-digit.
fn wire_digit_at(st: &str, k: usize) -> (r: Option<u8>)
    requires
        k < st@.len(),
    ensures
        match r {
            Some(d) => spec_wire_digit(st@[k as int]) && d == spec_digit_val(st@[k as int]),
            None => !spec_wire_digit(st@[k as int]),
        },
{
    let c = st.get_char(k);
    let v = c as u32;
    if 48 <= v && v <= 57 {
        Some((v - 48) as u8)
    } else {
        None
    }
}

/// Decodes the wire form `YYYYMMDDTHHMMSS`, tolerating a trailing `Z` or any
/// other trailing text, by positional substring extraction around the first
/// `T`. Timezone parameters are accepted but not applied. A missing value, a
/// malformed string, and an invalid calendar date or time all yield absence.
pub fn convert_ical_time_to_fixed_offset(
    ical_time: Option<&String>,
    ical_tz: Option<&Vec<(String, Vec<String>)>>,
) -> (r: Option<FixedOffsetDateTime>)
    ensures
        r == match ical_time {
            Some(s) => spec_decode_ical_time(s@),
            None => None::<FixedOffsetDateTime>,
        },
{
    let s = match ical_time {
        Some(s) => s,
        None => { return None; },
    };
    let st: &str = s.as_str();
    let n = st.unicode_len();
    let ghost sv = st@;
    // Find the first 'T' separator.
    let mut i: usize = 0;
    while i < n && st.get_char(i) != 'T'
        invariant
            i <= n,
            n == sv.len(),
            sv == st@,
            forall|k: int| 0 <= k < i ==> sv[k] != 'T',
        decreases n - i,
    {
        i = i + 1;
    }
    if i == n {
        // No separator at all: malformed.
        proof {
            assert(forall|k: int| spec_is_first_t(sv, k) ==> false);
        }
        return None;
    }
    proof {
        assert(spec_is_first_t(sv, i as int));
        lemma_first_t_unique(sv, i as int, choose|k: int| spec_is_first_t(sv, k));
    }
    // The date half must hold at least 8 characters, the time half at least 6.
    if i < 8 || n - i < 7 {
        return None;
    }
    let d0 = wire_digit_at(st, 0);
    let d1 = wire_digit_at(st, 1);
    let d2 = wire_digit_at(st, 2);
    let d3 = wire_digit_at(st, 3);
    let d4 = wire_digit_at(st, 4);
    let d5 = wire_digit_at(st, 5);
    let d6 = wire_digit_at(st, 6);
    let d7 = wire_digit_at(st, 7);
    let h0 = wire_digit_at(st, i + 1);
    let h1 = wire_digit_at(st, i + 2);
    let m0 = wire_digit_at(st, i + 3);
    let m1 = wire_digit_at(st, i + 4);
    let s0 = wire_digit_at(st, i + 5);
    let s1 = wire_digit_at(st, i + 6);
    match (d0, d1, d2, d3, d4, d5, d6, d7, h0, h1, m0, m1, s0, s1) {
        (
            Some(d0),
            Some(d1),
            Some(d2),
            Some(d3),
            Some(d4),
            Some(d5),
            Some(d6),
            Some(d7),
            Some(h0),
            Some(h1),
            Some(m0),
            Some(m1),
            Some(s0),
            Some(s1),
        ) => {
            proof {
                assert(spec_wire_shape_at(sv, i as int));
            }
            let year: u16 = d0 as u16 * 1000 + d1 as u16 * 100 + d2 as u16 * 10 + d3 as u16;
            let month: u8 = d4 * 10 + d5;
            let day: u8 = d6 * 10 + d7;
            let hour: u8 = h0 * 10 + h1;
            let minute: u8 = m0 * 10 + m1;
            let second: u8 = s0 * 10 + s1;
            FixedOffsetDateTime::new(year, month, day, hour, minute, second)
        },
        _ => {
            // A non-digit where a field was expected: malformed.
            None
        },
    }
}


proof fn lemma_digit_char_val(d: int)
    requires
        0 <= d <= 9,
    ensures
        spec_wire_digit(spec_digit_char(d)),
        spec_digit_val(spec_digit_char(d)) == d,
        spec_digit_char(d) != 'T',
{
}

proof fn lemma_two_digit_split(n: int)
    requires
        0 <= n <= 99,
    ensures
        0 <= n / 10 <= 9,
        0 <= n % 10 <= 9,
        (n / 10) * 10 + n % 10 == n,
{
}

proof fn lemma_four_digit_split(n: int)
    requires
        0 <= n <= 9999,
    ensures
        0 <= n / 1000 <= 9,
        0 <= (n / 100) % 10 <= 9,
        0 <= (n / 10) % 10 <= 9,
        0 <= n % 10 <= 9,
        (n / 1000) * 1000 + ((n / 100) % 10) * 100 + ((n / 10) % 10) * 10 + n % 10 == n,
{
    assert((n / 1000) * 1000 + ((n / 100) % 10) * 100 + ((n / 10) % 10) * 10 + n % 10 == n) by (nonlinear_arith)
        requires 0 <= n <= 9999;
}

/// Decoding inverts encoding: for any well-formed timestamp, decoding its
/// wire rendering under the zero-offset assumption yields the timestamp
/// itself. (The converse round trip is looser only in that decoding also
/// accepts a trailing `Z`, which encoding never emits.)
pub proof fn lemma_decode_encode_round_trip(t: FixedOffsetDateTime)
    requires
        t.wf(),
    ensures
        spec_decode_ical_time(spec_encode_ical_time(t)) == Some(t),
{
    let s = spec_encode_ical_time(t);
    lemma_four_digit_split(t.year as int);
    lemma_two_digit_split(t.month as int);
    lemma_two_digit_split(t.day as int);
    lemma_two_digit_split(t.hour as int);
    lemma_two_digit_split(t.minute as int);
    lemma_two_digit_split(t.second as int);
    assert forall|d: int| 0 <= d <= 9 implies spec_wire_digit(spec_digit_char(d))
        && spec_digit_val(spec_digit_char(d)) == d && spec_digit_char(d) != 'T' by {
        lemma_digit_char_val(d);
    }
    assert(s.len() == 15);
    assert(s[8] == 'T');
    assert(forall|k: int| 0 <= k < 8 ==> spec_wire_digit(#[trigger] s[k]));
    assert(forall|k: int| 9 <= k < 15 ==> spec_wire_digit(#[trigger] s[k]));
    assert(spec_is_first_t(s, 8));
    let i = choose|i: int| spec_is_first_t(s, i);
    lemma_first_t_unique(s, i, 8);
    assert(spec_wire_shape_at(s, 8));
    assert(spec_wire_timestamp(s, 8) == t);
}

} // verus!

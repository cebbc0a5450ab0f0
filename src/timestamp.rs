use vstd::prelude::*;
use crate::text::{is_white_space, white_space};

verus! {

/// A UTC instant: whole seconds since the Unix epoch and the nanoseconds past
/// that second (above 999,999,999 only within a leap second).
#[derive(Clone, Copy, Debug, PartialEq, Eq, Structural)]
pub struct Timestamp {
    pub secs: i64,
    pub nanos: u32,
}

/// The instants in time order: seconds first, then nanoseconds.
pub open spec fn later_than(a: Timestamp, b: Timestamp) -> bool {
    a.secs > b.secs || (a.secs == b.secs && a.nanos > b.nanos)
}

/// How `a` stands to `b` in time order.
pub open spec fn order_of(a: Timestamp, b: Timestamp) -> core::cmp::Ordering {
    if later_than(a, b) {
        core::cmp::Ordering::Greater
    } else if a == b {
        core::cmp::Ordering::Equal
    } else {
        core::cmp::Ordering::Less
    }
}

impl PartialOrd for Timestamp {
    fn partial_cmp(&self, other: &Timestamp) -> Option<core::cmp::Ordering> {
        if self.is_later_than(other) {
            Some(core::cmp::Ordering::Greater)
        } else if self.secs == other.secs && self.nanos == other.nanos {
            Some(core::cmp::Ordering::Equal)
        } else {
            Some(core::cmp::Ordering::Less)
        }
    }
}

impl vstd::std_specs::cmp::PartialOrdSpecImpl for Timestamp {
    open spec fn obeys_partial_cmp_spec() -> bool {
        true
    }

    open spec fn partial_cmp_spec(&self, other: &Timestamp) -> Option<core::cmp::Ordering> {
        Some(order_of(*self, *other))
    }
}

/// From 0001-01-01 00:00:00 to 9999-12-31 23:59:59 UTC, outside a leap second.
pub open spec fn in_common_era_range(secs: i64, nanos: u32) -> bool {
    nanos < 1_000_000_000 && -62_135_596_800 <= secs <= 253_402_300_799
}

pub open spec fn is_ascii_digit(c: char) -> bool {
    '0' <= c <= '9'
}

/// Two digits that read as an hour count of 24 or more.
pub open spec fn hours_at_least_day(a: char, b: char) -> bool {
    is_ascii_digit(a) && is_ascii_digit(b) && (a > '2' || (a == '2' && b >= '4'))
}

/// A numeric zone field at `p` that could close the text: a sign and two
/// digits of 24 hours or more among the last three to six characters, after
/// white space, or after a digit that ends a date (`yyyy-mm-dd`) or a time.
pub open spec fn oversized_zone_at(s: Seq<char>, p: int) -> bool {
    &&& 1 <= p
    &&& s.len() - 6 <= p <= s.len() - 3
    &&& (s[p] == '+' || s[p] == '-')
    &&& hours_at_least_day(s[p + 1], s[p + 2])
    &&& (is_white_space(s[p - 1]) || (is_ascii_digit(s[p - 1]) && (p == 10 || exists|k: int|
        0 <= k < p && s[k] == ':')))
}

/// The text may end in a zone offset of a day or more.
pub open spec fn oversized_zone(s: Seq<char>) -> bool {
    exists|p: int| oversized_zone_at(s, p)
}

/// Whether some character before `p` is a colon.
fn colon_before(s: &str, p: usize) -> (r: bool)
    requires
        p <= s@.len(),
    ensures
        r == exists|k: int| 0 <= k < p && s@[k] == ':',
{
    let mut k: usize = 0;
    while k < p
        invariant
            p <= s@.len(),
            k <= p,
            forall|j: int| 0 <= j < k ==> s@[j] != ':',
        decreases p - k,
    {
        if s.get_char(k) == ':' {
            return true;
        }
        k = k + 1;
    }
    false
}

fn ascii_digit(c: char) -> (r: bool)
    ensures
        r == is_ascii_digit(c),
{
    '0' <= c && c <= '9'
}

/// Whether the text may end in a zone offset of a day or more, as
/// `oversized_zone` says.
pub fn has_oversized_zone(s: &str) -> (r: bool)
    ensures
        r == oversized_zone(s@),
{
    let n = s.unicode_len();
    if n < 4 {
        assert forall|p: int| !oversized_zone_at(s@, p) by {}
        return false;
    }
    let mut p: usize = if n >= 7 { n - 6 } else { 1 };
    while p <= n - 3
        invariant
            n == s@.len(),
            n >= 4,
            1 <= p <= n - 2,
            n - 6 <= p,
            forall|q: int| q < p ==> !oversized_zone_at(s@, q),
        decreases n - 2 - p,
    {
        let sign = s.get_char(p);
        let before = s.get_char(p - 1);
        let a = s.get_char(p + 1);
        let b = s.get_char(p + 2);
        if (sign == '+' || sign == '-') && ascii_digit(a) && ascii_digit(b)
            && (a > '2' || (a == '2' && b >= '4'))
            && (white_space(before) || (ascii_digit(before) && (p == 10 || colon_before(s, p))))
        {
            assert(oversized_zone_at(s@, p as int));
            return true;
        }
        p = p + 1;
    }
    assert forall|q: int| !oversized_zone_at(s@, q) by {}
    false
}

/// What chrono prints for the instant (`2024-03-20 00:00:00 UTC`).
pub uninterp spec fn utc_text(secs: i64, nanos: u32) -> Seq<char>;

/// Relies on chrono::Utc::now for the current instant, read back through
/// `timestamp` and `timestamp_subsec_nanos`.
/// The instant is built from the time since the epoch, so its seconds are
/// not negative and its nanoseconds stay below one second.
#[verifier::external_body]
fn clock_now() -> (r: (i64, u32))
    ensures
        r.0 >= 0,
        r.1 < 1_000_000_000,
{
    let t = chrono::Utc::now();
    (t.timestamp(), t.timestamp_subsec_nanos())
}

/// Relies on dateparser's `FromStr` for `DateTimeUtc`: it recognises many
/// date-time layouts, and reads one without a zone in the machine's zone.
/// A numeric zone of 24 hours or more makes it panic (chrono's
/// `FixedOffset::east`), so such a text is not handed over. chrono keeps the
/// fraction of a second below two seconds.
#[verifier::external_body]
fn parse_date_time(s: &str) -> (r: Option<(i64, u32)>)
    requires
        !oversized_zone(s@),
    ensures
        r matches Some(p) ==> p.1 < 2_000_000_000,
{
    match s.parse::<dateparser::DateTimeUtc>() {
        Ok(d) => Some((d.0.timestamp(), d.0.timestamp_subsec_nanos())),
        Err(_) => None,
    }
}

/// Relies on chrono's `DateTime::<Utc>::from_timestamp`, which refuses only
/// an out-of-range day or an invalid fraction, and on its `Display`.
#[verifier::external_body]
fn format_date_time(secs: i64, nanos: u32) -> (r: Option<String>)
    ensures
        r matches Some(t) ==> t@ == utc_text(secs, nanos),
        in_common_era_range(secs, nanos) ==> r.is_some(),
{
    match chrono::DateTime::<chrono::Utc>::from_timestamp(secs, nanos) {
        Some(d) => Some(d.to_string()),
        None => None,
    }
}

impl Timestamp {
    /// The current instant.
    pub fn now() -> (r: Timestamp)
        ensures
            r.secs >= 0,
            r.nanos < 1_000_000_000,
    {
        let (secs, nanos) = clock_now();
        Timestamp { secs, nanos }
    }

    /// Whether `self` lies strictly after `other`.
    pub fn is_later_than(&self, other: &Timestamp) -> (r: bool)
        ensures
            r == later_than(*self, *other),
    {
        self.secs > other.secs || (self.secs == other.secs && self.nanos > other.nanos)
    }

    /// Reads a date-time text; `None` where no known layout matches, and for
    /// a text that may end in a zone offset of a day or more.
    pub fn parse(text: &str) -> (r: Option<Timestamp>)
        ensures
            oversized_zone(text@) ==> r.is_none(),
            r matches Some(t) ==> t.nanos < 2_000_000_000,
    {
        if has_oversized_zone(text) {
            return None;
        }
        match parse_date_time(text) {
            Some((secs, nanos)) => Some(Timestamp { secs, nanos }),
            None => None,
        }
    }

    /// The instant as text, `None` where it lies outside chrono's range.
    pub fn to_text(&self) -> (r: Option<String>)
        ensures
            r matches Some(t) ==> t@ == utc_text(self.secs, self.nanos),
            in_common_era_range(self.secs, self.nanos) ==> r.is_some(),
    {
        format_date_time(self.secs, self.nanos)
    }
}

} // verus!

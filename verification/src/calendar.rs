//! Moments in UTC and their text forms.

use vstd::prelude::*;

verus! {

/// A moment in UTC: seconds since the Unix epoch and the nanoseconds beyond them,
/// which reach a full second and more within a leap second.
#[derive(Clone, Copy, Debug, PartialEq, Eq, Structural)]
pub struct Moment {
    /// Whole seconds since the Unix epoch.
    pub secs: i64,
    /// Nanoseconds beyond them.
    pub nanos: u32,
}

/// Whether `a` is not after `b`.
pub open spec fn not_after(a: Moment, b: Moment) -> bool {
    a.secs < b.secs || (a.secs == b.secs && a.nanos <= b.nanos)
}

/// The moment that a text names in RFC 3339, if it does.
pub uninterp spec fn rfc3339_moment(text: Seq<char>) -> Option<Moment>;

/// `chrono::DateTime::parse_from_rfc3339`: the moment that the text names, whatever
/// offset it is written with. The calendar reaches every such moment, so it has a text.
#[verifier::external_body]
pub(crate) fn parse_rfc3339(text: &str) -> (r: Option<Moment>)
    ensures
        r == rfc3339_moment(text@),
        r matches Some(moment) ==> micros_text(moment) is Some,
{
    chrono::DateTime::parse_from_rfc3339(text).ok().map(
        |time| Moment { secs: time.timestamp(), nanos: time.timestamp_subsec_nanos() },
    )
}

/// The moment that a text without an offset names in UTC under a format, if it does.
pub uninterp spec fn naive_moment(text: Seq<char>, format: Seq<char>) -> Option<Moment>;

/// `chrono::NaiveDateTime::parse_from_str`: the date and time that the text spells
/// under the format, read as UTC.
#[verifier::external_body]
pub(crate) fn parse_naive(text: &str, format: &str) -> (r: Option<Moment>)
    ensures
        r == naive_moment(text@, format@),
{
    chrono::NaiveDateTime::parse_from_str(text, format).ok().map(|time| time.and_utc()).map(
        |time| Moment { secs: time.timestamp(), nanos: time.timestamp_subsec_nanos() },
    )
}

/// The text of a moment in RFC 3339 with microseconds and `Z`, if the calendar
/// reaches it.
pub uninterp spec fn micros_text(moment: Moment) -> Option<Seq<char>>;

/// Whether a moment is a whole microsecond in the years 0 to 9999, outside leap
/// seconds.
pub open spec fn is_plain(moment: Moment) -> bool {
    &&& -62_167_219_200 <= moment.secs <= 253_402_300_799
    &&& moment.nanos < 1_000_000_000
    &&& moment.nanos % 1_000 == 0
}

/// `chrono::DateTime::to_rfc3339_opts` with microseconds and `Z`: the moment's text.
/// A plain moment has one, and reading it gives the moment back.
#[verifier::external_body]
pub(crate) fn format_micros(moment: Moment) -> (r: Option<String>)
    ensures
        match r {
            Some(text) => micros_text(moment) == Some(text@),
            None => micros_text(moment) is None,
        },
        is_plain(moment) ==> r is Some && rfc3339_moment(r->0@) == Some(moment),
{
    chrono::DateTime::from_timestamp(moment.secs, moment.nanos).map(
        |time| time.to_rfc3339_opts(chrono::SecondsFormat::Micros, true),
    )
}

/// Moments are ordered by their instants: the seconds, and within a second the nanoseconds.
pub proof fn law_moments_are_ordered_by_their_instants(a: Moment, b: Moment)
    requires
        a.nanos < 1_000_000_000,
        b.nanos < 1_000_000_000,
    ensures
        not_after(a, b) <==> a.secs * 1_000_000_000 + a.nanos <= b.secs * 1_000_000_000 + b.nanos,
{
}

/// The order of moments is total, and only a moment itself is neither before nor after it.
pub proof fn law_moments_are_ordered(a: Moment, b: Moment, c: Moment)
    ensures
        not_after(a, b) || not_after(b, a),
        not_after(a, b) && not_after(b, a) ==> a == b,
        not_after(a, b) && not_after(b, c) ==> not_after(a, c),
        not_after(a, b) && a.secs == b.secs ==> a.nanos <= b.nanos,
{
}

} // verus!

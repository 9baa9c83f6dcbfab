//! Cursor timestamps with microsecond precision.

use crate::calendar;
use crate::calendar::{parse_rfc3339, Moment};
use vstd::prelude::*;

verus! {

/// A configuration failure; its text never echoes what was configured.
#[derive(Clone, Copy, Debug)]
pub struct ConfigError {
    /// What an operator is told.
    pub message: &'static str,
}

/// Why a timestamp cannot be a cursor, if it cannot.
pub open spec fn timestamp_failure(moment: Option<Moment>) -> Option<Seq<char>> {
    match moment {
        None => Some("timestamp must be an RFC3339 timestamp with an explicit offset"@),
        Some(moment) => if moment.nanos % 1_000 != 0 {
            Some("PostgreSQL timestamps require microsecond precision"@)
        } else {
            None
        },
    }
}

/// The cursor timestamp that a text names, if it names one.
pub open spec fn cursor_moment(value: Seq<char>) -> Option<Moment> {
    if timestamp_failure(calendar::rfc3339_moment(value)) is None {
        calendar::rfc3339_moment(value)
    } else {
        None
    }
}

/// Accepts a moment that was read as RFC 3339 when it is a whole number of microseconds.
pub fn require_micros(moment: Option<Moment>) -> (r: Result<Moment, ConfigError>)
    ensures
        match r {
            Ok(accepted) => timestamp_failure(moment) is None && moment == Some(accepted),
            Err(error) => timestamp_failure(moment) == Some(error.message@),
        },
{
    match moment {
        None => Err(
            ConfigError {
                message: "timestamp must be an RFC3339 timestamp with an explicit offset",
            },
        ),
        Some(moment) => if moment.nanos % 1_000 != 0 {
            Err(ConfigError { message: "PostgreSQL timestamps require microsecond precision" })
        } else {
            Ok(moment)
        },
    }
}

/// Reads a cursor timestamp: RFC 3339 with an offset, in whole microseconds.
pub fn parse_timestamp(value: &str) -> (r: Result<Moment, ConfigError>)
    ensures
        match r {
            Ok(moment) => cursor_moment(value@) == Some(moment) && calendar::micros_text(
                moment,
            ) is Some,
            Err(error) => cursor_moment(value@) is None && timestamp_failure(
                calendar::rfc3339_moment(value@),
            ) == Some(error.message@),
        },
{
    require_micros(parse_rfc3339(value))
}

/// A text names a cursor timestamp exactly when it is RFC 3339 and a whole number of
/// microseconds, and then it names that moment.
pub proof fn law_cursor_timestamps_are_whole_microseconds(value: Seq<char>)
    ensures
        cursor_moment(value) is Some <==> (calendar::rfc3339_moment(value) matches Some(moment)
            && moment.nanos % 1_000 == 0),
        cursor_moment(value) is Some ==> cursor_moment(value) == calendar::rfc3339_moment(value),
{
}

} // verus!

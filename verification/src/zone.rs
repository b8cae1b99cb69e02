//! The timezone database, as far as this crate needs it.
//!
//! Zone names and wall-clock readings come from `chrono-tz` and `chrono`.
//! What they answer is not proved here: it is named by the two spec functions
//! below, and the two wrappers are believed to return exactly that.

use chrono::offset::LocalResult;
use chrono::{TimeZone, Timelike};
use chrono_tz::Tz;
use vstd::prelude::*;

verus! {

/// The last instant, in milliseconds after the Unix epoch, for which a clock
/// reading is offered: the final millisecond of the year 9999 (UTC).
pub const LAST_INSTANT_MILLIS: i64 = 253_402_300_799_999;

/// The name under which the zone database lists `text`, or `None` where the
/// database has no zone of that name.
pub uninterp spec fn zone_canonical_name(text: Seq<char>) -> Option<Seq<char>>;

/// The hour and minute that a wall clock in the zone `text` shows at
/// `millis` milliseconds after the Unix epoch.
pub uninterp spec fn zone_wall_clock(text: Seq<char>, millis: int) -> (int, int);

/// Looks `text` up in the zone database and gives the zone's name.
///
/// Trusted: parses with `<chrono_tz::Tz as FromStr>::from_str` and names the
/// zone with `chrono_tz::Tz::name`. The contract only says that the answer is
/// the one `zone_canonical_name` stands for.
#[verifier::external_body]
pub(crate) fn lookup_zone_name(text: &str) -> (name: Option<String>)
    ensures
        match name {
            Some(n) => zone_canonical_name(text@) == Some(n@),
            None => zone_canonical_name(text@) is None,
        },
{
    match text.parse::<Tz>() {
        Ok(zone) => Some(zone.name().to_string()),
        Err(_) => None,
    }
}

/// Reads the wall clock of the zone `text` at `millis`.
///
/// Trusted: parses the zone as `lookup_zone_name` does, converts the instant
/// with `chrono::TimeZone::timestamp_millis_opt` and reads
/// `chrono::Timelike::hour` and `minute`. The contract claims that a reading
/// comes back exactly when the zone is known (the instant is inside chrono's
/// range by the precondition), that it is the one `zone_wall_clock` stands
/// for, and that the hour is below 24 and the minute below 60.
#[verifier::external_body]
pub(crate) fn read_wall_clock(text: &str, millis: i64) -> (clock: Option<(u32, u32)>)
    requires
        0 <= millis <= LAST_INSTANT_MILLIS,
    ensures
        clock is Some <==> zone_canonical_name(text@) is Some,
        clock matches Some((hour, minute)) ==> {
            &&& zone_wall_clock(text@, millis as int) == (hour as int, minute as int)
            &&& hour < 24
            &&& minute < 60
        },
{
    match text.parse::<Tz>() {
        Ok(zone) => match zone.timestamp_millis_opt(millis) {
            LocalResult::Single(at) => Some((at.hour(), at.minute())),
            _ => None,
        },
        Err(_) => None,
    }
}

} // verus!

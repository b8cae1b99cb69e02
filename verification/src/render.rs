//! The time-label renderer: a zone and an instant give the display name of a
//! clock role, `"<zone name> <HH:MM>"`.

use crate::text::{digit_char, lemma_digit_char_injective, two_digit_text, two_digits};
use crate::zone::{
    lookup_zone_name, read_wall_clock, zone_canonical_name, zone_wall_clock, LAST_INSTANT_MILLIS,
};
use vstd::prelude::*;
use vstd::string::*;

verus! {

/// A point in time, in whole milliseconds after the Unix epoch.
///
/// Every value lies between the epoch and `LAST_INSTANT_MILLIS`.
#[derive(Clone, Copy, Debug, PartialEq, Eq)]
pub struct Instant {
    millis: i64,
}

impl Instant {
    #[verifier::type_invariant]
    spec fn in_range(self) -> bool {
        0 <= self.millis <= LAST_INSTANT_MILLIS
    }

    /// The milliseconds after the epoch that this instant stands for.
    pub closed spec fn spec_millis(self) -> int {
        self.millis as int
    }

    /// The instant `millis` milliseconds after the epoch, where that lies in
    /// the supported range.
    pub fn from_millis(millis: i64) -> (instant: Option<Instant>)
        ensures
            instant is Some <==> 0 <= millis <= LAST_INSTANT_MILLIS,
            instant matches Some(i) ==> i.spec_millis() == millis,
    {
        if 0 <= millis && millis <= LAST_INSTANT_MILLIS {
            Some(Instant { millis })
        } else {
            None
        }
    }

    /// The milliseconds after the epoch.
    pub fn millis(&self) -> (millis: i64)
        ensures
            millis == self.spec_millis(),
            0 <= millis <= LAST_INSTANT_MILLIS,
    {
        proof {
            use_type_invariant(self);
        }
        self.millis
    }
}

/// Why a label could not be rendered.
#[derive(Clone, Copy, Debug, PartialEq, Eq)]
pub enum RenderError {
    /// The zone identifier does not resolve against the zone database.
    InvalidTimezone,
}

/// The label of a clock role: the zone's name, a space, and the local time
/// as `HH:MM` on a 24-hour clock.
pub open spec fn label_text(zone_name: Seq<char>, hour: int, minute: int) -> Seq<char> {
    zone_name + seq![' '] + two_digit_text(hour) + seq![':'] + two_digit_text(minute)
}

/// What `render` owes for a zone identifier and an instant.
pub open spec fn rendering(timezone: Seq<char>, millis: int) -> Result<Seq<char>, RenderError> {
    match zone_canonical_name(timezone) {
        Some(name) => {
            let (hour, minute) = zone_wall_clock(timezone, millis);
            Ok(label_text(name, hour, minute))
        },
        None => Err(RenderError::InvalidTimezone),
    }
}

/// The view of a rendering result: the label's characters, or the error.
pub open spec fn label_view(result: Result<String, RenderError>) -> Result<Seq<char>, RenderError> {
    match result {
        Ok(label) => Ok(label@),
        Err(e) => Err(e),
    }
}

/// Builds the label for a zone name and a wall-clock reading.
pub fn format_label(zone_name: &str, hour: u32, minute: u32) -> (label: String)
    requires
        hour < 24,
        minute < 60,
    ensures
        label@ == label_text(zone_name@, hour as int, minute as int),
{
    let mut label = String::from_str(zone_name);
    label.append(" ");
    label.append(two_digits(hour).as_str());
    label.append(":");
    label.append(two_digits(minute).as_str());
    proof {
        reveal_strlit(" ");
        reveal_strlit(":");
        assert(" "@ =~= seq![' ']);
        assert(":"@ =~= seq![':']);
    }
    label
}

/// Renders the label that the role of `timezone` carries at `instant`.
///
/// Fails with `InvalidTimezone` exactly when the zone database does not know
/// `timezone`. Nothing is cached: every call reads the clock anew.
pub fn render(timezone: &str, instant: Instant) -> (label: Result<String, RenderError>)
    ensures
        label_view(label) == rendering(timezone@, instant.spec_millis()),
{
    let millis = instant.millis();
    match lookup_zone_name(timezone) {
        Some(name) => match read_wall_clock(timezone, millis) {
            Some((hour, minute)) => Ok(format_label(name.as_str(), hour, minute)),
            None => Err(RenderError::InvalidTimezone),
        },
        None => Err(RenderError::InvalidTimezone),
    }
}

/// Rendering is a function of the zone identifier and the instant: any two
/// results that `render` may give for the same pair are the same.
pub proof fn law_render_deterministic(
    timezone: Seq<char>,
    millis: int,
    first: Result<String, RenderError>,
    second: Result<String, RenderError>,
)
    requires
        label_view(first) == rendering(timezone, millis),
        label_view(second) == rendering(timezone, millis),
    ensures
        label_view(first) == label_view(second),
{
}

/// Two instants at which the zone's wall clock shows the same hour and
/// minute render alike.
pub proof fn law_same_minute_same_label(timezone: Seq<char>, first: int, second: int)
    requires
        zone_wall_clock(timezone, first) == zone_wall_clock(timezone, second),
    ensures
        rendering(timezone, first) == rendering(timezone, second),
{
}

/// The label of a zone tells the minutes of the day apart: it changes exactly
/// when the hour or the minute does.
pub proof fn law_label_changes_with_minute(
    zone_name: Seq<char>,
    hour: int,
    minute: int,
    other_hour: int,
    other_minute: int,
)
    requires
        0 <= hour < 24,
        0 <= minute < 60,
        0 <= other_hour < 24,
        0 <= other_minute < 60,
    ensures
        label_text(zone_name, hour, minute) == label_text(zone_name, other_hour, other_minute)
            <==> hour == other_hour && minute == other_minute,
{
    let a = label_text(zone_name, hour, minute);
    let b = label_text(zone_name, other_hour, other_minute);
    let n = zone_name.len() as int;
    assert(a.len() == n + 6);
    assert(a[n + 1] == digit_char(hour / 10));
    assert(a[n + 2] == digit_char(hour % 10));
    assert(a[n + 4] == digit_char(minute / 10));
    assert(a[n + 5] == digit_char(minute % 10));
    assert(b[n + 1] == digit_char(other_hour / 10));
    assert(b[n + 2] == digit_char(other_hour % 10));
    assert(b[n + 4] == digit_char(other_minute / 10));
    assert(b[n + 5] == digit_char(other_minute % 10));
    lemma_digit_char_injective(hour / 10, other_hour / 10);
    lemma_digit_char_injective(hour % 10, other_hour % 10);
    lemma_digit_char_injective(minute / 10, other_minute / 10);
    lemma_digit_char_injective(minute % 10, other_minute % 10);
}

} // verus!

//! Which IANA time zone the sidebar's clock shows.

use vstd::prelude::*;

verus! {

/// Whether `chrono_tz` knows `name` as a time zone (its `FromStr` succeeds).
pub uninterp spec fn known_timezone(name: Seq<char>) -> bool;

/// Calls `<chrono_tz::Tz as FromStr>::from_str` on `name` and reports whether
/// it succeeded: a lookup of the exact name in the crate's table of zones, so
/// the answer depends on the name alone.
#[verifier::external_body]
fn is_known_timezone(name: &str) -> (b: bool)
    ensures
        b == known_timezone(name@),
{
    name.parse::<chrono_tz::Tz>().is_ok()
}

/// The zone asked for: the plugin's `timezone` setting, else the `TZ`
/// environment variable, else `America/Recife`.
pub open spec fn requested_timezone(configured: Option<Seq<char>>, env_tz: Option<Seq<char>>) -> Seq<
    char,
> {
    match configured {
        Some(c) => c,
        None => match env_tz {
            Some(e) => e,
            None => "America/Recife"@,
        },
    }
}

/// The zone the clock uses: the one asked for when `chrono_tz` knows it,
/// otherwise UTC.
pub open spec fn clock_timezone(configured: Option<Seq<char>>, env_tz: Option<Seq<char>>) -> Seq<
    char,
> {
    let name = requested_timezone(configured, env_tz);
    if known_timezone(name) {
        name
    } else {
        "UTC"@
    }
}

/// The name of the zone the clock shows, given the plugin's `timezone`
/// setting and the `TZ` environment variable.
pub fn resolve_timezone(configured: Option<&str>, env_tz: Option<&str>) -> (zone: String)
    ensures
        zone@ == clock_timezone(
            match configured {
                Some(c) => Some(c@),
                None => None,
            },
            match env_tz {
                Some(e) => Some(e@),
                None => None,
            },
        ),
{
    let name: &str = match configured {
        Some(c) => c,
        None => match env_tz {
            Some(e) => e,
            None => "America/Recife",
        },
    };
    if is_known_timezone(name) {
        String::from_str(name)
    } else {
        String::from_str("UTC")
    }
}

/// The text chrono writes for the instant `now_ms` (milliseconds since the
/// Unix epoch) in the zone named `zone` with the strftime `pattern`, when it
/// knows the zone and the instant lies in its range.
pub uninterp spec fn local_time(now_ms: int, zone: Seq<char>, pattern: Seq<char>) -> Option<
    Seq<char>,
>;

/// The strftime patterns the sidebar writes: the date and the clock.
pub open spec fn clock_pattern(pattern: Seq<char>) -> bool {
    pattern == "%a %d/%m"@ || pattern == "%H:%M:%S"@
}

/// Calls chrono's `DateTime::format` with `pattern` on the instant `now_ms`
/// seen in the zone named `zone`; the zone name goes through
/// `<chrono_tz::Tz as FromStr>::from_str` and the instant through
/// `DateTime::from_timestamp_millis` and `with_timezone`. `None` when the zone
/// is unknown or the instant lies outside chrono's range. The zone table is
/// built into chrono-tz, so the result depends on the arguments alone; the
/// pattern is one whose items chrono always formats.
#[verifier::external_body]
pub(crate) fn local_time_text(now_ms: i64, zone: &str, pattern: &str) -> (text: Option<String>)
    requires
        clock_pattern(pattern@),
    ensures
        match text {
            Some(t) => local_time(now_ms as int, zone@, pattern@) == Some(t@),
            None => local_time(now_ms as int, zone@, pattern@) is None,
        },
{
    match zone.parse::<chrono_tz::Tz>() {
        Ok(tz) => match chrono::DateTime::from_timestamp_millis(now_ms) {
            Some(t) => Some(t.with_timezone(&tz).format(pattern).to_string()),
            None => None,
        },
        Err(_) => None,
    }
}

} // verus!

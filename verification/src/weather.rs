//! The forecast request URL and the human-readable temperature report.
//!
//! The report replaces every `T` in the reading's timestamp by a space — a
//! raw character substitution, adequate for the fixed `T`-separated
//! timestamp format — and appends the temperature token and its unit symbol.

use crate::text::chars_of;
use crate::text::string_of;
use crate::types::ApiResponse;
use crate::types::AppConfig;
use vstd::prelude::*;

verus! {

/// The timestamp with every `T` replaced by a space.
pub open spec fn spec_replace_t(s: Seq<char>) -> Seq<char> {
    s.map_values(
        |c: char|
            if c == 'T' {
                ' '
            } else {
                c
            },
    )
}

/// Replaces every `T` in the string by a space.
pub fn reformat_time(time: &str) -> (r: String)
    ensures
        r@ == spec_replace_t(time@),
{
    let v = chars_of(time);
    let mut out: Vec<char> = Vec::new();
    let mut i: usize = 0;
    while i < v.len()
        invariant
            i <= v.len(),
            v@ == time@,
            out@ == spec_replace_t(time@.subrange(0, i as int)),
        decreases v.len() - i,
    {
        let c = v[i];
        if c == 'T' {
            out.push(' ');
        } else {
            out.push(c);
        }
        proof {
            assert(spec_replace_t(time@.subrange(0, i + 1 as int)) =~= spec_replace_t(
                time@.subrange(0, i as int),
            ).push(
                if time@[i as int] == 'T' {
                    ' '
                } else {
                    time@[i as int]
                },
            ));
        }
        i = i + 1;
    }
    proof {
        assert(time@.subrange(0, time@.len() as int) =~= time@);
    }
    string_of(&out)
}

/// The report line built from a reading: the reformatted timestamp, a
/// separator, the temperature token and its unit symbol.
pub open spec fn spec_report(time: Seq<char>, temp: Seq<char>, unit: Seq<char>) -> Seq<char> {
    spec_replace_t(time) + seq![' ', '-', ' '] + temp + unit
}

/// Formats the forecast reply as the line the tool prints.
pub fn format_temperature_report(resp: &ApiResponse) -> (r: String)
    ensures
        r@ == spec_report(
            resp.current.time@,
            resp.current.temperature_2m@,
            resp.current_units.temperature_2m@,
        ),
{
    let mut r = reformat_time(resp.current.time.as_str());
    r.append(" - ");
    r.append(resp.current.temperature_2m.as_str());
    r.append(resp.current_units.temperature_2m.as_str());
    proof {
        reveal_strlit(" - ");
        assert(r@ =~= spec_report(
            resp.current.time@,
            resp.current.temperature_2m@,
            resp.current_units.temperature_2m@,
        ));
    }
    r
}

/// The forecast request URL for a stored location: the fixed endpoint with
/// the two coordinate tokens substituted in.
pub open spec fn spec_forecast_url(lat: Seq<char>, lon: Seq<char>) -> Seq<char> {
    "https://api.open-meteo.com/v1/forecast?latitude="@ + lat + "&longitude="@ + lon
        + "&current=temperature_2m&timezone=auto"@
}

/// Builds the forecast request URL for a configuration.
pub fn build_forecast_url(c: &AppConfig) -> (r: String)
    ensures
        r@ == spec_forecast_url(c.latitude@, c.longitude@),
{
    let mut r = String::from_str("https://api.open-meteo.com/v1/forecast?latitude=");
    r.append(c.latitude.as_str());
    r.append("&longitude=");
    r.append(c.longitude.as_str());
    r.append("&current=temperature_2m&timezone=auto");
    proof {
        assert(r@ =~= spec_forecast_url(c.latitude@, c.longitude@));
    }
    r
}

} // verus!

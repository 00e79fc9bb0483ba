//! Scanning coordinates out of the geolocation service's plain-text reply.
//!
//! The reply is a newline-delimited sequence of `Key: Value` lines.  Every
//! line is scanned: a line starting with `Latitude:` (or `Longitude:`) sets
//! the corresponding field to its second white-space-delimited token when
//! that token is a numeric literal, and clears it otherwise, so the last
//! matching line decides.  Parsing succeeds exactly when both fields are set
//! once the whole text has been scanned.

use crate::num::check_float_literal;
use crate::num::is_float_literal;
use crate::num::lemma_float_literal_no_space;
use crate::text::chars_of;
use crate::text::is_space_char;
use crate::text::lemma_space_end_at;
use crate::text::lemma_token_end_at;
use crate::text::has_prefix;
use crate::text::has_prefix_exec;
use crate::text::second_field;
use crate::text::second_field_exec;
use crate::text::spec_lines;
use crate::text::split_lines;
use crate::text::string_of;
use crate::types::AppError;
use crate::types::GeoLocationResponse;
use vstd::prelude::*;

verus! {

pub open spec fn lat_prefix() -> Seq<char> {
    seq!['L', 'a', 't', 'i', 't', 'u', 'd', 'e', ':']
}

pub open spec fn lon_prefix() -> Seq<char> {
    seq!['L', 'o', 'n', 'g', 'i', 't', 'u', 'd', 'e', ':']
}

/// The coordinate a matching line contributes: its second field, when that
/// field is a numeric literal.
pub open spec fn line_value(l: Seq<char>) -> Option<Seq<char>> {
    match second_field(l) {
        Some(t) => if is_float_literal(t) {
            Some(t)
        } else {
            None
        },
        None => None,
    }
}

/// The field left by scanning all lines in order: the value of the last line
/// carrying the key prefix, if any line does.
pub open spec fn scan_key(lines: Seq<Seq<char>>, p: Seq<char>) -> Option<Seq<char>>
    decreases lines.len(),
{
    if lines.len() == 0 {
        None
    } else if has_prefix(lines.last(), p) {
        line_value(lines.last())
    } else {
        scan_key(lines.drop_last(), p)
    }
}

/// The latitude token the full text determines, if any.
pub open spec fn spec_geo_lat(s: Seq<char>) -> Option<Seq<char>> {
    scan_key(spec_lines(s), lat_prefix())
}

/// The longitude token the full text determines, if any.
pub open spec fn spec_geo_lon(s: Seq<char>) -> Option<Seq<char>> {
    scan_key(spec_lines(s), lon_prefix())
}

fn lat_prefix_vec() -> (v: Vec<char>)
    ensures
        v@ == lat_prefix(),
{
    let v = chars_of("Latitude:");
    proof {
        reveal_strlit("Latitude:");
        assert(v@ =~= lat_prefix());
    }
    v
}

fn lon_prefix_vec() -> (v: Vec<char>)
    ensures
        v@ == lon_prefix(),
{
    let v = chars_of("Longitude:");
    proof {
        reveal_strlit("Longitude:");
        assert(v@ =~= lon_prefix());
    }
    v
}

/// Extracts the coordinate pair from the geolocation reply.  Returns the two
/// tokens the text determines, or `Parse` when either is missing after the
/// whole text has been scanned.
pub fn parse_geo_location(text: &str) -> (r: Result<GeoLocationResponse, AppError>)
    ensures
        match r {
            Ok(g) => {
                &&& spec_geo_lat(text@) == Some(g.latitude@)
                &&& spec_geo_lon(text@) == Some(g.longitude@)
                &&& g.well_formed()
            },
            Err(e) => {
                &&& e == AppError::Parse
                &&& (spec_geo_lat(text@) is None || spec_geo_lon(text@) is None)
            },
        },
{
    let v = chars_of(text);
    let lines = split_lines(&v);
    let latp = lat_prefix_vec();
    let lonp = lon_prefix_vec();
    let ghost ls = spec_lines(text@);
    let mut lat: Option<Vec<char>> = None;
    let mut lon: Option<Vec<char>> = None;
    let mut idx: usize = 0;
    proof {
        assert(ls.take(0) =~~= Seq::<Seq<char>>::empty());
    }
    while idx < lines.len()
        invariant
            idx <= lines.len(),
            lines.deep_view() == ls,
            latp@ == lat_prefix(),
            lonp@ == lon_prefix(),
            match lat {
                Some(t) => scan_key(ls.take(idx as int), lat_prefix()) == Some(t@)
                    && is_float_literal(t@),
                None => scan_key(ls.take(idx as int), lat_prefix()) is None,
            },
            match lon {
                Some(t) => scan_key(ls.take(idx as int), lon_prefix()) == Some(t@)
                    && is_float_literal(t@),
                None => scan_key(ls.take(idx as int), lon_prefix()) is None,
            },
        decreases lines.len() - idx,
    {
        let line = &lines[idx];
        proof {
            assert(line@ == ls[idx as int]);
            assert(ls.take(idx + 1 as int).drop_last() =~~= ls.take(idx as int));
            assert(ls.take(idx + 1 as int).last() == ls[idx as int]);
        }
        if has_prefix_exec(line, &latp) {
            lat = match second_field_exec(line) {
                Some(t) => if check_float_literal(&t) {
                    Some(t)
                } else {
                    None
                },
                None => None,
            };
        } else if has_prefix_exec(line, &lonp) {
            lon = match second_field_exec(line) {
                Some(t) => if check_float_literal(&t) {
                    Some(t)
                } else {
                    None
                },
                None => None,
            };
        }
        idx = idx + 1;
    }
    proof {
        assert(ls.take(lines@.len() as int) =~~= ls);
    }
    match (lat, lon) {
        (Some(a), Some(b)) => Ok(
            GeoLocationResponse { latitude: string_of(&a), longitude: string_of(&b) },
        ),
        _ => Err(AppError::Parse),
    }
}

/// A key line built as prefix, one space and a non-blank token has that
/// token as its second field.
proof fn lemma_second_field_of_key_line(p: Seq<char>, t: Seq<char>)
    requires
        p.len() > 0,
        forall|k: int| 0 <= k < p.len() ==> !is_space_char(p[k]),
        t.len() > 0,
        forall|k: int| 0 <= k < t.len() ==> !is_space_char(t[k]),
    ensures
        second_field(p + seq![' '] + t) == Some(t),
{
    let s = p + seq![' '] + t;
    lemma_space_end_at(s, 0, 0);
    lemma_token_end_at(s, 0, p.len() as int);
    lemma_space_end_at(s, p.len() as int, p.len() + 1 as int);
    lemma_token_end_at(s, p.len() + 1 as int, s.len() as int);
    assert(s.subrange(p.len() + 1 as int, s.len() as int) =~= t);
}

/// A line of the shape `Latitude: <token>` (or `Longitude: <token>`), with a
/// single space and a numeric token, carries exactly that token as its
/// value.  Together with `lemma_geo_parse_complete` this closes the chain:
/// well-formed geolocation text parses to exactly the two numbers it shows.
pub proof fn lemma_key_line_value(t: Seq<char>)
    requires
        is_float_literal(t),
    ensures
        line_value(lat_prefix() + seq![' '] + t) == Some(t),
        line_value(lon_prefix() + seq![' '] + t) == Some(t),
{
    lemma_float_literal_no_space(t);
    assert(forall|k: int| 0 <= k < lat_prefix().len() ==> !is_space_char(lat_prefix()[k]));
    assert(forall|k: int| 0 <= k < lon_prefix().len() ==> !is_space_char(lon_prefix()[k]));
    lemma_second_field_of_key_line(lat_prefix(), t);
    lemma_second_field_of_key_line(lon_prefix(), t);
}

/// The last line carrying the key decides: when exactly one line carries it,
/// that line does.
pub proof fn lemma_scan_key_unique(lines: Seq<Seq<char>>, p: Seq<char>, i: int)
    requires
        0 <= i < lines.len(),
        has_prefix(lines[i], p),
        forall|k: int| 0 <= k < lines.len() && k != i ==> !has_prefix(lines[k], p),
    ensures
        scan_key(lines, p) == line_value(lines[i]),
    decreases lines.len(),
{
    if i < lines.len() - 1 {
        assert(!has_prefix(lines.last(), p));
        assert(forall|k: int|
            0 <= k < lines.drop_last().len() && k != i ==> lines.drop_last()[k] == lines[k]);
        lemma_scan_key_unique(lines.drop_last(), p, i);
    }
}

/// A scan over lines none of which contributes a value leaves the field
/// unset.
pub proof fn lemma_scan_key_none(lines: Seq<Seq<char>>, p: Seq<char>)
    requires
        forall|k: int|
            0 <= k < lines.len() ==> !(has_prefix(lines[k], p) && line_value(lines[k]) is Some),
    ensures
        scan_key(lines, p) is None,
    decreases lines.len(),
{
    if lines.len() > 0 {
        assert(forall|k: int|
            0 <= k < lines.drop_last().len() ==> lines.drop_last()[k] == lines[k]);
        lemma_scan_key_none(lines.drop_last(), p);
    }
}

/// Well-formed geolocation text parses to exactly its two coordinate values:
/// when one line carries `Latitude:` with a numeric second field, one line
/// carries `Longitude:` with a numeric second field, and no other line
/// carries either key, the text determines exactly those two tokens, so
/// `parse_geo_location` returns them.
pub proof fn lemma_geo_parse_complete(s: Seq<char>, i: int, j: int, a: Seq<char>, b: Seq<char>)
    requires
        0 <= i < spec_lines(s).len(),
        0 <= j < spec_lines(s).len(),
        has_prefix(spec_lines(s)[i], lat_prefix()),
        line_value(spec_lines(s)[i]) == Some(a),
        has_prefix(spec_lines(s)[j], lon_prefix()),
        line_value(spec_lines(s)[j]) == Some(b),
        forall|k: int|
            0 <= k < spec_lines(s).len() && k != i ==> !has_prefix(spec_lines(s)[k], lat_prefix()),
        forall|k: int|
            0 <= k < spec_lines(s).len() && k != j ==> !has_prefix(spec_lines(s)[k], lon_prefix()),
    ensures
        spec_geo_lat(s) == Some(a),
        spec_geo_lon(s) == Some(b),
{
    lemma_scan_key_unique(spec_lines(s), lat_prefix(), i);
    lemma_scan_key_unique(spec_lines(s), lon_prefix(), j);
}

/// Text that offers no usable latitude — every line either lacks the
/// `Latitude:` key or carries a non-numeric value — determines no latitude,
/// so parsing fails.
pub proof fn lemma_geo_parse_fails(s: Seq<char>)
    requires
        forall|k: int|
            0 <= k < spec_lines(s).len() ==> !(has_prefix(spec_lines(s)[k], lat_prefix())
                && line_value(spec_lines(s)[k]) is Some),
    ensures
        spec_geo_lat(s) is None,
{
    lemma_scan_key_none(spec_lines(s), lat_prefix());
}

/// The longitude-side counterpart: text that offers no usable longitude
/// determines none, so parsing fails.
pub proof fn lemma_geo_parse_fails_longitude(s: Seq<char>)
    requires
        forall|k: int|
            0 <= k < spec_lines(s).len() ==> !(has_prefix(spec_lines(s)[k], lon_prefix())
                && line_value(spec_lines(s)[k]) is Some),
    ensures
        spec_geo_lon(s) is None,
{
    lemma_scan_key_none(spec_lines(s), lon_prefix());
}

} // verus!

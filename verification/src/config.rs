//! The config file format: a small structured-text document holding the two
//! persisted coordinate tokens.
//!
//! Writing produces one `latitude:` line and one `longitude:` line.  Reading
//! accepts a line-oriented subset of that format: every line is scanned, a
//! line starting with a key sets that key's field to the trimmed rest of the
//! line when it is a numeric literal and clears it otherwise (so the last
//! line carrying a key decides), and any other line — a `---` document
//! marker, a blank line, an unknown key — is ignored.  Reading fails exactly
//! when either field is left unset.

use crate::num::check_float_literal;
use crate::num::is_float_literal;
use crate::num::lemma_float_literal_no_space;
use crate::text::chars_of;
use crate::text::copy_range;
use crate::text::has_prefix;
use crate::text::has_prefix_exec;
use crate::text::is_space_char;
use crate::text::lemma_line_break_at;
use crate::text::lemma_rspace_at;
use crate::text::lemma_space_end_at;
use crate::text::spec_lines;
use crate::text::spec_trim;
use crate::text::split_lines;
use crate::text::string_of;
use crate::text::strip_cr;
use crate::text::trim_exec;
use crate::types::AppConfig;
use crate::types::AppError;
use vstd::prelude::*;

verus! {

pub open spec fn key_lat() -> Seq<char> {
    seq!['l', 'a', 't', 'i', 't', 'u', 'd', 'e', ':']
}

pub open spec fn key_lon() -> Seq<char> {
    seq!['l', 'o', 'n', 'g', 'i', 't', 'u', 'd', 'e', ':']
}

/// The serialized form of a configuration: one line per key, a single space
/// after each key, a newline after each value.
pub open spec fn spec_serialize(lat: Seq<char>, lon: Seq<char>) -> Seq<char> {
    key_lat() + seq![' '] + lat + seq!['\n'] + key_lon() + seq![' '] + lon + seq!['\n']
}

/// Renders a configuration in the config file format.
pub fn serialize_config(c: &AppConfig) -> (r: String)
    ensures
        r@ == spec_serialize(c.latitude@, c.longitude@),
{
    let mut r = String::from_str("latitude: ");
    r.append(c.latitude.as_str());
    r.append("\n");
    r.append("longitude: ");
    r.append(c.longitude.as_str());
    r.append("\n");
    proof {
        reveal_strlit("latitude: ");
        reveal_strlit("longitude: ");
        reveal_strlit("\n");
        assert(r@ =~= spec_serialize(c.latitude@, c.longitude@));
    }
    r
}

/// The value a key line carries: the rest of the line after the key,
/// trimmed, when that rest is a numeric literal.
pub open spec fn config_value(l: Seq<char>, p: Seq<char>) -> Option<Seq<char>> {
    let v = spec_trim(l.skip(p.len() as int));
    if is_float_literal(v) {
        Some(v)
    } else {
        None
    }
}

/// The field left by scanning all lines in order: the value of the last line
/// carrying the key, if any line does.
pub open spec fn config_scan(lines: Seq<Seq<char>>, p: Seq<char>) -> Option<Seq<char>>
    decreases lines.len(),
{
    if lines.len() == 0 {
        None
    } else if has_prefix(lines.last(), p) {
        config_value(lines.last(), p)
    } else {
        config_scan(lines.drop_last(), p)
    }
}

/// The latitude token the document determines, if any.
pub open spec fn spec_config_lat(s: Seq<char>) -> Option<Seq<char>> {
    config_scan(spec_lines(s), key_lat())
}

/// The longitude token the document determines, if any.
pub open spec fn spec_config_lon(s: Seq<char>) -> Option<Seq<char>> {
    config_scan(spec_lines(s), key_lon())
}

fn key_lat_vec() -> (v: Vec<char>)
    ensures
        v@ == key_lat(),
{
    let v = chars_of("latitude:");
    proof {
        reveal_strlit("latitude:");
        assert(v@ =~= key_lat());
    }
    v
}

fn key_lon_vec() -> (v: Vec<char>)
    ensures
        v@ == key_lon(),
{
    let v = chars_of("longitude:");
    proof {
        reveal_strlit("longitude:");
        assert(v@ =~= key_lon());
    }
    v
}

/// The trimmed rest of a key line, when it is a numeric literal.
fn line_value_exec(line: &Vec<char>, p: &Vec<char>) -> (r: Option<Vec<char>>)
    requires
        p.len() <= line.len(),
    ensures
        match r {
            Some(t) => config_value(line@, p@) == Some(t@),
            None => config_value(line@, p@) is None,
        },
{
    let rest = copy_range(line, p.len(), line.len());
    proof {
        assert(rest@ =~= line@.skip(p@.len() as int));
    }
    let val = trim_exec(&rest);
    if check_float_literal(&val) {
        Some(val)
    } else {
        None
    }
}

/// Reads a configuration out of the config file text.  Returns the two
/// tokens the document determines, or `Deserialize` when either is missing.
pub fn parse_config(text: &str) -> (r: Result<AppConfig, AppError>)
    ensures
        match r {
            Ok(c) => {
                &&& spec_config_lat(text@) == Some(c.latitude@)
                &&& spec_config_lon(text@) == Some(c.longitude@)
                &&& c.well_formed()
            },
            Err(e) => {
                &&& e == AppError::Deserialize
                &&& (spec_config_lat(text@) is None || spec_config_lon(text@) is None)
            },
        },
{
    let v = chars_of(text);
    let lines = split_lines(&v);
    let latp = key_lat_vec();
    let lonp = key_lon_vec();
    let ghost ls = spec_lines(text@);
    let mut lat: Option<Vec<char>> = None;
    let mut lon: Option<Vec<char>> = None;
    let mut idx: usize = 0;
    proof {
        assert(ls.take(0) =~~= Seq::<Seq<char>>::empty());
    }
    while idx < lines.len()
        invariant
            idx <= lines.len(),
            lines.deep_view() == ls,
            latp@ == key_lat(),
            lonp@ == key_lon(),
            match lat {
                Some(t) => config_scan(ls.take(idx as int), key_lat()) == Some(t@)
                    && is_float_literal(t@),
                None => config_scan(ls.take(idx as int), key_lat()) is None,
            },
            match lon {
                Some(t) => config_scan(ls.take(idx as int), key_lon()) == Some(t@)
                    && is_float_literal(t@),
                None => config_scan(ls.take(idx as int), key_lon()) is None,
            },
        decreases lines.len() - idx,
    {
        let line = &lines[idx];
        proof {
            assert(line@ == ls[idx as int]);
            assert(ls.take(idx + 1 as int).drop_last() =~~= ls.take(idx as int));
            assert(ls.take(idx + 1 as int).last() == ls[idx as int]);
        }
        if has_prefix_exec(line, &latp) {
            lat = line_value_exec(line, &latp);
        } else if has_prefix_exec(line, &lonp) {
            lon = line_value_exec(line, &lonp);
        }
        idx = idx + 1;
    }
    proof {
        assert(ls.take(lines@.len() as int) =~~= ls);
    }
    match (lat, lon) {
        (Some(a), Some(b)) => Ok(AppConfig { latitude: string_of(&a), longitude: string_of(&b) }),
        _ => Err(AppError::Deserialize),
    }
}

/// Splitting two newline-terminated lines recovers exactly the two lines.
proof fn lemma_two_lines(l1: Seq<char>, l2: Seq<char>)
    requires
        forall|k: int| 0 <= k < l1.len() ==> l1[k] != '\n',
        forall|k: int| 0 <= k < l2.len() ==> l2[k] != '\n',
        l1.len() > 0 && l1.last() != '\r',
        l2.len() > 0 && l2.last() != '\r',
    ensures
        spec_lines(l1 + seq!['\n'] + l2 + seq!['\n']) =~~= seq![l1, l2],
{
    let s = l1 + seq!['\n'] + l2 + seq!['\n'];
    lemma_line_break_at(s, 0, l1.len() as int);
    assert(s.take(l1.len() as int) =~= l1);
    assert(strip_cr(l1) == l1);
    let s2 = s.skip(l1.len() + 1 as int);
    assert(s2 =~= l2 + seq!['\n']);
    lemma_line_break_at(s2, 0, l2.len() as int);
    assert(s2.take(l2.len() as int) =~= l2);
    assert(strip_cr(l2) == l2);
    let s3 = s2.skip(l2.len() + 1 as int);
    assert(s3 =~= Seq::<char>::empty());
    assert(spec_lines(s3) =~~= Seq::<Seq<char>>::empty());
    assert(spec_lines(s2) =~~= seq![l2]);
    assert(spec_lines(s) =~~= seq![l1, l2]);
}

/// Trimming a single leading space off a token leaves the token.
proof fn lemma_trim_space_token(t: Seq<char>)
    requires
        t.len() > 0,
        forall|k: int| 0 <= k < t.len() ==> !is_space_char(t[k]),
    ensures
        spec_trim(seq![' '] + t) == t,
{
    let s = seq![' '] + t;
    lemma_space_end_at(s, 0, 1);
    lemma_rspace_at(s, s.len() as int, s.len() as int);
    assert(s.subrange(1, s.len() as int) =~= t);
}

/// Round trip: the serialized form of any well-formed configuration
/// determines exactly its own two tokens, so reading back what was written
/// returns the configuration unchanged.
pub proof fn lemma_config_round_trip(lat: Seq<char>, lon: Seq<char>)
    requires
        is_float_literal(lat),
        is_float_literal(lon),
    ensures
        spec_config_lat(spec_serialize(lat, lon)) == Some(lat),
        spec_config_lon(spec_serialize(lat, lon)) == Some(lon),
{
    lemma_float_literal_no_space(lat);
    lemma_float_literal_no_space(lon);
    let l1 = key_lat() + seq![' '] + lat;
    let l2 = key_lon() + seq![' '] + lon;
    let s = spec_serialize(lat, lon);
    assert(s =~= l1 + seq!['\n'] + l2 + seq!['\n']);
    lemma_two_lines(l1, l2);
    let ls = spec_lines(s);
    assert(ls =~~= seq![l1, l2]);
    // the longitude line does not carry the latitude key
    assert(!has_prefix(l2, key_lat())) by {
        if has_prefix(l2, key_lat()) {
            assert(l2.subrange(0, key_lat().len() as int)[1] == l2[1]);
        }
    }
    // and each line carries its own key
    assert(has_prefix(l1, key_lat())) by {
        assert(l1.subrange(0, key_lat().len() as int) =~= key_lat());
    }
    assert(has_prefix(l2, key_lon())) by {
        assert(l2.subrange(0, key_lon().len() as int) =~= key_lon());
    }
    // values
    assert(l1.skip(key_lat().len() as int) =~= seq![' '] + lat);
    assert(l2.skip(key_lon().len() as int) =~= seq![' '] + lon);
    lemma_trim_space_token(lat);
    lemma_trim_space_token(lon);
    assert(config_value(l1, key_lat()) == Some(lat));
    assert(config_value(l2, key_lon()) == Some(lon));
    // scans
    assert(ls.drop_last() =~~= seq![l1]);
    assert(ls.last() == l2);
    assert(config_scan(ls, key_lat()) == config_scan(ls.drop_last(), key_lat()));
    assert(ls.drop_last().last() == l1);
    assert(config_scan(ls.drop_last(), key_lat()) == config_value(l1, key_lat()));
    assert(config_scan(ls, key_lon()) == Some(lon));
}

/// A scan over lines none of which contributes a value leaves the field
/// unset.
pub proof fn lemma_config_scan_none(lines: Seq<Seq<char>>, p: Seq<char>)
    requires
        forall|k: int|
            0 <= k < lines.len() ==> !(has_prefix(lines[k], p) && config_value(lines[k], p)
                is Some),
    ensures
        config_scan(lines, p) is None,
    decreases lines.len(),
{
    if lines.len() > 0 {
        assert(forall|k: int|
            0 <= k < lines.drop_last().len() ==> lines.drop_last()[k] == lines[k]);
        lemma_config_scan_none(lines.drop_last(), p);
    }
}

/// A document with no `longitude` line determines no longitude, so reading
/// it fails with a deserialization error rather than defaulting the field.
pub proof fn lemma_config_missing_longitude(s: Seq<char>)
    requires
        forall|k: int| 0 <= k < spec_lines(s).len() ==> !has_prefix(spec_lines(s)[k], key_lon()),
    ensures
        spec_config_lon(s) is None,
{
    lemma_config_scan_none(spec_lines(s), key_lon());
}

} // verus!

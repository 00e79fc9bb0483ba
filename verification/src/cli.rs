//! The command dispatcher's decisions: which mode an invocation selects, the
//! version line, and the fixed messages the tool prints.

use crate::text::str_eq;
use vstd::prelude::*;

verus! {

/// The three operating modes.
#[derive(Debug, Clone, Copy, PartialEq, Eq, Structural)]
pub enum Mode {
    /// Geolocate the host and persist the coordinates.
    Init,
    /// Read the persisted coordinates and report the temperature.
    Report,
    /// Print the version line and stop.
    Version,
}

/// The mode an argument list selects: `-v` or `--version` as the first
/// argument picks `Version`, `init` picks `Init`, and anything else —
/// including no argument at all — picks `Report`.
pub open spec fn spec_mode(args: Seq<Seq<char>>) -> Mode {
    if args.len() > 1 && (args[1] == "-v"@ || args[1] == "--version"@) {
        Mode::Version
    } else if args.len() > 1 && args[1] == "init"@ {
        Mode::Init
    } else {
        Mode::Report
    }
}

/// Decides the operating mode from the process arguments (the first entry
/// being the program name, as usual).
pub fn parse_mode(args: &Vec<String>) -> (m: Mode)
    ensures
        m == spec_mode(args.deep_view()),
{
    proof {
        assert(args.deep_view().len() == args@.len());
    }
    if args.len() > 1 {
        proof {
            assert(args.deep_view()[1] == args@[1]@);
        }
        let first = args[1].as_str();
        if str_eq(first, "-v") || str_eq(first, "--version") {
            Mode::Version
        } else if str_eq(first, "init") {
            Mode::Init
        } else {
            Mode::Report
        }
    } else {
        Mode::Report
    }
}

/// The version line: the program name, a space, `v` and the version
/// identifier.
pub fn get_version(name: &str, version: &str) -> (r: String)
    ensures
        r@ == name@ + " v"@ + version@,
{
    let mut r = String::from_str(name);
    r.append(" v");
    r.append(version);
    proof {
        assert(r@ =~= name@ + " v"@ + version@);
    }
    r
}

/// Whether `needle` occurs contiguously inside `hay`.
pub open spec fn contains_seq(hay: Seq<char>, needle: Seq<char>) -> bool {
    exists|i: int|
        0 <= i && i + needle.len() <= hay.len() && #[trigger] hay.subrange(
            i,
            i + needle.len() as int,
        ) == needle
}

/// The version line always carries both the program name and the version
/// identifier as substrings.
pub proof fn lemma_version_contains(name: Seq<char>, version: Seq<char>)
    ensures
        contains_seq(name + " v"@ + version, name),
        contains_seq(name + " v"@ + version, version),
{
    reveal_strlit(" v");
    let r = name + " v"@ + version;
    assert(r.subrange(0, name.len() as int) =~= name);
    assert(0 + name.len() <= r.len() && r.subrange(0, 0 + name.len() as int) == name);
    let j = name.len() + " v"@.len() as int;
    assert(r.subrange(j, j + version.len() as int) =~= version);
    assert(0 <= j && j + version.len() <= r.len() && r.subrange(j, j + version.len() as int)
        == version);
}

/// The guidance printed when the config file is absent: the caller is
/// expected to print this and stop with a failure status.
pub fn config_missing_message() -> (m: String)
    ensures
        m@ == "!!! Config file not found. Please run: lotemp init\n"@,
{
    String::from_str("!!! Config file not found. Please run: lotemp init\n")
}

/// The confirmation printed after a successful `init`.
pub fn init_done_message() -> (m: String)
    ensures
        m@ == "Initialization complete. Current GeoIP location stored in ~/.lotemp"@,
{
    String::from_str("Initialization complete. Current GeoIP location stored in ~/.lotemp")
}

} // verus!

//! What the domain takes from the system: the clock (chrono), fresh
//! identifiers (uuid) and file-system paths (std).
use vstd::prelude::*;

use std::path::PathBuf;

verus! {

/// A point in UTC time: whole seconds since the Unix epoch and the
/// nanoseconds past that second (above 999,999,999 only within a leap second).
#[derive(Clone, Copy, Debug, PartialEq, Eq, Structural)]
pub struct Timestamp {
    pub secs: i64,
    pub nanos: u32,
}

/// An owned file-system path, carried through the domain unread.
#[verifier::external_type_specification]
#[verifier::external_body]
pub struct ExPathBuf(PathBuf);

/// A time the clock can read: not before the Unix epoch, and with fewer
/// nanoseconds than make a second.
pub open spec fn is_clock_reading(t: Timestamp) -> bool {
    t.secs >= 0 && t.nanos < 1_000_000_000
}

/// Calls `chrono::Utc::now` and reads the result with `timestamp` and
/// `timestamp_subsec_nanos`. The time itself is not promised; only what every
/// reading has: `Utc::now` builds it from the whole seconds and the sub-second
/// nanoseconds of the time elapsed since the Unix epoch, so the seconds are
/// not negative and the nanoseconds stay below one second.
/// The call panics if the system clock reads a time before the Unix epoch,
/// which no argument can rule out.
#[verifier::external_body]
pub(crate) fn utc_now() -> (t: Timestamp)
    ensures
        is_clock_reading(t),
{
    let now = chrono::Utc::now();
    Timestamp { secs: now.timestamp(), nanos: now.timestamp_subsec_nanos() }
}

/// A lower-case hexadecimal digit.
pub open spec fn is_lower_hex_digit(c: char) -> bool {
    (48 <= (c as u32) <= 57) || (97 <= (c as u32) <= 102)
}

/// The hyphenated text of a version-4 UUID: 36 characters, hyphens at
/// positions 8, 13, 18 and 23, lower-case hexadecimal digits elsewhere, the
/// version digit `4` at position 14 and a variant digit `8`, `9`, `a` or `b`
/// at position 19.
pub open spec fn is_uuid_v4_text(s: Seq<char>) -> bool {
    &&& s.len() == 36
    &&& forall|i: int|
        0 <= i < 36 ==> if i == 8 || i == 13 || i == 18 || i == 23 {
            #[trigger] s[i] == '-'
        } else {
            is_lower_hex_digit(s[i])
        }
    &&& s[14] == '4'
    &&& (s[19] == '8' || s[19] == '9' || s[19] == 'a' || s[19] == 'b')
}

/// Calls `uuid::Uuid::new_v4` and formats the result with `to_string`.
/// The value is random, so only its shape is claimed: the source masks in the
/// version and variant bits and `Display` writes the hyphenated lower-case
/// form, which `is_uuid_v4_text` describes. The call panics if the operating
/// system's random source fails, which no argument can rule out.
#[verifier::external_body]
pub(crate) fn new_uuid_v4_text() -> (r: String)
    ensures
        is_uuid_v4_text(r@),
{
    uuid::Uuid::new_v4().to_string()
}

/// Calls `PathBuf::clone`, which gives the same path in a buffer of its own.
#[verifier::external_body]
pub(crate) fn clone_path(p: &PathBuf) -> (r: PathBuf)
    ensures
        r == *p,
{
    p.clone()
}

/// What a path holds: its components, each as its text, in the order in
/// which `Path::components` lists them.
pub uninterp spec fn path_components(p: PathBuf) -> Seq<Seq<char>>;

/// A name that is exactly one ordinary path component on every platform:
/// not empty, not `.` or `..`, and free of separators (`/`, `\`) and of the
/// drive mark `:`.
pub open spec fn is_plain_file_name(name: Seq<char>) -> bool {
    &&& name.len() > 0
    &&& name != seq!['.']
    &&& name != seq!['.', '.']
    &&& forall|i: int|
        0 <= i < name.len() ==> #[trigger] name[i] != '/' && name[i] != '\\' && name[i] != ':'
}

/// The components of `base` adjoined with `name`, as `Path::join` forms them
/// from a path with the components `base` on the platform the program is
/// built for.
pub uninterp spec fn joined_components(base: Seq<Seq<char>>, name: Seq<char>) -> Seq<Seq<char>>;

/// Calls `std::path::Path::join`, which adjoins `name` to `base`. The contract
/// claims that the components of the joined path are the named result for the
/// components of `base` and for `name`, and what the documentation of `join`,
/// `push` and `components` gives for a name that is one ordinary component:
/// the joined path lists the components of `base` followed by `name`. For
/// other names (absolute ones, ones holding separators) the named result is
/// not spelled out.
#[verifier::external_body]
pub(crate) fn join_path(base: &PathBuf, name: &str) -> (r: PathBuf)
    ensures
        path_components(r) == joined_components(path_components(*base), name@),
        is_plain_file_name(name@) ==> path_components(r) == path_components(*base).push(name@),
{
    base.join(name)
}

} // verus!

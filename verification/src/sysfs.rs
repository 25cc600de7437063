//! The kernel's attribute files, as a service that answers reads and takes
//! writes.
//!
//! What a read returns is up to the kernel. The contracts of the backends say
//! which reads and writes they make, and what follows from each answer:
//! `read_gave(s, path, r)` holds where a read of `path` returned `r`, and
//! likewise for the other requests.

use crate::error;
use crate::error::{BackendError, HpdError, SysfsError};
use crate::text;
use vstd::prelude::*;

verus! {

/// Access to the kernel's attribute files.
pub trait SysfsIo: Send + Sync {
    /// The contents of the file at `path`, without white space around them.
    fn read_string(&self, path: &str) -> Result<String, SysfsError>;

    /// Write `value` to the file at `path`.
    fn write_string(&self, path: &str, value: &str) -> Result<(), SysfsError>;

    /// Whether there is something at `path`.
    fn path_exists(&self, path: &str) -> bool;

    /// The names in the directory at `path`; none where it cannot be read.
    fn read_dir_names(&self, path: &str) -> Vec<String>;

    /// Let the firmware settle for `millis` milliseconds.
    fn settle(&self, millis: u64) {
    }
}

/// Whether a read of `path` returned `r`.
pub open spec fn read_gave<S: SysfsIo>(s: &S, path: Seq<char>, r: Result<String, SysfsError>) -> bool {
    exists|p: &str| p@ == path && #[trigger] call_ensures(S::read_string, (s, p), r)
}

/// Whether a write of `value` to `path` returned `r`.
pub open spec fn write_gave<S: SysfsIo>(
    s: &S,
    path: Seq<char>,
    value: Seq<char>,
    r: Result<(), SysfsError>,
) -> bool {
    exists|p: &str, v: &str|
        p@ == path && v@ == value && #[trigger] call_ensures(S::write_string, (s, p, v), r)
}

/// Whether `path` was found to be there, or not.
pub open spec fn presence_gave<S: SysfsIo>(s: &S, path: Seq<char>, r: bool) -> bool {
    exists|p: &str| p@ == path && #[trigger] call_ensures(S::path_exists, (s, p), r)
}

/// Whether the directory `path` was found to hold `names`.
pub open spec fn listing_gave<S: SysfsIo>(s: &S, path: Seq<char>, names: Seq<Seq<char>>) -> bool {
    exists|p: &str, r: Vec<String>|
        p@ == path && text::texts(r@) == names && #[trigger] call_ensures(
            S::read_dir_names,
            (s, p),
            r,
        )
}

/// The contents of the file at `path`.
pub fn read<S: SysfsIo>(s: &S, path: &str) -> (r: Result<String, SysfsError>)
    ensures
        read_gave(s, path@, r),
{
    s.read_string(path)
}

/// Write `value` to the file at `path`.
pub fn write<S: SysfsIo>(s: &S, path: &str, value: &str) -> (r: Result<(), SysfsError>)
    ensures
        write_gave(s, path@, value@, r),
{
    s.write_string(path, value)
}

/// Whether there is something at `path`.
pub fn present<S: SysfsIo>(s: &S, path: &str) -> (r: bool)
    ensures
        presence_gave(s, path@, r),
{
    s.path_exists(path)
}

/// The names in the directory at `path`.
pub fn list<S: SysfsIo>(s: &S, path: &str) -> (r: Vec<String>)
    ensures
        listing_gave(s, path@, text::texts(r@)),
{
    s.read_dir_names(path)
}

/// A sysfs result as one of the daemon's.
pub open spec fn lifted<T>(r: Result<T, SysfsError>) -> Result<T, HpdError> {
    match r {
        Ok(v) => Ok(v),
        Err(e) => Err(HpdError::Sysfs(e)),
    }
}

/// A sysfs result as one of the daemon's.
pub fn lift<T>(r: Result<T, SysfsError>) -> (l: Result<T, HpdError>)
    ensures
        l == lifted(r),
{
    match r {
        Ok(v) => Ok(v),
        Err(e) => Err(HpdError::Sysfs(e)),
    }
}

/// The text that a read gave, or the empty text where it failed.
pub open spec fn text_or_empty(r: Result<String, SysfsError>) -> Seq<char> {
    match r {
        Ok(t) => t@,
        Err(_) => Seq::empty(),
    }
}

/// Whether an optional attribute was read as `r`: nothing where the file is not
/// there, else its contents or the failure to read it.
pub open spec fn attribute_gave<S: SysfsIo>(
    s: &S,
    path: Seq<char>,
    r: Result<Option<String>, HpdError>,
) -> bool {
    exists|there: bool| #[trigger]
        presence_gave(s, path, there) && if there {
            exists|raw: Result<String, SysfsError>| #[trigger]
                read_gave(s, path, raw) && r == some_contents(raw)
        } else {
            r == Ok::<Option<String>, HpdError>(None)
        }
}

/// What a read gave, as an attribute that is there.
pub open spec fn some_contents(raw: Result<String, SysfsError>) -> Result<
    Option<String>,
    HpdError,
> {
    match raw {
        Ok(t) => Ok(Some(t)),
        Err(e) => Err(HpdError::Sysfs(e)),
    }
}

/// Read an optional attribute.
pub fn read_attribute<S: SysfsIo>(s: &S, path: &str) -> (r: Result<Option<String>, HpdError>)
    ensures
        attribute_gave(s, path@, r),
{
    if !present(s, path) {
        return Ok(None);
    }
    let raw = read(s, path);
    assert(read_gave(s, path@, raw));
    match raw {
        Ok(t) => Ok(Some(t)),
        Err(e) => Err(HpdError::Sysfs(e)),
    }
}

// ---------------------------------------------------------------------------
// Numbers in attributes
// ---------------------------------------------------------------------------

/// Whether `e` says that `raw` does not hold a `field`, for this reason.
pub open spec fn is_parse_failure(
    e: HpdError,
    field: Seq<char>,
    raw: Seq<char>,
    reason: Seq<char>,
) -> bool {
    e matches HpdError::Backend(BackendError::ParseFailed { field: f, raw: t, reason: w }) && f@
        == field && t@ == raw && w@ == reason
}

/// The error that `raw` does not hold a `field`.
pub fn parse_error(field: &'static str, raw: &str, reason: &str) -> (r: HpdError)
    ensures
        is_parse_failure(r, field@, raw@, reason@),
{
    HpdError::Backend(
        BackendError::ParseFailed { field, raw: raw.to_owned(), reason: reason.to_owned() },
    )
}

/// Whether `r` is the number that `raw` holds, white space around it aside, or
/// the failure to find one up to `max`.
pub open spec fn holds_number(
    r: Result<u64, HpdError>,
    raw: Seq<char>,
    max: nat,
    field: Seq<char>,
    reason: Seq<char>,
) -> bool {
    match text::bounded_value(text::trimmed(raw), max) {
        Some(v) => r is Ok && r->Ok_0 == v && v <= max,
        None => r is Err && is_parse_failure(r->Err_0, field, raw, reason),
    }
}

/// The number up to `max` that `raw` holds, white space around it aside.
pub fn parse_number(raw: &str, max: u64, field: &'static str, reason: &str) -> (r: Result<
    u64,
    HpdError,
>)
    ensures
        holds_number(r, raw@, max as nat, field@, reason@),
{
    match text::parse_unsigned(text::trim(raw), max) {
        Some(v) => Ok(v),
        None => Err(parse_error(field, raw, reason)),
    }
}

/// `v` clamped to `u32`.
pub open spec fn clamp_u32(v: nat) -> u32 {
    if v <= u32::MAX {
        v as u32
    } else {
        u32::MAX
    }
}

/// `v` clamped to `u32`.
pub fn saturate_u32(v: u64) -> (r: u32)
    ensures
        r == clamp_u32(v as nat),
{
    if v <= u32::MAX as u64 {
        v as u32
    } else {
        u32::MAX
    }
}

} // verus!

//! The errors of the daemon, and the texts they are reported with.

use vstd::prelude::*;

verus! {

/// `std::io::Error`: carried along as it came, and never looked into but by its
/// kind and its own words.
#[verifier::external_type_specification]
#[verifier::external_body]
pub struct ExIoError(std::io::Error);

/// Any failure of the daemon's own operations.
#[derive(Debug)]
pub enum HpdError {
    /// A sysfs node could not be read or written.
    Sysfs(SysfsError),
    /// A backend could not make sense of what it read.
    Backend(BackendError),
    /// The hardware does not offer the feature.
    FeatureUnsupported,
    /// A request or a value breaks a rule of the daemon.
    InvariantViolation(String),
}

/// A failure at one sysfs path.
#[derive(Debug)]
pub enum SysfsError {
    /// The kernel does not expose the path.
    NotFound { path: String },
    /// The daemon may not access the path.
    PermissionDenied { path: String },
    /// The node does not hold what it should.
    ParseError { path: String, expected: &'static str, found: String },
    /// Any other I/O failure.
    Io { path: String, source: std::io::Error },
}

/// A failure inside a hardware backend.
#[derive(Debug)]
pub enum BackendError {
    /// `raw` does not hold a `field`.
    ParseFailed { field: &'static str, raw: String, reason: String },
    /// Anything else, in words.
    Other(String),
}

/// The kinds of I/O failure that are told apart.
#[derive(Debug, Clone, Copy, PartialEq, Eq, Structural)]
pub enum IoErrorClass {
    NotFound,
    PermissionDenied,
    Other,
}

/// `std::io::Error::kind`, reduced to the kinds that are told apart. Nothing is
/// claimed of which kind an error has: it is fixed where the error was made.
#[verifier::external_body]
fn io_error_class(error: &std::io::Error) -> (r: IoErrorClass) {
    match error.kind() {
        std::io::ErrorKind::NotFound => IoErrorClass::NotFound,
        std::io::ErrorKind::PermissionDenied => IoErrorClass::PermissionDenied,
        _ => IoErrorClass::Other,
    }
}

/// Whether an I/O error was found to be of the given kind.
pub closed spec fn has_class(error: &std::io::Error, class: IoErrorClass) -> bool {
    call_ensures(io_error_class, (error,), class)
}

/// What is reported for an I/O error of the given kind at `path`.
pub open spec fn classified(
    path: String,
    class: IoErrorClass,
    source: std::io::Error,
) -> SysfsError {
    match class {
        IoErrorClass::NotFound => SysfsError::NotFound { path },
        IoErrorClass::PermissionDenied => SysfsError::PermissionDenied { path },
        IoErrorClass::Other => SysfsError::Io { path, source },
    }
}

impl SysfsError {
    /// The error for `source` at `path`, by the kind of `source`.
    pub fn from_io(path: String, source: std::io::Error) -> (r: Self)
        ensures
            exists|class: IoErrorClass| #[trigger]
                has_class(&source, class) && r == classified(path, class, source),
    {
        let class = io_error_class(&source);
        assert(has_class(&source, class));
        Self::from_class(path, class, source)
    }

    /// The error for an I/O error of the given kind at `path`.
    pub fn from_class(path: String, class: IoErrorClass, source: std::io::Error) -> (r: Self)
        ensures
            r == classified(path, class, source),
    {
        match class {
            IoErrorClass::NotFound => SysfsError::NotFound { path },
            IoErrorClass::PermissionDenied => SysfsError::PermissionDenied { path },
            IoErrorClass::Other => SysfsError::Io { path, source },
        }
    }

    /// Whether `text` is the report of the error. An I/O error is reported in its
    /// own words.
    pub open spec fn reads(&self, text: Seq<char>) -> bool {
        match self {
            SysfsError::NotFound { path } => text == "Sysfs path not found: "@ + path@,
            SysfsError::PermissionDenied { path } => text == "Permission denied at sysfs path: "@
                + path@,
            SysfsError::ParseError { path, expected, found } => text == "Parse error at "@ + path@
                + ": expected "@ + expected@ + ", got '"@ + found@ + "'"@,
            SysfsError::Io { path, source } => exists|words: String| #[trigger]
                vstd::string::to_string_from_display_ensures(source, words) && text
                    == "I/O error at "@ + path@ + ": "@ + words@,
        }
    }

    /// The report of the error.
    pub fn to_string(&self) -> (r: String)
        ensures
            self.reads(r@),
    {
        match self {
            SysfsError::NotFound { path } => {
                let mut s = "Sysfs path not found: ".to_owned();
                s.append(path.as_str());
                s
            },
            SysfsError::PermissionDenied { path } => {
                let mut s = "Permission denied at sysfs path: ".to_owned();
                s.append(path.as_str());
                s
            },
            SysfsError::ParseError { path, expected, found } => {
                let mut s = "Parse error at ".to_owned();
                s.append(path.as_str());
                s.append(": expected ");
                s.append(expected);
                s.append(", got '");
                s.append(found.as_str());
                s.append("'");
                s
            },
            SysfsError::Io { path, source } => {
                let words = source.to_string();
                let mut s = "I/O error at ".to_owned();
                s.append(path.as_str());
                s.append(": ");
                s.append(words.as_str());
                s
            },
        }
    }
}

impl BackendError {
    /// The report of the error.
    pub open spec fn text(&self) -> Seq<char> {
        match self {
            BackendError::ParseFailed { field, raw, reason } => "failed to parse "@ + field@
                + " from '"@ + raw@ + "': "@ + reason@,
            BackendError::Other(words) => words@,
        }
    }

    /// The report of the error.
    pub fn to_string(&self) -> (r: String)
        ensures
            r@ == self.text(),
    {
        match self {
            BackendError::ParseFailed { field, raw, reason } => {
                let mut s = "failed to parse ".to_owned();
                s.append(field);
                s.append(" from '");
                s.append(raw.as_str());
                s.append("': ");
                s.append(reason.as_str());
                s
            },
            BackendError::Other(words) => words.clone(),
        }
    }
}

impl HpdError {
    /// Whether `text` is the report of the error.
    pub open spec fn reads(&self, text: Seq<char>) -> bool {
        match self {
            HpdError::Sysfs(e) => e.reads(text),
            HpdError::Backend(e) => text == "Backend error: "@ + e.text(),
            HpdError::FeatureUnsupported => text == "Feature not supported on this hardware"@,
            HpdError::InvariantViolation(words) => text == "State invariant violated: "@ + words@,
        }
    }

    /// The report of the error.
    pub fn to_string(&self) -> (r: String)
        ensures
            self.reads(r@),
    {
        match self {
            HpdError::Sysfs(e) => e.to_string(),
            HpdError::Backend(e) => {
                let mut s = "Backend error: ".to_owned();
                s.append(e.to_string().as_str());
                s
            },
            HpdError::FeatureUnsupported => "Feature not supported on this hardware".to_owned(),
            HpdError::InvariantViolation(words) => {
                let mut s = "State invariant violated: ".to_owned();
                s.append(words.as_str());
                s
            },
        }
    }
}

impl From<SysfsError> for HpdError {
    fn from(e: SysfsError) -> (r: Self) {
        HpdError::Sysfs(e)
    }
}

impl vstd::std_specs::convert::FromSpecImpl<SysfsError> for HpdError {
    open spec fn obeys_from_spec() -> bool {
        true
    }

    open spec fn from_spec(e: SysfsError) -> Self {
        HpdError::Sysfs(e)
    }
}

impl From<BackendError> for HpdError {
    fn from(e: BackendError) -> (r: Self) {
        HpdError::Backend(e)
    }
}

impl vstd::std_specs::convert::FromSpecImpl<BackendError> for HpdError {
    open spec fn obeys_from_spec() -> bool {
        true
    }

    open spec fn from_spec(e: BackendError) -> Self {
        HpdError::Backend(e)
    }
}

/// Whether `e` reports a broken rule in these words.
pub open spec fn is_violation(e: HpdError, words: Seq<char>) -> bool {
    e matches HpdError::InvariantViolation(text) && text@ == words
}

/// Whether `r` succeeds where there is no defect, and otherwise fails by naming
/// the defect.
pub open spec fn refuses<T>(r: Result<T, HpdError>, defect: Option<Seq<char>>) -> bool {
    match defect {
        None => r is Ok,
        Some(words) => r matches Err(e) && is_violation(e, words),
    }
}

/// A broken rule, in words.
pub fn violation(words: String) -> (r: HpdError)
    ensures
        is_violation(r, words@),
{
    HpdError::InvariantViolation(words)
}

// ---------------------------------------------------------------------------
// Laws
// ---------------------------------------------------------------------------

/// An I/O error keeps its kind and its path.
pub proof fn io_errors_keep_their_kind(
    path: String,
    class: IoErrorClass,
    source: std::io::Error,
    r: SysfsError,
)
    requires
        call_ensures(SysfsError::from_class, (path, class, source), r),
    ensures
        r is NotFound <==> class is NotFound,
        r is PermissionDenied <==> class is PermissionDenied,
        r is Io <==> class is Other,
        r matches SysfsError::NotFound { path: p } ==> p == path,
        r matches SysfsError::PermissionDenied { path: p } ==> p == path,
        r matches SysfsError::Io { path: p, source: s } ==> p == path && s == source,
{
}

/// A report tells what went wrong, and with what.
pub proof fn reports_tell_what_went_wrong(e: HpdError, r: String)
    requires
        call_ensures(HpdError::to_string, (&e,), r),
    ensures
        e is FeatureUnsupported ==> r@ == "Feature not supported on this hardware"@,
        e matches HpdError::InvariantViolation(words) ==> r@ == "State invariant violated: "@
            + words@,
        e matches HpdError::Backend(BackendError::Other(words)) ==> r@ == "Backend error: "@
            + words@,
        e matches HpdError::Backend(BackendError::ParseFailed { field, raw, reason }) ==> r@
            == "Backend error: "@ + ("failed to parse "@ + field@ + " from '"@ + raw@ + "': "@
            + reason@),
        e matches HpdError::Sysfs(SysfsError::NotFound { path }) ==> r@ == "Sysfs path not found: "@
            + path@,
        e matches HpdError::Sysfs(SysfsError::PermissionDenied { path }) ==> r@
            == "Permission denied at sysfs path: "@ + path@,
{
}

} // verus!

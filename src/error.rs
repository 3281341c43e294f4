use vstd::prelude::*;

verus! {

/// `std::io::Error`, carried through the library without being inspected.
#[verifier::external_type_specification]
#[verifier::external_body]
pub struct ExIoError(std::io::Error);

/// `std::num::ParseIntError`, carried through the library without being inspected.
#[verifier::external_type_specification]
#[verifier::external_body]
pub struct ExParseIntError(std::num::ParseIntError);

/// Errors of the launcher.
#[derive(Debug)]
pub enum LauncherError {
    /// The compositor socket could not be reached.
    NiriConnection(String),
    /// The compositor answered with an error or an unexpected reply.
    NiriRequest(String),
    /// A desktop entry file could not be used.
    DesktopEntry(String),
    /// Reading or writing a file failed.
    Io(std::io::Error),
    /// A window id was not a decimal `u64`.
    ParseInt(std::num::ParseIntError),
}

/// Relies on the `Display` of `std::io::Error`; its text depends on the
/// system, so nothing is promised of it.
#[verifier::external_body]
fn io_error_text(e: &std::io::Error) -> (r: String) {
    e.to_string()
}

/// Relies on the `Display` of `std::num::ParseIntError`; nothing is
/// promised of its text.
#[verifier::external_body]
fn parse_error_text(e: &std::num::ParseIntError) -> (r: String) {
    e.to_string()
}

/// `prefix` followed by `detail`.
fn prefixed(prefix: &str, detail: &str) -> (r: String)
    ensures
        r@ == prefix@ + detail@,
{
    let mut s = prefix.to_owned();
    s.append(detail);
    s
}

impl LauncherError {
    /// A line that describes the error, led by its kind.
    pub fn message(&self) -> (r: String)
        ensures
            match self {
                LauncherError::NiriConnection(m) => r@ == "Niri connection error: "@ + m@,
                LauncherError::NiriRequest(m) => r@ == "Niri request error: "@ + m@,
                LauncherError::DesktopEntry(m) => r@ == "Desktop entry error: "@ + m@,
                LauncherError::Io(_) => r@.len() >= "IO error: "@.len() && r@.subrange(
                    0,
                    "IO error: "@.len() as int,
                ) == "IO error: "@,
                LauncherError::ParseInt(_) => r@.len() >= "Parse error: "@.len() && r@.subrange(
                    0,
                    "Parse error: "@.len() as int,
                ) == "Parse error: "@,
            },
    {
        match self {
            LauncherError::NiriConnection(m) => prefixed("Niri connection error: ", m.as_str()),
            LauncherError::NiriRequest(m) => prefixed("Niri request error: ", m.as_str()),
            LauncherError::DesktopEntry(m) => prefixed("Desktop entry error: ", m.as_str()),
            LauncherError::Io(e) => {
                let t = io_error_text(e);
                let r = prefixed("IO error: ", t.as_str());
                assert(r@.subrange(0, "IO error: "@.len() as int) =~= "IO error: "@);
                r
            },
            LauncherError::ParseInt(e) => {
                let t = parse_error_text(e);
                let r = prefixed("Parse error: ", t.as_str());
                assert(r@.subrange(0, "Parse error: "@.len() as int) =~= "Parse error: "@);
                r
            },
        }
    }
}

impl From<std::io::Error> for LauncherError {
    fn from(err: std::io::Error) -> (r: Self) {
        LauncherError::Io(err)
    }
}

impl vstd::std_specs::convert::FromSpecImpl<std::io::Error> for LauncherError {
    open spec fn obeys_from_spec() -> bool {
        true
    }

    open spec fn from_spec(err: std::io::Error) -> Self {
        LauncherError::Io(err)
    }
}

impl From<std::num::ParseIntError> for LauncherError {
    fn from(err: std::num::ParseIntError) -> (r: Self) {
        LauncherError::ParseInt(err)
    }
}

impl vstd::std_specs::convert::FromSpecImpl<std::num::ParseIntError> for LauncherError {
    open spec fn obeys_from_spec() -> bool {
        true
    }

    open spec fn from_spec(err: std::num::ParseIntError) -> Self {
        LauncherError::ParseInt(err)
    }
}

} // verus!

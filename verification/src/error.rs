//! The closed set of failures, with the status and the body that each one
//! is reported with.

use vstd::prelude::*;
use vstd::string::StringExecFns;

verus! {

/// Every way in which handling a request can fail.
#[derive(Debug, Clone, PartialEq, Eq)]
pub enum Error {
    /// The cause could not be identified.
    Unknown,
    /// A required sideband header, named here, was not sent.
    MissingBareHeader(String),
    /// The sideband header named here could not be read.
    InvalidBareHeader(String),
    /// The sideband header named here held a forbidden value.
    ForbiddenBareHeader(String),
    /// An unknown sideband header was sent. Nothing reports this yet.
    UnknownBareHeader(String),
    /// The header named here is not well formed.
    InvalidHeader(String),
    /// The lookup of the remote host failed.
    HostNotFound,
    /// The connection to the remote was closed early.
    ConnectionReset,
    /// The connection to the remote was refused.
    ConnectionRefused,
    /// The remote did not answer in time.
    ConnectionTimeout,
    /// Any other failure, with a short kind such as `invalid_body`.
    Generic(String),
}

/// What an [`Error`] holds.
pub enum ErrorKind {
    Unknown,
    MissingBareHeader(Seq<char>),
    InvalidBareHeader(Seq<char>),
    ForbiddenBareHeader(Seq<char>),
    UnknownBareHeader(Seq<char>),
    InvalidHeader(Seq<char>),
    HostNotFound,
    ConnectionReset,
    ConnectionRefused,
    ConnectionTimeout,
    Generic(Seq<char>),
}

impl View for Error {
    type V = ErrorKind;

    open spec fn view(&self) -> ErrorKind {
        match self {
            Error::Unknown => ErrorKind::Unknown,
            Error::MissingBareHeader(name) => ErrorKind::MissingBareHeader(name@),
            Error::InvalidBareHeader(name) => ErrorKind::InvalidBareHeader(name@),
            Error::ForbiddenBareHeader(name) => ErrorKind::ForbiddenBareHeader(name@),
            Error::UnknownBareHeader(name) => ErrorKind::UnknownBareHeader(name@),
            Error::InvalidHeader(name) => ErrorKind::InvalidHeader(name@),
            Error::HostNotFound => ErrorKind::HostNotFound,
            Error::ConnectionReset => ErrorKind::ConnectionReset,
            Error::ConnectionRefused => ErrorKind::ConnectionRefused,
            Error::ConnectionTimeout => ErrorKind::ConnectionTimeout,
            Error::Generic(kind) => ErrorKind::Generic(kind@),
        }
    }
}

/// The transport status that a failure is reported with: 403 for a
/// forbidden header, 400 for a missing, unreadable, unknown or malformed
/// one, 500 for everything else.
pub open spec fn status_of(kind: ErrorKind) -> u16 {
    match kind {
        ErrorKind::ForbiddenBareHeader(_) => 403,
        ErrorKind::MissingBareHeader(_)
        | ErrorKind::InvalidBareHeader(_)
        | ErrorKind::UnknownBareHeader(_)
        | ErrorKind::InvalidHeader(_) => 400,
        _ => 500,
    }
}

/// The upper-case tag of a failure, sent as `code`.
pub open spec fn code_of(kind: ErrorKind) -> Seq<char> {
    match kind {
        ErrorKind::Unknown => "UNKNOWN"@,
        ErrorKind::MissingBareHeader(_) => "MISSING_BARE_HEADER"@,
        ErrorKind::InvalidBareHeader(_) => "INVALID_BARE_HEADER"@,
        ErrorKind::ForbiddenBareHeader(_) => "FORBIDDEN_BARE_HEADER"@,
        ErrorKind::UnknownBareHeader(_) => "UNKNOWN_BARE_HEADER"@,
        ErrorKind::InvalidHeader(_) => "INVALID_HEADER"@,
        ErrorKind::HostNotFound => "HOST_NOT_FOUND"@,
        ErrorKind::ConnectionReset => "CONNECTION_RESET"@,
        ErrorKind::ConnectionRefused => "CONNECTION_REFUSED"@,
        ErrorKind::ConnectionTimeout => "CONNECTION_TIMEOUT"@,
        ErrorKind::Generic(_) => "UNKNOWN"@,
    }
}

/// The lower-case form of a text as `str::to_lowercase` gives it.
pub uninterp spec fn lowercase(text: Seq<char>) -> Seq<char>;

/// The stable dotted code of a failure, sent as `id`. A missing or
/// unreadable sideband header is named in lower case; the other names and
/// kinds are written as they are.
pub open spec fn id_of(kind: ErrorKind) -> Seq<char> {
    match kind {
        ErrorKind::Unknown => "unknown"@,
        ErrorKind::MissingBareHeader(name) => header_id_of(lowercase(name)),
        ErrorKind::InvalidBareHeader(name) => header_id_of(lowercase(name)),
        ErrorKind::ForbiddenBareHeader(name) => "error.temp.forbidden_header."@ + name,
        ErrorKind::UnknownBareHeader(name) => "error.temp.unknown_bare_header."@ + name,
        ErrorKind::InvalidHeader(name) => "error.temp.invalid_header."@ + name,
        ErrorKind::HostNotFound => "error.http.not_found"@,
        ErrorKind::ConnectionReset => "error.http.reset"@,
        ErrorKind::ConnectionRefused => "error.http.refused"@,
        ErrorKind::ConnectionTimeout => "error.http.timeout"@,
        ErrorKind::Generic(kind) => "request.tomphttp-rs."@ + kind,
    }
}

/// The stable code of a failure about the sideband header whose name, in
/// lower case, is `lowered`.
pub open spec fn header_id_of(lowered: Seq<char>) -> Seq<char> {
    "request.headers."@ + lowered
}

/// The sentence that describes a failure to the client.
pub open spec fn message_of(kind: ErrorKind) -> Seq<char> {
    match kind {
        ErrorKind::Unknown => "The Bare Server could not identify the cause of the issue"@,
        ErrorKind::MissingBareHeader(name) => "The request did not include the required header "@
            + name,
        ErrorKind::InvalidBareHeader(name) => "Received an unrecognizable header value: "@ + name,
        ErrorKind::ForbiddenBareHeader(name) => "Received a forbidden header value: "@ + name,
        ErrorKind::UnknownBareHeader(name) => "Received unknown bare header "@ + name,
        ErrorKind::InvalidHeader(name) => "Received a blacklisted header value: "@ + name,
        ErrorKind::HostNotFound => "The DNS lookup for the host failed."@,
        ErrorKind::ConnectionReset => "The connection to the remote was closed early."@,
        ErrorKind::ConnectionRefused => "The connection to the remote was refused."@,
        ErrorKind::ConnectionTimeout => "The remote didn't respond with headers/body in time."@,
        ErrorKind::Generic(kind) => kind,
    }
}

/// The text that bytes are shown as, as `String::from_utf8_lossy` gives it:
/// well-formed UTF-8 is decoded, and every ill-formed part is replaced.
pub uninterp spec fn shown(bytes: Seq<u8>) -> Seq<char>;

/// Calls `String::from_utf8_lossy`. Taken on trust: the result is the text
/// that the bytes are shown as, which depends on the bytes alone.
#[verifier::external_body]
fn shown_text(bytes: &[u8]) -> (r: String)
    ensures
        r@ == shown(bytes@),
{
    String::from_utf8_lossy(bytes).into_owned()
}

/// Calls `str::to_lowercase`. Taken on trust: the result is the lower-case
/// form of the text, which depends on the text alone.
#[verifier::external_body]
fn lowercase_text(text: &str) -> (r: String)
    ensures
        r@ == lowercase(text@),
{
    text.to_lowercase()
}

/// A text that starts with `prefix` and goes on with `rest`.
fn join_text(prefix: &str, rest: &str) -> (r: String)
    ensures
        r@ == prefix@ + rest@,
{
    String::from_str(prefix).concat(rest)
}

/// Computes [`header_id_of`] from a header name that is already in lower
/// case.
pub fn header_id(lowered: &str) -> (r: String)
    ensures
        r@ == header_id_of(lowered@),
{
    join_text("request.headers.", lowered)
}

/// The three texts that a failure is reported with.
#[derive(Debug, Clone, PartialEq, Eq)]
pub struct ErrorBody {
    pub code: String,
    pub id: String,
    pub message: String,
}

impl Error {
    /// The transport status that this failure is reported with.
    pub fn status(&self) -> (r: u16)
        ensures
            r == status_of(self@),
            r == 400 || r == 403 || r == 500,
    {
        match self {
            Error::ForbiddenBareHeader(_) => 403,
            Error::MissingBareHeader(_)
            | Error::InvalidBareHeader(_)
            | Error::UnknownBareHeader(_)
            | Error::InvalidHeader(_) => 400,
            _ => 500,
        }
    }

    /// The upper-case tag of this failure.
    pub fn code(&self) -> (r: String)
        ensures
            r@ == code_of(self@),
    {
        match self {
            Error::Unknown => "UNKNOWN".to_owned(),
            Error::MissingBareHeader(_) => "MISSING_BARE_HEADER".to_owned(),
            Error::InvalidBareHeader(_) => "INVALID_BARE_HEADER".to_owned(),
            Error::ForbiddenBareHeader(_) => "FORBIDDEN_BARE_HEADER".to_owned(),
            Error::UnknownBareHeader(_) => "UNKNOWN_BARE_HEADER".to_owned(),
            Error::InvalidHeader(_) => "INVALID_HEADER".to_owned(),
            Error::HostNotFound => "HOST_NOT_FOUND".to_owned(),
            Error::ConnectionReset => "CONNECTION_RESET".to_owned(),
            Error::ConnectionRefused => "CONNECTION_REFUSED".to_owned(),
            Error::ConnectionTimeout => "CONNECTION_TIMEOUT".to_owned(),
            Error::Generic(_) => "UNKNOWN".to_owned(),
        }
    }

    /// The stable dotted code of this failure.
    pub fn id(&self) -> (r: String)
        ensures
            r@ == id_of(self@),
    {
        match self {
            Error::Unknown => "unknown".to_owned(),
            Error::MissingBareHeader(name) | Error::InvalidBareHeader(name) => {
                let lowered: String = lowercase_text(name.as_str());
                header_id(lowered.as_str())
            },
            Error::ForbiddenBareHeader(name) => join_text(
                "error.temp.forbidden_header.",
                name.as_str(),
            ),
            Error::UnknownBareHeader(name) => join_text(
                "error.temp.unknown_bare_header.",
                name.as_str(),
            ),
            Error::InvalidHeader(name) => join_text("error.temp.invalid_header.", name.as_str()),
            Error::HostNotFound => "error.http.not_found".to_owned(),
            Error::ConnectionReset => "error.http.reset".to_owned(),
            Error::ConnectionRefused => "error.http.refused".to_owned(),
            Error::ConnectionTimeout => "error.http.timeout".to_owned(),
            Error::Generic(kind) => join_text("request.tomphttp-rs.", kind.as_str()),
        }
    }

    /// The sentence that describes this failure to the client.
    pub fn message(&self) -> (r: String)
        ensures
            r@ == message_of(self@),
    {
        match self {
            Error::Unknown => "The Bare Server could not identify the cause of the issue".to_owned(),
            Error::MissingBareHeader(name) => join_text(
                "The request did not include the required header ",
                name.as_str(),
            ),
            Error::InvalidBareHeader(name) => join_text(
                "Received an unrecognizable header value: ",
                name.as_str(),
            ),
            Error::ForbiddenBareHeader(name) => join_text(
                "Received a forbidden header value: ",
                name.as_str(),
            ),
            Error::UnknownBareHeader(name) => join_text(
                "Received unknown bare header ",
                name.as_str(),
            ),
            Error::InvalidHeader(name) => join_text(
                "Received a blacklisted header value: ",
                name.as_str(),
            ),
            Error::HostNotFound => "The DNS lookup for the host failed.".to_owned(),
            Error::ConnectionReset => "The connection to the remote was closed early.".to_owned(),
            Error::ConnectionRefused => "The connection to the remote was refused.".to_owned(),
            Error::ConnectionTimeout => "The remote didn't respond with headers/body in time.".to_owned(),
            Error::Generic(kind) => kind.clone(),
        }
    }

    /// The body that this failure is reported with: its tag as `code`, its
    /// dotted code as `id`, and its sentence as `message`.
    pub fn to_json(&self) -> (r: ErrorBody)
        ensures
            r.code@ == code_of(self@),
            r.id@ == id_of(self@),
            r.message@ == message_of(self@),
    {
        ErrorBody { code: self.code(), id: self.id(), message: self.message() }
    }
}

/// A failure together with a note on what was being done when it happened.
#[derive(Debug, Clone, PartialEq, Eq)]
pub struct ErrorWithContext {
    pub error: Error,
    pub context: String,
}

impl ErrorWithContext {
    /// A failure with its context.
    pub fn new(error: Error, context: &str) -> (r: ErrorWithContext)
        ensures
            r.error == error,
            r.context@ == context@,
    {
        ErrorWithContext { error, context: context.to_owned() }
    }

    /// The transport status that this failure is reported with.
    pub fn status(&self) -> (r: u16)
        ensures
            r == status_of(self.error@),
    {
        self.error.status()
    }
}

/// The failure that a malformed header is reported as, given the header's
/// name as a text.
pub fn invalid_header(name: String, context: &str) -> (r: ErrorWithContext)
    ensures
        r.error@ == ErrorKind::InvalidHeader(name@),
        r.context@ == context@,
{
    ErrorWithContext::new(Error::InvalidHeader(name), context)
}

/// The failure that a malformed header is reported as, given the header's
/// name as bytes: the name is shown as a text.
pub fn invalid_header_named(name: &[u8], context: &str) -> (r: ErrorWithContext)
    ensures
        r.error@ == ErrorKind::InvalidHeader(shown(name@)),
        r.context@ == context@,
{
    invalid_header(shown_text(name), context)
}

/// How the one outbound call can fail.
#[derive(Debug, Clone, Copy, PartialEq, Eq)]
pub enum Failure {
    /// The remote host's name could not be resolved.
    HostNotFound,
    /// The connection was closed before the answer was complete.
    Reset,
    /// The remote refused the connection.
    Refused,
    /// The remote did not answer in time.
    Timeout,
    /// Anything else, such as an upstream body that could not be read.
    Other,
}

/// What the operating system said of a connection that went wrong.
#[derive(Debug, Clone, Copy, PartialEq, Eq)]
pub enum IoFault {
    /// The remote refused the connection.
    Refused,
    /// The remote reset the connection.
    Reset,
    /// The connection was aborted.
    Aborted,
    /// The operation timed out.
    TimedOut,
    /// Anything else.
    Other,
}

/// One link in the chain of causes of a failed call.
#[derive(Debug, Clone, Copy, PartialEq, Eq)]
pub struct Cause {
    /// What the operating system said, where this cause came from it.
    pub io: Option<IoFault>,
    /// Whether this cause is a failed lookup of the remote host's name.
    pub dns: bool,
}

/// What one cause tells of a failure, if it tells anything: a refusal, a
/// reset or abort, or a timeout of the operating system's; else a failed
/// lookup of the host's name, which counts only while connecting.
pub open spec fn told_by(cause: Cause, connecting: bool) -> Option<Failure> {
    match cause.io {
        Some(IoFault::Refused) => Some(Failure::Refused),
        Some(IoFault::Reset) => Some(Failure::Reset),
        Some(IoFault::Aborted) => Some(Failure::Reset),
        Some(IoFault::TimedOut) => Some(Failure::Timeout),
        _ => if connecting && cause.dns {
            Some(Failure::HostNotFound)
        } else {
            None
        },
    }
}

/// What the first cause at or after `from` that tells anything tells; where
/// none does, the failure is of no known kind.
pub open spec fn first_told(causes: Seq<Cause>, connecting: bool, from: int) -> Failure
    decreases causes.len() - from,
{
    if from < 0 || from >= causes.len() {
        Failure::Other
    } else {
        match told_by(causes[from], connecting) {
            Some(failure) => failure,
            None => first_told(causes, connecting, from + 1),
        }
    }
}

/// How a call failed. A call that ran out of time timed out, whatever its
/// causes; else the causes are asked in turn, outermost first.
pub open spec fn failure_of(timed_out: bool, connecting: bool, causes: Seq<Cause>) -> Failure {
    if timed_out {
        Failure::Timeout
    } else {
        first_told(causes, connecting, 0)
    }
}

/// Decides [`told_by`].
pub fn tells(cause: &Cause, connecting: bool) -> (r: Option<Failure>)
    ensures
        r == told_by(*cause, connecting),
{
    match cause.io {
        Some(IoFault::Refused) => Some(Failure::Refused),
        Some(IoFault::Reset) => Some(Failure::Reset),
        Some(IoFault::Aborted) => Some(Failure::Reset),
        Some(IoFault::TimedOut) => Some(Failure::Timeout),
        _ => if connecting && cause.dns {
            Some(Failure::HostNotFound)
        } else {
            None
        },
    }
}

/// Decides how a call failed from what its error tells: whether it ran out
/// of time, whether it failed while connecting, and its chain of causes,
/// outermost first; see [`failure_of`].
pub fn failure_from(timed_out: bool, connecting: bool, causes: &Vec<Cause>) -> (r: Failure)
    ensures
        r == failure_of(timed_out, connecting, causes@),
{
    if timed_out {
        return Failure::Timeout;
    }
    let mut i: usize = 0;
    while i < causes.len()
        invariant
            i <= causes.len(),
            !timed_out,
            first_told(causes@, connecting, 0) == first_told(causes@, connecting, i as int),
        decreases causes.len() - i,
    {
        match tells(&causes[i], connecting) {
            Some(failure) => {
                return failure;
            },
            None => {},
        }
        i += 1;
    }
    Failure::Other
}

/// The error that a failed outbound call is reported as.
pub open spec fn classified(failure: Failure) -> ErrorKind {
    match failure {
        Failure::HostNotFound => ErrorKind::HostNotFound,
        Failure::Reset => ErrorKind::ConnectionReset,
        Failure::Refused => ErrorKind::ConnectionRefused,
        Failure::Timeout => ErrorKind::ConnectionTimeout,
        Failure::Other => ErrorKind::Generic("unhandled_error"@),
    }
}

/// Classifies a failed outbound call. `detail` says what went wrong and
/// becomes the context; the call is never tried again.
pub fn classify_failure(failure: Failure, detail: &str) -> (r: ErrorWithContext)
    ensures
        r.error@ == classified(failure),
        r.context@ == detail@,
        status_of(r.error@) == 500,
{
    let error: Error = match failure {
        Failure::HostNotFound => Error::HostNotFound,
        Failure::Reset => Error::ConnectionReset,
        Failure::Refused => Error::ConnectionRefused,
        Failure::Timeout => Error::ConnectionTimeout,
        Failure::Other => Error::Generic("unhandled_error".to_owned()),
    };
    ErrorWithContext::new(error, detail)
}

} // verus!

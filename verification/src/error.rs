//! Structured error taxonomy for the public API.
//!
//! The shape follows Playwright's error classes so that consumers can tell
//! classes of failure apart with [`FerriError::is_timeout_error`] and
//! [`FerriError::is_target_closed_error`], and read the class name that the
//! JavaScript side reports through [`FerriError::name`].

use vstd::prelude::*;
use crate::text::{
    decimal, decimal_string, has_infix, has_prefix, opt_text, owned, starts_with, contains,
    trim_matching, trim_seq,
};

verus! {

#[verifier::external_type_specification]
#[verifier::external_body]
pub struct ExIoError(std::io::Error);

#[verifier::external_type_specification]
#[verifier::external_body]
pub struct ExIoErrorKind(std::io::ErrorKind);

#[verifier::external_type_specification]
#[verifier::external_body]
pub struct ExJsonError(serde_json::Error);

/// An I/O error as the library keeps it: its kind and its message. This is
/// what a copy of the error preserves.
#[derive(Debug)]
pub struct IoErrorData {
    pub kind: std::io::ErrorKind,
    pub message: String,
}

/// A JSON (de)serialization error as the library keeps it: its message.
#[derive(Debug)]
pub struct JsonErrorData {
    pub message: String,
}

impl IoErrorData {
    /// The kind of the I/O error.
    pub fn kind(&self) -> (r: std::io::ErrorKind)
        ensures
            r == self.kind,
    {
        self.kind
    }
}

/// Every user-facing failure mode of the core.
///
/// [`FerriError::to_string`] gives the exact message that flows into
/// `error.message` on the JavaScript side; [`FerriError::name`] gives the
/// class name there.
#[derive(Debug)]
#[allow(inconsistent_fields)]
pub enum FerriError {
    /// An operation did not complete within its deadline.
    Timeout { operation: Option<String>, timeout_ms: u64 },
    /// The target page, context, browser or session has been closed.
    TargetClosed { reason: Option<String> },
    /// A locator resolved to more than one element under strict mode.
    StrictModeViolation { selector: String, count: usize },
    /// A navigation failed (DNS, TLS, aborted, ...).
    Navigation { url: String, message: String },
    /// A protocol error surfaced by the transport layer.
    Protocol { method: String, message: String },
    /// A backend failure not otherwise classified.
    Backend(String),
    /// A selector could not be parsed or names an unknown engine.
    InvalidSelector { selector: String, reason: String },
    /// The caller is not connected to any browser target.
    NotConnected,
    /// A long-running operation was cancelled.
    Interrupted(String),
    /// An argument did not pass validation.
    InvalidArgument { name: String, reason: String },
    /// A valid operation that the active backend does not implement.
    Unsupported(String),
    /// A script threw inside the page.
    Evaluation(String),
    /// A snapshot read, write or compare failed.
    Snapshot(String),
    /// A filesystem or other I/O error.
    Io(IoErrorData),
    /// A JSON (de)serialization error.
    Json(JsonErrorData),
    /// Catch-all when no other variant applies.
    Other(String),
}

/// The value of a [`FerriError`]: its variant with the text of each field.
#[allow(inconsistent_fields)]
pub enum FerriErrorView {
    Timeout { operation: Option<Seq<char>>, timeout_ms: u64 },
    TargetClosed { reason: Option<Seq<char>> },
    StrictModeViolation { selector: Seq<char>, count: usize },
    Navigation { url: Seq<char>, message: Seq<char> },
    Protocol { method: Seq<char>, message: Seq<char> },
    Backend(Seq<char>),
    InvalidSelector { selector: Seq<char>, reason: Seq<char> },
    NotConnected,
    Interrupted(Seq<char>),
    InvalidArgument { name: Seq<char>, reason: Seq<char> },
    Unsupported(Seq<char>),
    Evaluation(Seq<char>),
    Snapshot(Seq<char>),
    Io { kind: std::io::ErrorKind, message: Seq<char> },
    Json { message: Seq<char> },
    Other(Seq<char>),
}

impl View for FerriError {
    type V = FerriErrorView;

    open spec fn view(&self) -> FerriErrorView {
        match self {
            FerriError::Timeout { operation, timeout_ms } => FerriErrorView::Timeout {
                operation: opt_text(*operation),
                timeout_ms: *timeout_ms,
            },
            FerriError::TargetClosed { reason } => FerriErrorView::TargetClosed {
                reason: opt_text(*reason),
            },
            FerriError::StrictModeViolation { selector, count } =>
                FerriErrorView::StrictModeViolation { selector: selector@, count: *count },
            FerriError::Navigation { url, message } => FerriErrorView::Navigation {
                url: url@,
                message: message@,
            },
            FerriError::Protocol { method, message } => FerriErrorView::Protocol {
                method: method@,
                message: message@,
            },
            FerriError::Backend(m) => FerriErrorView::Backend(m@),
            FerriError::InvalidSelector { selector, reason } => FerriErrorView::InvalidSelector {
                selector: selector@,
                reason: reason@,
            },
            FerriError::NotConnected => FerriErrorView::NotConnected,
            FerriError::Interrupted(m) => FerriErrorView::Interrupted(m@),
            FerriError::InvalidArgument { name, reason } => FerriErrorView::InvalidArgument {
                name: name@,
                reason: reason@,
            },
            FerriError::Unsupported(m) => FerriErrorView::Unsupported(m@),
            FerriError::Evaluation(m) => FerriErrorView::Evaluation(m@),
            FerriError::Snapshot(m) => FerriErrorView::Snapshot(m@),
            FerriError::Io(d) => FerriErrorView::Io { kind: d.kind, message: d.message@ },
            FerriError::Json(d) => FerriErrorView::Json { message: d.message@ },
            FerriError::Other(m) => FerriErrorView::Other(m@),
        }
    }
}

/// What `format!("{:?}", s)` gives for a string with the characters `s`:
/// the string quoted and escaped as Rust's `Debug` for `str` does it.
pub uninterp spec fn str_debug(s: Seq<char>) -> Seq<char>;

/// Calls `Debug::fmt` of `str` through `format!("{:?}", ..)`; the contract
/// names the result `str_debug` of the characters and claims nothing more.
#[verifier::external_body]
fn debug_quoted(s: &str) -> (r: String)
    ensures
        r@ == str_debug(s@),
{
    format!("{:?}", s)
}

/// Calls `Display` of `std::io::Error` through `to_string`. The text can
/// depend on the operating system and its locale, so nothing is claimed of it.
#[verifier::external_body]
fn io_error_text(e: &std::io::Error) -> String {
    e.to_string()
}

/// The kind of an I/O error, as `std::io::Error::kind` reports it.
pub uninterp spec fn io_kind_of(e: std::io::Error) -> std::io::ErrorKind;

/// Calls `std::io::Error::kind`, a getter; its result is named `io_kind_of`.
#[verifier::external_body]
fn io_error_kind(e: &std::io::Error) -> (k: std::io::ErrorKind)
    ensures
        k == io_kind_of(*e),
{
    e.kind()
}

/// Calls `Display` of `serde_json::Error` through `to_string`; nothing is
/// claimed of the text, since the error value is opaque here.
#[verifier::external_body]
fn json_error_text(e: &serde_json::Error) -> String {
    e.to_string()
}

/// `prefix` followed by the optional text, or nothing when it is absent.
pub open spec fn optional_suffix(prefix: Seq<char>, o: Option<Seq<char>>) -> Seq<char> {
    match o {
        Some(x) => prefix + x,
        None => Seq::empty(),
    }
}

/// The message of an error, as Playwright words it.
pub open spec fn message_of(e: FerriErrorView) -> Seq<char> {
    match e {
        FerriErrorView::Timeout { operation, timeout_ms } => "Timeout "@ + decimal(
            timeout_ms as nat,
        ) + "ms exceeded"@ + optional_suffix(" while "@, operation),
        FerriErrorView::TargetClosed { reason } => "Target page, context or browser has been closed"@
            + optional_suffix(": "@, reason),
        FerriErrorView::StrictModeViolation { selector, count } => "strict mode violation: selector "@
            + str_debug(selector) + " resolved to "@ + decimal(count as nat) + " elements"@,
        FerriErrorView::Navigation { url, message } => "navigation to "@ + url + " failed: "@
            + message,
        FerriErrorView::Protocol { method, message } => "protocol error ("@ + method + "): "@
            + message,
        FerriErrorView::Backend(m) => "backend error: "@ + m,
        FerriErrorView::InvalidSelector { selector, reason } => "invalid selector "@ + str_debug(
            selector,
        ) + ": "@ + reason,
        FerriErrorView::NotConnected => "not connected"@,
        FerriErrorView::Interrupted(m) => "interrupted: "@ + m,
        FerriErrorView::InvalidArgument { name, reason } => "invalid argument "@ + str_debug(name)
            + ": "@ + reason,
        FerriErrorView::Unsupported(m) => "unsupported operation: "@ + m,
        FerriErrorView::Evaluation(m) => "evaluation error: "@ + m,
        FerriErrorView::Snapshot(m) => "snapshot error: "@ + m,
        FerriErrorView::Io { message, .. } => "io error: "@ + message,
        FerriErrorView::Json { message } => "json error: "@ + message,
        FerriErrorView::Other(m) => m,
    }
}


/// What a clone of `e` is: `e` itself, except that a JSON error becomes a
/// `Backend` error whose text is the JSON error's message.
pub open spec fn clone_of(e: FerriErrorView) -> FerriErrorView {
    match e {
        FerriErrorView::Json { .. } => FerriErrorView::Backend(message_of(e)),
        _ => e,
    }
}

/// The class name reported on the JavaScript side.
pub open spec fn name_of(e: FerriErrorView) -> Seq<char> {
    match e {
        FerriErrorView::Timeout { .. } => "TimeoutError"@,
        FerriErrorView::TargetClosed { .. } => "TargetClosedError"@,
        _ => "FerriError"@,
    }
}

/// The error that a bare message converts to: `Unsupported` with the
/// trimmed rest when it starts with `unsupported:`, else `Backend`.
pub open spec fn from_message(s: Seq<char>) -> FerriErrorView {
    if has_prefix(s, "unsupported:"@) {
        FerriErrorView::Unsupported(
            trim_seq(s.subrange("unsupported:"@.len() as int, s.len() as int), false),
        )
    } else {
        FerriErrorView::Backend(s)
    }
}

/// A message that a page script or the session reports for a transient
/// failure.
pub open spec fn transient_message(m: Seq<char>) -> bool {
    has_infix(m, "not connected"@) || has_infix(m, "not found"@) || has_infix(m, "detached"@)
        || has_prefix(m, "error:not"@)
}

/// Whether locator polling retries after this error.
pub open spec fn poll_retriable(e: FerriErrorView) -> bool {
    match e {
        FerriErrorView::NotConnected => true,
        FerriErrorView::Backend(m) => transient_message(m),
        FerriErrorView::Evaluation(m) => transient_message(m),
        FerriErrorView::Other(m) => transient_message(m),
        FerriErrorView::Interrupted(m) => transient_message(m),
        FerriErrorView::Protocol { message, .. } => has_infix(message, "not found"@) || has_infix(
            message,
            "detached"@,
        ) || has_infix(message, "not connected"@),
        _ => false,
    }
}

fn clone_opt(o: &Option<String>) -> (r: Option<String>)
    ensures
        opt_text(r) == opt_text(*o),
{
    match o {
        Some(s) => Some(s.clone()),
        None => None,
    }
}

fn transient_exec(m: &str) -> (r: bool)
    ensures
        r == transient_message(m@),
{
    contains(m, "not connected") || contains(m, "not found") || contains(m, "detached")
        || starts_with(m, "error:not")
}

/// `s` with `tail` appended.
fn joined(s: String, tail: &str) -> (r: String)
    ensures
        r@ == s@ + tail@,
{
    let mut s = s;
    s.append(tail);
    s
}

impl FerriError {
    /// Playwright's `isTimeoutError(err)`.
    pub fn is_timeout_error(&self) -> (r: bool)
        ensures
            r == (self@ is Timeout),
    {
        match self {
            FerriError::Timeout { .. } => true,
            _ => false,
        }
    }

    /// Playwright's `TargetClosedError` detection.
    pub fn is_target_closed_error(&self) -> (r: bool)
        ensures
            r == (self@ is TargetClosed),
    {
        match self {
            FerriError::TargetClosed { .. } => true,
            _ => false,
        }
    }

    /// Playwright's strict-mode violation detection.
    pub fn is_strict_mode_violation(&self) -> (r: bool)
        ensures
            r == (self@ is StrictModeViolation),
    {
        match self {
            FerriError::StrictModeViolation { .. } => true,
            _ => false,
        }
    }

    /// The class name on the JavaScript side: `TimeoutError` and
    /// `TargetClosedError` as Playwright names them, `FerriError` for the rest.
    pub fn name(&self) -> (r: &'static str)
        ensures
            r@ == name_of(self@),
    {
        match self {
            FerriError::Timeout { .. } => "TimeoutError",
            FerriError::TargetClosed { .. } => "TargetClosedError",
            _ => "FerriError",
        }
    }

    /// A timeout while performing `operation`.
    pub fn timeout(operation: &str, timeout_ms: u64) -> (r: Self)
        ensures
            r@ == (FerriErrorView::Timeout { operation: Some(operation@), timeout_ms }),
    {
        FerriError::Timeout { operation: Some(owned(operation)), timeout_ms }
    }

    /// A timeout with no operation description.
    pub fn timeout_plain(timeout_ms: u64) -> (r: Self)
        ensures
            r@ == (FerriErrorView::Timeout { operation: None, timeout_ms }),
    {
        FerriError::Timeout { operation: None, timeout_ms }
    }

    /// A strict-mode violation of `selector`, which matched `count` elements.
    pub fn strict(selector: &str, count: usize) -> (r: Self)
        ensures
            r@ == (FerriErrorView::StrictModeViolation { selector: selector@, count }),
    {
        FerriError::StrictModeViolation { selector: owned(selector), count }
    }

    /// A closed target, with an optional reason.
    pub fn target_closed(reason: Option<String>) -> (r: Self)
        ensures
            r@ == (FerriErrorView::TargetClosed { reason: opt_text(reason) }),
    {
        FerriError::TargetClosed { reason }
    }

    /// A protocol error of `method`.
    pub fn protocol(method: &str, message: &str) -> (r: Self)
        ensures
            r@ == (FerriErrorView::Protocol { method: method@, message: message@ }),
    {
        FerriError::Protocol { method: owned(method), message: owned(message) }
    }

    /// An argument `name` that failed validation.
    pub fn invalid_argument(name: &str, reason: &str) -> (r: Self)
        ensures
            r@ == (FerriErrorView::InvalidArgument { name: name@, reason: reason@ }),
    {
        FerriError::InvalidArgument { name: owned(name), reason: owned(reason) }
    }

    /// A selector that could not be parsed.
    pub fn invalid_selector(selector: &str, reason: &str) -> (r: Self)
        ensures
            r@ == (FerriErrorView::InvalidSelector { selector: selector@, reason: reason@ }),
    {
        FerriError::InvalidSelector { selector: owned(selector), reason: owned(reason) }
    }

    /// A script error thrown inside the page.
    pub fn evaluation(message: &str) -> (r: Self)
        ensures
            r@ == FerriErrorView::Evaluation(message@),
    {
        FerriError::Evaluation(owned(message))
    }

    /// A backend failure.
    pub fn backend(message: &str) -> (r: Self)
        ensures
            r@ == FerriErrorView::Backend(message@),
    {
        FerriError::Backend(owned(message))
    }

    /// A failed navigation to `url`.
    pub fn navigation(url: &str, message: &str) -> (r: Self)
        ensures
            r@ == (FerriErrorView::Navigation { url: url@, message: message@ }),
    {
        FerriError::Navigation { url: owned(url), message: owned(message) }
    }

    /// Whether locator polling treats this error as transient and retries:
    /// not being connected, and messages that report a missing, detached or
    /// disconnected target.
    pub fn is_locator_poll_retriable(&self) -> (r: bool)
        ensures
            r == poll_retriable(self@),
    {
        match self {
            FerriError::NotConnected => true,
            FerriError::Backend(m) => transient_exec(m.as_str()),
            FerriError::Evaluation(m) => transient_exec(m.as_str()),
            FerriError::Other(m) => transient_exec(m.as_str()),
            FerriError::Interrupted(m) => transient_exec(m.as_str()),
            FerriError::Protocol { message, .. } => contains(message.as_str(), "not found")
                || contains(message.as_str(), "detached") || contains(
                message.as_str(),
                "not connected",
            ),
            _ => false,
        }
    }

    /// The error message, exactly as it reaches `error.message` on the
    /// JavaScript side.
    pub fn to_string(&self) -> (r: String)
        ensures
            r@ == message_of(self@),
    {
        match self {
            FerriError::Timeout { operation, timeout_ms } => {
                let s = joined(owned("Timeout "), decimal_string(*timeout_ms).as_str());
                let s = joined(s, "ms exceeded");
                match operation {
                    Some(op) => joined(joined(s, " while "), op.as_str()),
                    None => s,
                }
            },
            FerriError::TargetClosed { reason } => {
                let s = owned("Target page, context or browser has been closed");
                match reason {
                    Some(r) => joined(joined(s, ": "), r.as_str()),
                    None => s,
                }
            },
            FerriError::StrictModeViolation { selector, count } => {
                let s = joined(
                    owned("strict mode violation: selector "),
                    debug_quoted(selector.as_str()).as_str(),
                );
                let s = joined(s, " resolved to ");
                let s = joined(s, decimal_string(*count as u64).as_str());
                joined(s, " elements")
            },
            FerriError::Navigation { url, message } => {
                let s = joined(joined(owned("navigation to "), url.as_str()), " failed: ");
                joined(s, message.as_str())
            },
            FerriError::Protocol { method, message } => {
                let s = joined(joined(owned("protocol error ("), method.as_str()), "): ");
                joined(s, message.as_str())
            },
            FerriError::Backend(m) => joined(owned("backend error: "), m.as_str()),
            FerriError::InvalidSelector { selector, reason } => {
                let s = joined(
                    owned("invalid selector "),
                    debug_quoted(selector.as_str()).as_str(),
                );
                joined(joined(s, ": "), reason.as_str())
            },
            FerriError::NotConnected => owned("not connected"),
            FerriError::Interrupted(m) => joined(owned("interrupted: "), m.as_str()),
            FerriError::InvalidArgument { name, reason } => {
                let s = joined(owned("invalid argument "), debug_quoted(name.as_str()).as_str());
                joined(joined(s, ": "), reason.as_str())
            },
            FerriError::Unsupported(m) => joined(owned("unsupported operation: "), m.as_str()),
            FerriError::Evaluation(m) => joined(owned("evaluation error: "), m.as_str()),
            FerriError::Snapshot(m) => joined(owned("snapshot error: "), m.as_str()),
            FerriError::Io(d) => joined(owned("io error: "), d.message.as_str()),
            FerriError::Json(d) => joined(owned("json error: "), d.message.as_str()),
            FerriError::Other(m) => owned(m.as_str()),
        }
    }
}

impl Clone for FerriError {
    /// A copy of the error. An I/O error keeps its kind and its message; a
    /// JSON error becomes a `Backend` error whose text is the JSON error's
    /// message.
    fn clone(&self) -> (r: Self)
        ensures
            r@ == clone_of(self@),
    {
        match self {
            FerriError::Timeout { operation, timeout_ms } => FerriError::Timeout {
                operation: clone_opt(operation),
                timeout_ms: *timeout_ms,
            },
            FerriError::TargetClosed { reason } => FerriError::TargetClosed {
                reason: clone_opt(reason),
            },
            FerriError::StrictModeViolation { selector, count } =>
                FerriError::StrictModeViolation { selector: selector.clone(), count: *count },
            FerriError::Navigation { url, message } => FerriError::Navigation {
                url: url.clone(),
                message: message.clone(),
            },
            FerriError::Protocol { method, message } => FerriError::Protocol {
                method: method.clone(),
                message: message.clone(),
            },
            FerriError::Backend(m) => FerriError::Backend(m.clone()),
            FerriError::InvalidSelector { selector, reason } => FerriError::InvalidSelector {
                selector: selector.clone(),
                reason: reason.clone(),
            },
            FerriError::NotConnected => FerriError::NotConnected,
            FerriError::Interrupted(m) => FerriError::Interrupted(m.clone()),
            FerriError::InvalidArgument { name, reason } => FerriError::InvalidArgument {
                name: name.clone(),
                reason: reason.clone(),
            },
            FerriError::Unsupported(m) => FerriError::Unsupported(m.clone()),
            FerriError::Evaluation(m) => FerriError::Evaluation(m.clone()),
            FerriError::Snapshot(m) => FerriError::Snapshot(m.clone()),
            FerriError::Io(d) => FerriError::Io(
                IoErrorData { kind: d.kind(), message: d.message.clone() },
            ),
            FerriError::Json(_) => FerriError::Backend(self.to_string()),
            FerriError::Other(m) => FerriError::Other(m.clone()),
        }
    }
}

/// The error that a bare message converts to.
fn error_from_message(s: String) -> (r: FerriError)
    ensures
        r@ == from_message(s@),
{
    if starts_with(s.as_str(), "unsupported:") {
        let n = s.as_str().unicode_len();
        let rest = s.as_str().substring_char("unsupported:".unicode_len(), n);
        FerriError::Unsupported(owned(trim_matching(rest, false)))
    } else {
        FerriError::Backend(s)
    }
}

// A conversion that builds a fresh `String` cannot be written as a spec
// function, so the conversions from text state their result in the `ensures`
// of `from` itself and do not claim `from_spec`.
impl vstd::std_specs::convert::FromSpecImpl<String> for FerriError {
    open spec fn obeys_from_spec() -> bool {
        false
    }

    open spec fn from_spec(v: String) -> FerriError {
        arbitrary()
    }
}

impl From<String> for FerriError {
    /// Bridges bare messages into typed errors: `Unsupported` when the
    /// message carries the `unsupported:` prefix, `Backend` otherwise.
    fn from(s: String) -> (r: FerriError)
        ensures
            r@ == from_message(s@),
    {
        error_from_message(s)
    }
}

impl<'a> vstd::std_specs::convert::FromSpecImpl<&'a str> for FerriError {
    open spec fn obeys_from_spec() -> bool {
        false
    }

    open spec fn from_spec(v: &'a str) -> FerriError {
        arbitrary()
    }
}

impl<'a> From<&'a str> for FerriError {
    /// As the conversion from `String`.
    fn from(s: &'a str) -> (r: FerriError)
        ensures
            r@ == from_message(s@),
    {
        error_from_message(owned(s))
    }
}

impl vstd::std_specs::convert::FromSpecImpl<std::io::Error> for FerriError {
    open spec fn obeys_from_spec() -> bool {
        false
    }

    open spec fn from_spec(v: std::io::Error) -> FerriError {
        arbitrary()
    }
}

impl From<std::io::Error> for FerriError {
    /// An `Io` error with the kind and the message of `e`.
    fn from(e: std::io::Error) -> (r: FerriError)
        ensures
            r@ matches FerriErrorView::Io { kind, .. } && kind == io_kind_of(e),
    {
        FerriError::Io(IoErrorData { kind: io_error_kind(&e), message: io_error_text(&e) })
    }
}

impl vstd::std_specs::convert::FromSpecImpl<serde_json::Error> for FerriError {
    open spec fn obeys_from_spec() -> bool {
        false
    }

    open spec fn from_spec(v: serde_json::Error) -> FerriError {
        arbitrary()
    }
}

impl From<serde_json::Error> for FerriError {
    /// A `Json` error with the message of `e`.
    fn from(e: serde_json::Error) -> (r: FerriError)
        ensures
            r@ is Json,
    {
        FerriError::Json(JsonErrorData { message: json_error_text(&e) })
    }
}

impl vstd::std_specs::convert::FromSpecImpl<FerriError> for String {
    open spec fn obeys_from_spec() -> bool {
        false
    }

    open spec fn from_spec(v: FerriError) -> String {
        arbitrary()
    }
}

impl From<FerriError> for String {
    /// The error's message.
    fn from(e: FerriError) -> (r: String)
        ensures
            r@ == message_of(e@),
    {
        e.to_string()
    }
}

/// The result type of the public API.
pub type FerriResult<T> = std::result::Result<T, FerriError>;

/// Conversion of the error types that action closures return.
pub trait IntoFerriError: Sized {
    fn into_ferri_error(self) -> FerriError;
}

impl IntoFerriError for String {
    fn into_ferri_error(self) -> (r: FerriError)
        ensures
            r@ == from_message(self@),
    {
        error_from_message(self)
    }
}

impl IntoFerriError for FerriError {
    fn into_ferri_error(self) -> (r: FerriError)
        ensures
            r == self,
    {
        self
    }
}

/// An action's result with its error converted to a [`FerriError`].
pub fn normalize_action_result<R, E: IntoFerriError>(r: Result<R, E>) -> (res: FerriResult<R>)
    ensures
        r is Ok <==> res is Ok,
        r matches Ok(v) ==> res == Ok::<R, FerriError>(v),
        r matches Err(e) ==> (res matches Err(x) && call_ensures(
            E::into_ferri_error,
            (e,),
            x,
        )),
{
    match r {
        Ok(v) => Ok(v),
        Err(e) => Err(e.into_ferri_error()),
    }
}


/// The class name and the class predicates agree: `TimeoutError` exactly for
/// timeouts, `TargetClosedError` exactly for closed targets.
pub proof fn lemma_name_matches_class(e: FerriErrorView)
    ensures
        (name_of(e) == "TimeoutError"@) == (e is Timeout),
        (name_of(e) == "TargetClosedError"@) == (e is TargetClosed),
        (name_of(e) == "FerriError"@) == !(e is Timeout || e is TargetClosed),
{
    reveal_strlit("TimeoutError");
    reveal_strlit("TargetClosedError");
    reveal_strlit("FerriError");
    assert("TimeoutError"@.len() != "FerriError"@.len());
    assert("TargetClosedError"@.len() != "FerriError"@.len());
    assert("TargetClosedError"@.len() != "TimeoutError"@.len());
}

/// A clone is of the same class as the original: same name and same answers
/// to the class predicates; it equals the original except for a JSON error,
/// whose message the clone carries as a `Backend` error.
pub proof fn lemma_clone_keeps_class(e: FerriErrorView)
    ensures
        name_of(clone_of(e)) == name_of(e),
        (clone_of(e) is Timeout) == (e is Timeout),
        (clone_of(e) is TargetClosed) == (e is TargetClosed),
        (clone_of(e) is StrictModeViolation) == (e is StrictModeViolation),
        !(e is Json) ==> clone_of(e) == e && message_of(clone_of(e)) == message_of(e),
        e is Json ==> message_of(clone_of(e)) == "backend error: "@ + message_of(e),
{
}


/// Locator polling retries only transient failures: a lost connection, and
/// backend, evaluation, catch-all, interruption and protocol errors whose
/// message reports a missing, detached or disconnected target. Every other
/// class of error is final and stops polling.
pub proof fn lemma_only_transient_failures_are_retried(e: FerriErrorView)
    ensures
        e is Timeout || e is TargetClosed || e is StrictModeViolation || e is Navigation
            || e is InvalidSelector || e is InvalidArgument || e is Unsupported || e is Snapshot
            || e is Io || e is Json ==> !poll_retriable(e),
        e is NotConnected ==> poll_retriable(e),
        e matches FerriErrorView::Backend(m) ==> (poll_retriable(e) <==> (has_infix(
            m,
            "not connected"@,
        ) || has_infix(m, "not found"@) || has_infix(m, "detached"@) || has_prefix(
            m,
            "error:not"@,
        ))),
        e matches FerriErrorView::Evaluation(m) ==> (poll_retriable(e) <==> (has_infix(
            m,
            "not connected"@,
        ) || has_infix(m, "not found"@) || has_infix(m, "detached"@) || has_prefix(
            m,
            "error:not"@,
        ))),
        e matches FerriErrorView::Other(m) ==> (poll_retriable(e) <==> (has_infix(
            m,
            "not connected"@,
        ) || has_infix(m, "not found"@) || has_infix(m, "detached"@) || has_prefix(
            m,
            "error:not"@,
        ))),
        e matches FerriErrorView::Interrupted(m) ==> (poll_retriable(e) <==> (has_infix(
            m,
            "not connected"@,
        ) || has_infix(m, "not found"@) || has_infix(m, "detached"@) || has_prefix(
            m,
            "error:not"@,
        ))),
        e matches FerriErrorView::Protocol { message, .. } ==> (poll_retriable(e) <==> (has_infix(
            message,
            "not found"@,
        ) || has_infix(message, "detached"@) || has_infix(message, "not connected"@))),
{
}

/// A bare message converts to a `Backend` error carrying it unchanged, and
/// reported as `backend error: ` followed by it, unless it starts with
/// `unsupported:`; then it converts to `Unsupported`, carrying the rest of
/// the message without surrounding white space.
pub proof fn lemma_bare_messages_convert_to_backend(s: Seq<char>)
    ensures
        !has_prefix(s, "unsupported:"@) ==> from_message(s) == FerriErrorView::Backend(s)
            && message_of(from_message(s)) == "backend error: "@ + s,
        has_prefix(s, "unsupported:"@) ==> (from_message(s) matches FerriErrorView::Unsupported(
            r,
        ) && r == trim_seq(s.subrange("unsupported:"@.len() as int, s.len() as int), false)),
        has_prefix(s, "unsupported:"@) ==> message_of(from_message(s)) == "unsupported operation: "@
            + trim_seq(s.subrange("unsupported:"@.len() as int, s.len() as int), false),
        name_of(from_message(s)) == "FerriError"@,
{
}


/// Every message is worded as Playwright words it, from the error's fields:
/// a fixed phrase for the class, then the fields in their places.
pub proof fn lemma_messages_follow_playwright(e: FerriErrorView)
    ensures
        e matches FerriErrorView::Timeout { operation: None, timeout_ms } ==> message_of(e)
            == "Timeout "@ + decimal(timeout_ms as nat) + "ms exceeded"@,
        e matches FerriErrorView::Timeout { operation: Some(op), timeout_ms } ==> message_of(e)
            == "Timeout "@ + decimal(timeout_ms as nat) + "ms exceeded"@ + " while "@ + op,
        e matches FerriErrorView::TargetClosed { reason: None } ==> message_of(e)
            == "Target page, context or browser has been closed"@,
        e matches FerriErrorView::TargetClosed { reason: Some(r) } ==> message_of(e)
            == "Target page, context or browser has been closed"@ + ": "@ + r,
        e matches FerriErrorView::StrictModeViolation { selector, count } ==> message_of(e)
            == "strict mode violation: selector "@ + str_debug(selector) + " resolved to "@
            + decimal(count as nat) + " elements"@,
        e matches FerriErrorView::Navigation { url, message } ==> message_of(e) == "navigation to "@
            + url + " failed: "@ + message,
        e matches FerriErrorView::Protocol { method, message } ==> message_of(e)
            == "protocol error ("@ + method + "): "@ + message,
        e matches FerriErrorView::Backend(m) ==> message_of(e) == "backend error: "@ + m,
        e matches FerriErrorView::InvalidSelector { selector, reason } ==> message_of(e)
            == "invalid selector "@ + str_debug(selector) + ": "@ + reason,
        e is NotConnected ==> message_of(e) == "not connected"@,
        e matches FerriErrorView::Interrupted(m) ==> message_of(e) == "interrupted: "@ + m,
        e matches FerriErrorView::InvalidArgument { name, reason } ==> message_of(e)
            == "invalid argument "@ + str_debug(name) + ": "@ + reason,
        e matches FerriErrorView::Unsupported(m) ==> message_of(e) == "unsupported operation: "@
            + m,
        e matches FerriErrorView::Evaluation(m) ==> message_of(e) == "evaluation error: "@ + m,
        e matches FerriErrorView::Snapshot(m) ==> message_of(e) == "snapshot error: "@ + m,
        e matches FerriErrorView::Io { message, .. } ==> message_of(e) == "io error: "@ + message,
        e matches FerriErrorView::Json { message } ==> message_of(e) == "json error: "@ + message,
        e matches FerriErrorView::Other(m) ==> message_of(e) == m,
{
    assert(("Timeout "@ + decimal(0) + "ms exceeded"@) + Seq::<char>::empty() =~= "Timeout "@
        + decimal(0) + "ms exceeded"@);
    if let FerriErrorView::Timeout { operation: None, timeout_ms } = e {
        assert(message_of(e) =~= "Timeout "@ + decimal(timeout_ms as nat) + "ms exceeded"@);
    }
    if let FerriErrorView::TargetClosed { reason: None } = e {
        assert(message_of(e) =~= "Target page, context or browser has been closed"@);
    }
}

} // verus!

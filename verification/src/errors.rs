//! Errors: the library's own (`AppError`) and the form in which the user interface
//! receives them (`ApiError`).
use vstd::prelude::*;

verus! {

/// An error as the user interface receives it.
#[derive(Debug, PartialEq)]
pub struct ApiError {
    pub code: String,
    pub message: String,
    pub details: Option<String>,
    pub exit_code: Option<i32>,
    pub retryable: bool,
}

pub open spec fn optional_text(s: Option<String>) -> Option<Seq<char>> {
    match s {
        Some(t) => Some(t@),
        None => None,
    }
}

impl Clone for ApiError {
    fn clone(&self) -> (res: ApiError)
        ensures
            res == *self,
    {
        ApiError {
            code: self.code.clone(),
            message: self.message.clone(),
            details: self.details.clone(),
            exit_code: self.exit_code,
            retryable: self.retryable,
        }
    }
}

impl ApiError {
    /// An error with the given code, message and retry hint, and no details or exit code.
    pub fn new(code: &str, message: &str, retryable: bool) -> (res: ApiError)
        ensures
            res.code@ == code@,
            res.message@ == message@,
            res.details is None,
            res.exit_code is None,
            res.retryable == retryable,
    {
        ApiError {
            code: code.to_string(),
            message: message.to_string(),
            details: None,
            exit_code: None,
            retryable,
        }
    }

    /// The same error with `details` attached.
    pub fn with_details(self, details: String) -> (res: ApiError)
        ensures
            res.code == self.code,
            res.message == self.message,
            res.details == Some(details),
            res.exit_code == self.exit_code,
            res.retryable == self.retryable,
    {
        let mut out = self;
        out.details = Some(details);
        out
    }

    /// The same error with `exit_code` in place of its exit code.
    pub fn with_exit_code(self, exit_code: Option<i32>) -> (res: ApiError)
        ensures
            res.code == self.code,
            res.message == self.message,
            res.details == self.details,
            res.exit_code == exit_code,
            res.retryable == self.retryable,
    {
        let mut out = self;
        out.exit_code = exit_code;
        out
    }
}

/// What can go wrong in the application.
#[derive(Debug)]
pub enum AppError {
    NotInstalled { details: String },
    Timeout,
    NonZeroExit { exit_code: Option<i32>, stderr: String },
    JsonParse { details: String },
    InvalidRequest { details: String },
    Settings { details: String },
    Cache { details: String },
    Io { details: String },
}

/// Whether `res` has exactly the given code, message, details, exit code and retry hint.
pub open spec fn api_error_is(
    res: ApiError,
    code: Seq<char>,
    message: Seq<char>,
    details: Option<Seq<char>>,
    exit_code: Option<i32>,
    retryable: bool,
) -> bool {
    &&& res.code@ == code
    &&& res.message@ == message
    &&& optional_text(res.details) == details
    &&& res.exit_code == exit_code
    &&& res.retryable == retryable
}

/// The `ApiError` that the user interface receives for an `AppError`: a code, a fixed
/// message, the details (the standard error output for a failed run), and whether a retry
/// may help.
pub open spec fn reports(e: AppError, res: ApiError) -> bool {
    match e {
        AppError::NotInstalled { details } => api_error_is(
            res,
            "notInstalled"@,
            "ccusage is not installed or could not be found."@,
            Some(details@),
            None,
            false,
        ),
        AppError::Timeout => api_error_is(
            res,
            "timeout"@,
            "ccusage took too long to respond."@,
            None,
            None,
            true,
        ),
        AppError::NonZeroExit { exit_code, stderr } => api_error_is(
            res,
            "nonZeroExit"@,
            "ccusage exited with an error."@,
            Some(stderr@),
            exit_code,
            true,
        ),
        AppError::JsonParse { details } => api_error_is(
            res,
            "jsonParse"@,
            "ccusage returned JSON that this app could not parse."@,
            Some(details@),
            None,
            false,
        ),
        AppError::InvalidRequest { details } => api_error_is(
            res,
            "invalidRequest"@,
            "The usage request is invalid."@,
            Some(details@),
            None,
            false,
        ),
        AppError::Settings { details } => api_error_is(
            res,
            "settings"@,
            "The settings could not be loaded or saved."@,
            Some(details@),
            None,
            false,
        ),
        AppError::Cache { details } => api_error_is(
            res,
            "cache"@,
            "The local cache could not be read or written."@,
            Some(details@),
            None,
            true,
        ),
        AppError::Io { details } => api_error_is(
            res,
            "io"@,
            "A local file or process operation failed."@,
            Some(details@),
            None,
            true,
        ),
    }
}

impl From<AppError> for ApiError {
    /// The `ApiError` that reports `value` to the user interface.
    fn from(value: AppError) -> (res: ApiError)
        ensures
            reports(value, res),
    {
        match value {
            AppError::NotInstalled { details } => ApiError::new(
                "notInstalled",
                "ccusage is not installed or could not be found.",
                false,
            ).with_details(details),
            AppError::Timeout => ApiError::new("timeout", "ccusage took too long to respond.", true),
            AppError::NonZeroExit { exit_code, stderr } => ApiError::new(
                "nonZeroExit",
                "ccusage exited with an error.",
                true,
            ).with_exit_code(exit_code).with_details(stderr),
            AppError::JsonParse { details } => ApiError::new(
                "jsonParse",
                "ccusage returned JSON that this app could not parse.",
                false,
            ).with_details(details),
            AppError::InvalidRequest { details } => ApiError::new(
                "invalidRequest",
                "The usage request is invalid.",
                false,
            ).with_details(details),
            AppError::Settings { details } => ApiError::new(
                "settings",
                "The settings could not be loaded or saved.",
                false,
            ).with_details(details),
            AppError::Cache { details } => ApiError::new(
                "cache",
                "The local cache could not be read or written.",
                true,
            ).with_details(details),
            AppError::Io { details } => ApiError::new(
                "io",
                "A local file or process operation failed.",
                true,
            ).with_details(details),
        }
    }
}

/// `from` states its result through `reports`, which speaks of the strings' contents; it is
/// not a spec function of its argument.
impl vstd::std_specs::convert::FromSpecImpl<AppError> for ApiError {
    open spec fn obeys_from_spec() -> bool {
        false
    }

    open spec fn from_spec(v: AppError) -> ApiError {
        arbitrary()
    }
}

/// The error for a poisoned lock on the shared state.
pub fn lock_error() -> (res: ApiError)
    ensures
        api_error_is(
            res,
            "io"@,
            "A local file or process operation failed."@,
            Some("internal state lock was poisoned"@),
            None,
            true,
        ),
{
    ApiError::from(AppError::Io { details: "internal state lock was poisoned".to_string() })
}

/// A retry is offered exactly for a timeout, a failed run, and cache and I/O errors.
pub proof fn law_retry_hint(e: AppError, res: ApiError)
    requires
        reports(e, res),
    ensures
        res.retryable <==> (e is Timeout || e is NonZeroExit || e is Cache || e is Io),
{
}

/// The code names the kind of error: two errors reported with the same code are of the
/// same kind.
pub proof fn law_code_names_kind(e1: AppError, r1: ApiError, e2: AppError, r2: ApiError)
    requires
        reports(e1, r1),
        reports(e2, r2),
        r1.code@ == r2.code@,
    ensures
        e1 is NotInstalled <==> e2 is NotInstalled,
        e1 is Timeout <==> e2 is Timeout,
        e1 is NonZeroExit <==> e2 is NonZeroExit,
        e1 is JsonParse <==> e2 is JsonParse,
        e1 is InvalidRequest <==> e2 is InvalidRequest,
        e1 is Settings <==> e2 is Settings,
        e1 is Cache <==> e2 is Cache,
        e1 is Io <==> e2 is Io,
{
    lemma_code_length(e1, r1);
    lemma_code_length(e2, r2);
}

/// Each kind's code has a length of its own.
proof fn lemma_code_length(e: AppError, r: ApiError)
    requires
        reports(e, r),
    ensures
        r.code@.len() == match e {
            AppError::NotInstalled { .. } => "notInstalled"@.len(),
            AppError::Timeout => "timeout"@.len(),
            AppError::NonZeroExit { .. } => "nonZeroExit"@.len(),
            AppError::JsonParse { .. } => "jsonParse"@.len(),
            AppError::InvalidRequest { .. } => "invalidRequest"@.len(),
            AppError::Settings { .. } => "settings"@.len(),
            AppError::Cache { .. } => "cache"@.len(),
            AppError::Io { .. } => "io"@.len(),
        },
        "notInstalled"@.len() == 12,
        "timeout"@.len() == 7,
        "nonZeroExit"@.len() == 11,
        "jsonParse"@.len() == 9,
        "invalidRequest"@.len() == 14,
        "settings"@.len() == 8,
        "cache"@.len() == 5,
        "io"@.len() == 2,
{
    reveal_strlit("notInstalled");
    reveal_strlit("timeout");
    reveal_strlit("nonZeroExit");
    reveal_strlit("jsonParse");
    reveal_strlit("invalidRequest");
    reveal_strlit("settings");
    reveal_strlit("cache");
    reveal_strlit("io");
}

} // verus!
